use legistar::bodytypes;
use legistar::datetime::DateTime;
use legistar::error::LegistarError;
use legistar::event_item;
use legistar::fields::FieldError;
use legistar::json::{get_field, Json};
use legistar::mattertypes;
use legistar::votetypes;

fn matter(flags: &str) -> String {
    format!(
        "[{{\"MatterTypeId\":2,\"MatterTypeName\":\"Ordinance\",\"MatterTypeDescription\":\"Ord\",\
        \"MatterTypeLastModifiedUtc\":\"2014-05-24T04:51:14.457\",\"MatterTypeGuid\":\"g\",\
        \"MatterTypeRowVersion\":\"r\"{flags},\"MatterTypeSort\":4}}]"
    )
}

#[test]
fn matter_type_flags() {
    let zero = mattertypes::deserialize(&matter(",\"MatterTypeActiveFlag\":0,\"MatterTypeUsedFlag\":0")).unwrap();
    assert!(!zero[0].active);
    assert!(!zero[0].used);
    let nonzero = mattertypes::deserialize(&matter(",\"MatterTypeActiveFlag\":1,\"MatterTypeUsedFlag\":7")).unwrap();
    assert!(nonzero[0].active);
    assert!(nonzero[0].used);
    let negative = mattertypes::deserialize(&matter(",\"MatterTypeActiveFlag\":-1,\"MatterTypeUsedFlag\":4294967295")).unwrap();
    assert!(negative[0].active);
    assert!(negative[0].used);
    let mixed = mattertypes::deserialize(&matter(",\"MatterTypeActiveFlag\":0,\"MatterTypeUsedFlag\":5")).unwrap();
    assert!(!mixed[0].active);
    assert!(mixed[0].used);
    let huge = mattertypes::deserialize(&matter(",\"MatterTypeUsedFlag\":-9223372036854775808")).unwrap();
    assert!(huge[0].used);
    let fraction = mattertypes::deserialize(&matter(",\"MatterTypeUsedFlag\":0.5")).unwrap_err();
    assert_eq!(
        fraction,
        LegistarError::Field { index: 0, cause: FieldError::WrongType("MatterTypeUsedFlag") }
    );
    let absent = mattertypes::deserialize(&matter("")).unwrap();
    assert!(!absent[0].active);
    assert!(!absent[0].used);
    let text_flag = mattertypes::deserialize(&matter(",\"MatterTypeActiveFlag\":\"1\"")).unwrap_err();
    assert_eq!(
        text_flag,
        LegistarError::Field { index: 0, cause: FieldError::WrongType("MatterTypeActiveFlag") }
    );
}

#[test]
fn matter_type_fields() {
    let m = mattertypes::deserialize(&matter(",\"MatterTypeActiveFlag\":1,\"MatterTypeExtra\":[1,{\"a\":true}]")).unwrap();
    assert_eq!(m[0].id, 2);
    assert_eq!(m[0].name, "Ordinance");
    assert_eq!(m[0].description, "Ord");
    assert_eq!(m[0].sort, 4);
    assert_eq!(
        m[0].last_modified,
        DateTime { year: 2014, month: 5, day: 24, hour: 4, minute: 51, second: 14, nanosecond: 457_000_000 }
    );
    assert_eq!(
        get_field(&m[0].extra, "MatterTypeExtra"),
        Some(&Json::Array(vec![
            Json::Number("1".to_string()),
            Json::Object(vec![("a".to_string(), Json::Bool(true))]),
        ]))
    );
    assert_eq!(m[0].extra.len(), 1);
}

#[test]
fn body_types() {
    let text = "[{\"BodyTypeId\":40,\"BodyTypeName\":\"Primary Legislative Body\",\
        \"BodyTypeLastModifiedUtc\":\"2014-05-24T04:51:14\",\"BodyTypeGuid\":\"g\",\
        \"BodyTypeRowVersion\":\"r\",\"BodyTypeExtra\":null}]";
    let b = bodytypes::deserialize(text).unwrap();
    assert_eq!(b.len(), 1);
    assert_eq!(b[0].id, 40);
    assert_eq!(b[0].name, "Primary Legislative Body");
    assert_eq!(b[0].last_modified.second, 14);
    assert_eq!(b[0].last_modified.nanosecond, 0);
    assert_eq!(get_field(&b[0].extra, "BodyTypeExtra"), Some(&Json::Null));
    assert_eq!(bodytypes::deserialize("{}").unwrap_err(), LegistarError::NotAnArray);
    assert!(bodytypes::deserialize("[]").unwrap().is_empty());
}

#[test]
fn vote_types() {
    let text = "[{\"VoteTypeId\":1,\"VoteTypeName\":\"In Favor\",\"VoteTypePluralName\":\"In Favor\",\
        \"VoteTypeLastModifiedUtc\":\"2014-05-24T04:51:14.1\",\"VoteTypeGuid\":\"g\",\
        \"VoteTypeRowVersion\":\"r\",\"VoteTypeUsedFor\":1,\"VoteTypeResult\":1,\"VoteTypeSort\":0}]";
    let v = votetypes::deserialize(text).unwrap();
    assert_eq!(v[0].name, "In Favor");
    assert_eq!((v[0].used_for, v[0].result, v[0].sort), (1, 1, 0));
    assert_eq!(v[0].last_modified.nanosecond, 100_000_000);
    let too_big = text.replace("\"VoteTypeSort\":0", "\"VoteTypeSort\":4294967296");
    assert_eq!(
        votetypes::deserialize(&too_big).unwrap_err(),
        LegistarError::Field { index: 0, cause: FieldError::WrongType("VoteTypeSort") }
    );
}

#[test]
fn event_items() {
    let text = "[{\"EventItemId\":1,\"EventItemTitle\":null,\"EventItemAgendaNumber\":\"1.\"},\
        {\"EventItemId\":2,\"EventItemTitle\":\"Budget\",\"EventItemLastModifiedUtc\":\"2023-11-10T20:19:39\"}]";
    let items = event_item::deserialize(text).unwrap();
    assert_eq!(items.len(), 2);
    assert_eq!(items[0].title, None);
    assert_eq!(get_field(&items[0].extra, "EventItemAgendaNumber"), Some(&Json::Str("1.".to_string())));
    assert_eq!(items[1].title.as_deref(), Some("Budget"));
    assert_eq!(items[1].last_modified.unwrap().hour, 20);
    assert_eq!(
        event_item::deserialize("[{\"EventItemTitle\":\"x\"}]").unwrap_err(),
        LegistarError::Field { index: 0, cause: FieldError::Missing("EventItemId") }
    );
}
