use legistar::datetime::DateTime;
use legistar::error::LegistarError;
use legistar::events::{attach_item_texts, attach_items, deserialize, event_deserialize, events_from_json};
use legistar::fields::FieldError;
use legistar::json::{find_key, get_field, Json};
use legistar::merge::MergeError;

const SAMPLE: &str = "[{\"EventId\":5611,\"EventGuid\":\"52479834-25E0-4868-9336-C3676E97A9AC\",\"EventLastModifiedUtc\":\"2023-11-10T20:19:39.15\",\"EventRowVersion\":\"AAAAAAD80A4=\",\"EventBodyId\":198,\"EventBodyName\":\"Select Budget Committee\",\"EventDate\":\"2023-11-13T00:00:00\",\"EventTime\":\"10:00 AM\",\"EventVideoStatus\":\"Public\",\"EventAgendaStatusId\":10,\"EventAgendaStatusName\":\"Final\",\"EventMinutesStatusId\":10,\"EventMinutesStatusName\":\"Final\",\"EventLocation\":\"Council Chamber, City Hall, 600 4th Avenue, Seattle, WA 98104\",\"EventAgendaFile\":\"https://legistar2.granicus.com/seattle/meetings/2023/11/5611_A_Select_Budget_Committee_23-11-13_Committee_Agenda.pdf\",\"EventMinutesFile\":null,\"EventAgendaLastPublishedUTC\":\"2023-11-10T20:02:23.843\",\"EventMinutesLastPublishedUTC\":null,\"EventComment\":\"Session I at 10 a.m. & Session II at 2 p.m.\",\"EventVideoPath\":null,\"EventMedia\":\"https://seattlechannel.org/BudgetCommittee/?videoid=x151681\",\"EventInSiteURL\":\"https://seattle.legistar.com/MeetingDetail.aspx?LEGID=5611&GID=393&G=FFE3B678-CEF6-4197-84AC-5204EA4CFC0C\",\"EventItems\":[]}]";

fn at(year: i32, month: u8, day: u8, hour: u8, minute: u8, second: u8, nanosecond: u32) -> DateTime {
    DateTime { year, month, day, hour, minute, second, nanosecond }
}

fn has_key(extra: &Vec<(String, Json)>, key: &str) -> bool {
    find_key(extra, key).is_some()
}

fn one_event(date: &str, time: &str) -> String {
    format!(
        "[{{\"EventId\":1,\"EventBodyName\":\"Council\",\"EventDate\":\"{date}\",\"EventTime\":\"{time}\",\"EventItems\":[]}}]"
    )
}

#[test]
fn event_validate_date_time_replacement() {
    let pending = deserialize(SAMPLE).unwrap();
    let result = attach_item_texts(pending, &vec!["[]".to_string()]).unwrap();
    assert_eq!(result[0].date_time, at(2023, 11, 13, 10, 0, 0, 0));
    assert!(!has_key(&result[0].extra, "EventDate"));
    assert!(!has_key(&result[0].extra, "EventTime"));
}

#[test]
fn mod_validate_date_time_replacement() {
    let result = event_deserialize(SAMPLE).unwrap();
    assert_eq!(result[0].date_time, at(2023, 11, 13, 10, 0, 0, 0));
    assert!(!has_key(&result[0].extra, "EventDate"));
    assert!(!has_key(&result[0].extra, "EventTime"));
}

#[test]
fn sample_binds_every_named_attribute() {
    let result = event_deserialize(SAMPLE).unwrap();
    let e = &result[0];
    assert_eq!(e.id, 5611);
    assert_eq!(e.body_name, "Select Budget Committee");
    assert_eq!(e.last_modified, Some(at(2023, 11, 10, 20, 19, 39, 150_000_000)));
    assert_eq!(e.agenda_last_updated, Some(at(2023, 11, 10, 20, 2, 23, 843_000_000)));
    assert!(e.agenda_file.as_deref().unwrap().ends_with("Committee_Agenda.pdf"));
    assert_eq!(e.media.as_deref(), Some("https://seattlechannel.org/BudgetCommittee/?videoid=x151681"));
    assert!(e.items.is_empty());
}

#[test]
fn residual_keeps_unknown_fields_unchanged() {
    let result = event_deserialize(SAMPLE).unwrap();
    let extra = &result[0].extra;
    assert_eq!(get_field(extra, "EventBodyId"), Some(&Json::Number("198".to_string())));
    assert_eq!(get_field(extra, "EventMinutesFile"), Some(&Json::Null));
    assert_eq!(get_field(extra, "EventVideoStatus"), Some(&Json::Str("Public".to_string())));
    for named in [
        "EventId",
        "EventBodyName",
        "EventDateTime",
        "EventLastModifiedUtc",
        "EventAgendaFile",
        "EventAgendaLastPublishedUTC",
        "EventMedia",
        "EventItems",
    ] {
        assert!(!has_key(extra, named), "{named} left in the residual map");
    }
    // 23 wire fields: 9 bound (the date and the time through the merged field), 14 kept.
    assert_eq!(extra.len(), 14);
}

#[test]
fn twelve_hour_clock_converts_to_hours() {
    for (time, hour) in [("2:00 PM", 14u8), ("12:00 AM", 0), ("12:00 PM", 12), ("10:00 AM", 10)] {
        let events = event_deserialize(&one_event("2023-11-13T00:00:00", time)).unwrap();
        assert_eq!(events[0].date_time, at(2023, 11, 13, hour, 0, 0, 0), "{time}");
    }
}

#[test]
fn minutes_are_kept() {
    let events = event_deserialize(&one_event("2024-02-29T00:00:00", "9:30 AM")).unwrap();
    assert_eq!(events[0].date_time, at(2024, 2, 29, 9, 30, 0, 0));
}

#[test]
fn object_response_is_not_an_array() {
    let text = "{\"EventId\":1,\"EventBodyName\":\"Council\"}";
    assert_eq!(event_deserialize(text).unwrap_err(), LegistarError::NotAnArray);
    assert_eq!(deserialize(text).unwrap_err(), LegistarError::NotAnArray);
    assert_eq!(events_from_json(Json::Bool(true)).unwrap_err(), LegistarError::NotAnArray);
}

#[test]
fn text_that_is_not_json_is_refused() {
    assert_eq!(event_deserialize("[{").unwrap_err(), LegistarError::InvalidJson);
}

#[test]
fn element_that_is_not_a_record_is_refused() {
    let text = "[{\"EventId\":1,\"EventBodyName\":\"C\",\"EventDate\":\"2023-11-13T00:00:00\",\"EventTime\":\"1:00 PM\",\"EventItems\":[]},3]";
    assert_eq!(event_deserialize(text).unwrap_err(), LegistarError::NotAnObject { index: 1 });
}

#[test]
fn merge_failures_name_the_record() {
    let bad_time = one_event("2023-11-13T00:00:00", "14:00 PM");
    assert_eq!(
        event_deserialize(&bad_time).unwrap_err(),
        LegistarError::Merge { index: 0, reason: MergeError::BadTime }
    );
    let lower_case = one_event("2023-11-13T00:00:00", "2:00 pm");
    assert_eq!(
        event_deserialize(&lower_case).unwrap_err(),
        LegistarError::Merge { index: 0, reason: MergeError::BadTime }
    );
    let bad_date = one_event("13/11/2023", "2:00 PM");
    assert_eq!(
        event_deserialize(&bad_date).unwrap_err(),
        LegistarError::Merge { index: 0, reason: MergeError::BadDate }
    );
    let no_time = "[{\"EventId\":1,\"EventDate\":\"2023-11-13T00:00:00\"}]";
    assert_eq!(
        event_deserialize(no_time).unwrap_err(),
        LegistarError::Merge { index: 0, reason: MergeError::MissingTime }
    );
    let no_date = "[{\"EventId\":1,\"EventTime\":\"2:00 PM\"}]";
    assert_eq!(
        event_deserialize(no_date).unwrap_err(),
        LegistarError::Merge { index: 0, reason: MergeError::MissingDate }
    );
    let numeric_date = "[{\"EventId\":1,\"EventDate\":20231113,\"EventTime\":\"2:00 PM\"}]";
    assert_eq!(
        event_deserialize(numeric_date).unwrap_err(),
        LegistarError::Merge { index: 0, reason: MergeError::DateNotText }
    );
    let numeric_time = "[{\"EventId\":1,\"EventDate\":\"2023-11-13T00:00:00\",\"EventTime\":1400}]";
    assert_eq!(
        event_deserialize(numeric_time).unwrap_err(),
        LegistarError::Merge { index: 0, reason: MergeError::TimeNotText }
    );
}

#[test]
fn field_failures_name_the_field() {
    let no_body = "[{\"EventId\":1,\"EventDate\":\"2023-11-13T00:00:00\",\"EventTime\":\"2:00 PM\",\"EventItems\":[]}]";
    assert_eq!(
        event_deserialize(no_body).unwrap_err(),
        LegistarError::Field { index: 0, cause: FieldError::Missing("EventBodyName") }
    );
    let text_id = "[{\"EventId\":\"1\",\"EventBodyName\":\"C\",\"EventDate\":\"2023-11-13T00:00:00\",\"EventTime\":\"2:00 PM\",\"EventItems\":[]}]";
    assert_eq!(
        event_deserialize(text_id).unwrap_err(),
        LegistarError::Field { index: 0, cause: FieldError::WrongType("EventId") }
    );
    let bad_stamp = "[{\"EventId\":1,\"EventBodyName\":\"C\",\"EventDate\":\"2023-11-13T00:00:00\",\"EventTime\":\"2:00 PM\",\"EventLastModifiedUtc\":\"2023-11-10 20:19\",\"EventItems\":[]}]";
    assert_eq!(
        event_deserialize(bad_stamp).unwrap_err(),
        LegistarError::Field { index: 0, cause: FieldError::BadTimestamp("EventLastModifiedUtc") }
    );
    let text_items = "[{\"EventId\":1,\"EventBodyName\":\"C\",\"EventDate\":\"2023-11-13T00:00:00\",\"EventTime\":\"2:00 PM\",\"EventItems\":\"none\"}]";
    assert_eq!(
        event_deserialize(text_items).unwrap_err(),
        LegistarError::Field { index: 0, cause: FieldError::WrongType("EventItems") }
    );
}

#[test]
fn optional_fields_may_be_null_or_absent() {
    let text = "[{\"EventId\":1,\"EventBodyName\":\"C\",\"EventDate\":\"2023-11-13T00:00:00\",\"EventTime\":\"2:00 PM\",\"EventAgendaFile\":null,\"EventItems\":[]}]";
    let events = event_deserialize(text).unwrap();
    assert_eq!(events[0].agenda_file, None);
    assert_eq!(events[0].media, None);
    assert_eq!(events[0].last_modified, None);
    assert!(events[0].extra.is_empty());
}

#[test]
fn one_fetch_per_record_in_order() {
    let text = "[\
        {\"EventId\":7,\"EventBodyName\":\"A\",\"EventDate\":\"2023-11-13T00:00:00\",\"EventTime\":\"9:00 AM\",\"EventItems\":[]},\
        {\"EventId\":3,\"EventBodyName\":\"B\",\"EventDate\":\"2023-11-14T00:00:00\",\"EventTime\":\"1:00 PM\",\"EventItems\":[]},\
        {\"EventId\":9,\"EventBodyName\":\"C\",\"EventDate\":\"2023-11-15T00:00:00\",\"EventTime\":\"3:30 PM\",\"EventItems\":[]}]";
    let pending = deserialize(text).unwrap();
    let ids: Vec<u64> = pending.iter().map(|p| p.id).collect();
    assert_eq!(ids, vec![7, 3, 9]);
    for p in &pending {
        assert!(!has_key(&p.record, "EventItems"));
    }
    let texts: Vec<String> = ids
        .iter()
        .map(|id| format!("[{{\"EventItemId\":{},\"EventItemTitle\":\"item of {}\"}}]", id * 100, id))
        .collect();
    let events = attach_item_texts(pending, &texts).unwrap();
    let out: Vec<(u32, &str, u32)> =
        events.iter().map(|e| (e.id, e.body_name.as_str(), e.items[0].id)).collect();
    assert_eq!(out, vec![(7, "A", 700), (3, "B", 300), (9, "C", 900)]);
    assert_eq!(events[1].items[0].title.as_deref(), Some("item of 3"));
    assert_eq!(events[2].date_time, at(2023, 11, 15, 15, 30, 0, 0));
}

#[test]
fn item_lists_must_match_the_records() {
    let pending = deserialize(&one_event("2023-11-13T00:00:00", "1:00 PM")).unwrap();
    assert_eq!(attach_items(pending, vec![]).unwrap_err(), LegistarError::ItemCount);
    let pending = deserialize(&one_event("2023-11-13T00:00:00", "1:00 PM")).unwrap();
    assert_eq!(
        attach_item_texts(pending, &vec!["not json".to_string()]).unwrap_err(),
        LegistarError::ItemsNotJson { index: 0 }
    );
    let pending = deserialize(&one_event("2023-11-13T00:00:00", "1:00 PM")).unwrap();
    assert_eq!(
        attach_item_texts(pending, &vec!["[]".to_string(), "[]".to_string()]).unwrap_err(),
        LegistarError::ItemCount
    );
    let pending = deserialize(&one_event("2023-11-13T00:00:00", "1:00 PM")).unwrap();
    assert_eq!(
        attach_items(pending, vec![Json::Bool(true)]).unwrap_err(),
        LegistarError::Field { index: 0, cause: FieldError::WrongType("EventItems") }
    );
}

#[test]
fn pending_record_needs_an_identifier() {
    let text = "[{\"EventDate\":\"2023-11-13T00:00:00\",\"EventTime\":\"1:00 PM\"}]";
    assert_eq!(
        deserialize(text).unwrap_err(),
        LegistarError::Field { index: 0, cause: FieldError::Missing("EventId") }
    );
}

#[test]
fn absent_items_and_optionals_bind_to_empty_values() {
    let text = "[{\"EventId\":1,\"EventBodyName\":\"B\",\"EventDate\":\"2023-11-13T00:00:00\",\"EventTime\":\"10:00 AM\",\"EventLastModifiedUtc\":\"2023-11-10T20:19:39.15\",\"EventAgendaLastPublishedUTC\":\"2023-11-10T20:02:23\"}]";
    let v = event_deserialize(text).unwrap();
    assert_eq!(v[0].last_modified, Some(at(2023, 11, 10, 20, 19, 39, 150_000_000)));
    assert_eq!(v[0].agenda_last_updated, Some(at(2023, 11, 10, 20, 2, 23, 0)));
    assert_eq!(v[0].agenda_file, None);
    assert_eq!(v[0].media, None);
    assert!(v[0].items.is_empty());
    let null_items = text.replace("\"EventId\":1,", "\"EventId\":1,\"EventItems\":null,");
    assert!(event_deserialize(&null_items).unwrap()[0].items.is_empty());
}

#[test]
fn failed_item_text_names_its_meeting() {
    let text = "[\
        {\"EventId\":7,\"EventBodyName\":\"A\",\"EventDate\":\"2023-11-13T00:00:00\",\"EventTime\":\"9:00 AM\"},\
        {\"EventId\":3,\"EventBodyName\":\"B\",\"EventDate\":\"2023-11-14T00:00:00\",\"EventTime\":\"1:00 PM\"}]";
    let pending = deserialize(text).unwrap();
    let texts = vec!["[]".to_string(), "<html>".to_string()];
    assert_eq!(attach_item_texts(pending, &texts).unwrap_err(), LegistarError::ItemsNotJson { index: 1 });
}
