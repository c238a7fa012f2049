use legistar::fields::parse_decimal;
use legistar::json::{get_field, remove_key, residual, Json};
use legistar::merge::{merge_date_time, MergeError};

fn text(s: &str) -> Json {
    Json::Str(s.to_string())
}

fn record(date: &str, time: &str) -> Vec<(String, Json)> {
    vec![
        ("EventId".to_string(), Json::Number("5611".to_string())),
        ("EventDate".to_string(), text(date)),
        ("EventTime".to_string(), text(time)),
        ("EventComment".to_string(), text("Session I")),
    ]
}

#[test]
fn merge_writes_one_iso_timestamp() {
    let merged = merge_date_time(record("2023-11-13T00:00:00", "10:00 AM")).unwrap();
    assert_eq!(merged.len(), 3);
    match get_field(&merged, "EventDateTime") {
        Some(Json::Str(s)) => assert_eq!(s, "2023-11-13T10:00:00.000000000"),
        other => panic!("no merged field: {other:?}"),
    }
    assert_eq!(get_field(&merged, "EventDate"), None);
    assert_eq!(get_field(&merged, "EventTime"), None);
    assert_eq!(get_field(&merged, "EventComment"), Some(&text("Session I")));
    assert_eq!(get_field(&merged, "EventId"), Some(&Json::Number("5611".to_string())));
}

#[test]
fn merge_uses_the_afternoon_hours() {
    let merged = merge_date_time(record("2023-11-13T00:00:00", "2:00 PM")).unwrap();
    match get_field(&merged, "EventDateTime") {
        Some(Json::Str(s)) => assert_eq!(s, "2023-11-13T14:00:00.000000000"),
        other => panic!("no merged field: {other:?}"),
    }
}

#[test]
fn merge_replaces_an_earlier_merged_field() {
    let mut r = record("2023-11-13T00:00:00", "12:00 AM");
    r.push(("EventDateTime".to_string(), text("stale")));
    let merged = merge_date_time(r).unwrap();
    assert_eq!(merged.iter().filter(|e| e.0 == "EventDateTime").count(), 1);
    match get_field(&merged, "EventDateTime") {
        Some(Json::Str(s)) => assert!(s.starts_with("2023-11-13T00:00:00"), "{s}"),
        other => panic!("no merged field: {other:?}"),
    }
}

#[test]
fn merge_errors() {
    assert_eq!(merge_date_time(vec![]).unwrap_err(), MergeError::MissingDate);
    assert_eq!(
        merge_date_time(record("2023-11-13T00:00:00", "10:00")).unwrap_err(),
        MergeError::BadTime
    );
    assert_eq!(merge_date_time(record("2023-02-30T00:00:00", "10:00 AM")).unwrap_err(), MergeError::BadDate);
}

#[test]
fn decimal_texts() {
    assert_eq!(parse_decimal("0"), Some(0));
    assert_eq!(parse_decimal("5611"), Some(5611));
    assert_eq!(parse_decimal("18446744073709551615"), Some(u64::MAX));
    assert_eq!(parse_decimal("18446744073709551616"), None);
    assert_eq!(parse_decimal(""), None);
    assert_eq!(parse_decimal("-1"), None);
    assert_eq!(parse_decimal("1.5"), None);
}

#[test]
fn remove_and_residual() {
    let mut r = record("d", "t");
    r.push(("EventDate".to_string(), text("second")));
    assert_eq!(remove_key(&mut r, "EventDate"), Some(text("second")));
    assert_eq!(r.len(), 3);
    assert_eq!(remove_key(&mut r, "Nothing"), None);
    let rest = residual(r, &["EventId", "EventTime"]);
    assert_eq!(rest, vec![("EventComment".to_string(), text("Session I"))]);
}

#[test]
fn merge_keeps_a_date_near_the_edge_of_the_calendar() {
    let merged = merge_date_time(record("0001-01-01T00:00:00", "11:59 PM")).unwrap();
    assert_eq!(get_field(&merged, "EventDateTime"), Some(&text("0001-01-01T23:59:00.000000000")));
}
