use legistar::client::{event_filter, filter_from_texts, InvalidDate, LegistarClient};
use legistar::datetime::CalendarDate;

#[test]
fn client_urls() {
    let c = LegistarClient::new("seattle".to_string());
    assert_eq!(c.events_url(), "https://webapi.legistar.com/v1/seattle/events");
    assert_eq!(c.body_types_url(), "https://webapi.legistar.com/v1/seattle/bodytypes");
    assert_eq!(c.matter_types_url(), "https://webapi.legistar.com/v1/seattle/mattertypes");
    assert_eq!(c.vote_types_url(), "https://webapi.legistar.com/v1/seattle/votetypes");
}

#[test]
fn filter_with_both_bounds_joins_them() {
    assert_eq!(
        filter_from_texts(Some("2023-11-01"), Some("2023-12-01")).as_deref(),
        Some("EventDate ge datetime'2023-11-01' and EventDate lt datetime'2023-12-01'")
    );
}

#[test]
fn filter_with_one_bound_has_one_clause() {
    assert_eq!(
        filter_from_texts(Some("2023-11-01"), None).as_deref(),
        Some("EventDate ge datetime'2023-11-01'")
    );
    assert_eq!(
        filter_from_texts(None, Some("2023-12-01")).as_deref(),
        Some("EventDate lt datetime'2023-12-01'")
    );
    assert_eq!(filter_from_texts(None, None), None);
}

#[test]
fn filter_from_dates() {
    let begin = CalendarDate { year: 2023, month: 11, day: 1 };
    let end = CalendarDate { year: 2023, month: 12, day: 1 };
    assert_eq!(
        event_filter(Some(begin), Some(end)).unwrap().as_deref(),
        Some("EventDate ge datetime'2023-11-01' and EventDate lt datetime'2023-12-01'")
    );
    assert_eq!(event_filter(None, None), Ok(None));
    let bad = CalendarDate { year: 2023, month: 2, day: 30 };
    assert_eq!(event_filter(Some(begin), Some(bad)), Err(InvalidDate));
    let bad_month = CalendarDate { year: 2023, month: 13, day: 1 };
    assert_eq!(event_filter(Some(bad_month), None), Err(InvalidDate));
}

#[test]
fn filter_pads_and_signs_years() {
    let early = CalendarDate { year: 5, month: 3, day: 9 };
    assert_eq!(
        event_filter(Some(early), None).unwrap().as_deref(),
        Some("EventDate ge datetime'0005-03-09'")
    );
    let before = CalendarDate { year: -5, month: 3, day: 9 };
    assert_eq!(
        event_filter(None, Some(before)).unwrap().as_deref(),
        Some("EventDate lt datetime'-0005-03-09'")
    );
    let leap = CalendarDate { year: 2024, month: 2, day: 29 };
    assert!(event_filter(Some(leap), None).is_ok());
    let not_leap = CalendarDate { year: 1900, month: 2, day: 29 };
    assert_eq!(event_filter(Some(not_leap), None), Err(InvalidDate));
}
