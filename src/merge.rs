use vstd::prelude::*;
use crate::datetime::{
    at_time, clock_time_by, format_iso8601, iso8601_date_time, iso8601_of, parse_clock_time, valid_date_time,
    parse_iso8601, valid_clock, with_time,
};
use crate::json::{
    get_field, is_key, lemma_lookup_without, lemma_without_excludes, lookup, remove_key, without,
    Json,
};

verus! {

/// The wire field that holds the date of a meeting (its time part is zero).
pub const DATE_FIELD: &'static str = "EventDate";

/// The wire field that holds the time of day of a meeting on a 12-hour clock.
pub const TIME_FIELD: &'static str = "EventTime";

/// The field that replaces the two above with one ISO 8601 timestamp.
pub const DATE_TIME_FIELD: &'static str = "EventDateTime";

/// How the time of day is written: `10:00 AM`, `2:00 PM`.
pub const CLOCK_DESCRIPTION: &'static str = "[hour padding:none repr:12]:[minute] [period case:upper]";

/// Why the date and time fields of a record could not be merged.
#[derive(Clone, Copy, PartialEq, Eq, Structural, Debug)]
pub enum MergeError {
    MissingDate,
    DateNotText,
    BadDate,
    MissingTime,
    TimeNotText,
    BadTime,
    Unwritable,
}

/// The merged timestamp text of a record, or why there is none.
pub open spec fn merged_text(record: Seq<(String, Json)>) -> Result<Seq<char>, MergeError> {
    match lookup(record, DATE_FIELD@) {
        None => Err(MergeError::MissingDate),
        Some(Json::Str(d)) => match iso8601_date_time(d@) {
            None => Err(MergeError::BadDate),
            Some(date) => match lookup(record, TIME_FIELD@) {
                None => Err(MergeError::MissingTime),
                Some(Json::Str(t)) => match clock_time_by(t@, CLOCK_DESCRIPTION@) {
                    None => Err(MergeError::BadTime),
                    Some(clock) => if valid_date_time(at_time(date, clock)) && 0 <= date.year {
                        Ok(iso8601_of(at_time(date, clock)))
                    } else {
                        Err(MergeError::Unwritable)
                    },
                },
                Some(_) => Err(MergeError::TimeNotText),
            },
        },
        Some(_) => Err(MergeError::DateNotText),
    }
}

/// The record without its date, time and merged fields.
pub open spec fn without_split(record: Seq<(String, Json)>) -> Seq<(String, Json)> {
    without(
        without(without(record, is_key(DATE_FIELD@)), is_key(TIME_FIELD@)),
        is_key(DATE_TIME_FIELD@),
    )
}

/// What merging gives for a record whose merged text is `text`: the other
/// fields as they were, then the merged field.
pub open spec fn is_merged(
    r: Seq<(String, Json)>,
    record: Seq<(String, Json)>,
    text: Seq<char>,
) -> bool {
    &&& r.len() == without_split(record).len() + 1
    &&& r.drop_last() == without_split(record)
    &&& r.last().0@ == DATE_TIME_FIELD@
    &&& r.last().1 matches Json::Str(s) && s@ == text
}

/// Replaces the date field and the 12-hour time field of a record by one
/// ISO 8601 timestamp field that holds the date of the first at the time of
/// day of the second.
pub fn merge_date_time(record: Vec<(String, Json)>) -> (r: Result<
    Vec<(String, Json)>,
    MergeError,
>)
    ensures
        match merged_text(record@) {
            Ok(text) => r matches Ok(m) && is_merged(m@, record@, text),
            Err(e) => r == Err::<Vec<(String, Json)>, MergeError>(e),
        },
{
    let date = match get_field(&record, DATE_FIELD) {
        None => return Err(MergeError::MissingDate),
        Some(Json::Str(d)) => match parse_iso8601(d.as_str()) {
            None => return Err(MergeError::BadDate),
            Some(date) => date,
        },
        Some(_) => return Err(MergeError::DateNotText),
    };
    let clock = match get_field(&record, TIME_FIELD) {
        None => return Err(MergeError::MissingTime),
        Some(Json::Str(t)) => match parse_clock_time(t.as_str(), CLOCK_DESCRIPTION) {
            None => return Err(MergeError::BadTime),
            Some(clock) => clock,
        },
        Some(_) => return Err(MergeError::TimeNotText),
    };
    let text = match format_iso8601(with_time(date, clock)) {
        None => return Err(MergeError::Unwritable),
        Some(text) => text,
    };
    let mut rest = record;
    let _ = remove_key(&mut rest, DATE_FIELD);
    let _ = remove_key(&mut rest, TIME_FIELD);
    let _ = remove_key(&mut rest, DATE_TIME_FIELD);
    let ghost kept = rest@;
    rest.push((DATE_TIME_FIELD.to_owned(), Json::Str(text)));
    assert(rest@.drop_last() =~= kept);
    Ok(rest)
}

/// After a merge the record holds neither the date field nor the time field,
/// and exactly one merged field, whose value is the merged timestamp text.
pub proof fn law_merge_leaves_one_timestamp(
    record: Seq<(String, Json)>,
    merged: Seq<(String, Json)>,
    text: Seq<char>,
)
    requires
        merged_text(record) == Ok::<Seq<char>, MergeError>(text),
        is_merged(merged, record, text),
    ensures
        lookup(merged, DATE_FIELD@) is None,
        lookup(merged, TIME_FIELD@) is None,
        lookup(merged, DATE_TIME_FIELD@) matches Some(Json::Str(s)) && s@ == text,
        forall|i: int|
            0 <= i < merged.len() && (#[trigger] merged[i]).0@ == DATE_TIME_FIELD@ ==> i
                == merged.len() - 1,
{
    reveal_strlit("EventDate");
    reveal_strlit("EventTime");
    reveal_strlit("EventDateTime");
    assert(DATE_FIELD@.len() == 9);
    assert(DATE_TIME_FIELD@.len() == 13);
    assert(TIME_FIELD@.len() == 9);
    let w1 = without(record, is_key(DATE_FIELD@));
    let w2 = without(w1, is_key(TIME_FIELD@));
    lemma_lookup_without(record, is_key(DATE_FIELD@), DATE_FIELD@);
    lemma_lookup_without(w1, is_key(TIME_FIELD@), DATE_FIELD@);
    lemma_lookup_without(w2, is_key(DATE_TIME_FIELD@), DATE_FIELD@);
    lemma_lookup_without(w1, is_key(TIME_FIELD@), TIME_FIELD@);
    lemma_lookup_without(w2, is_key(DATE_TIME_FIELD@), TIME_FIELD@);
    lemma_without_excludes(w2, is_key(DATE_TIME_FIELD@));
    assert(merged.drop_last() == without_split(record));
    assert forall|i: int|
        0 <= i < merged.len() && (#[trigger] merged[i]).0@ == DATE_TIME_FIELD@ implies i
            == merged.len() - 1 by {
        if i < merged.len() - 1 {
            assert(merged[i] == without_split(record)[i]);
        }
    }
}

/// The date field and the time field are texts that the time crate reads, as
/// a date with a year from 0 on and a time of day.
pub open spec fn split_fields_readable(record: Seq<(String, Json)>) -> bool {
    match (lookup(record, DATE_FIELD@), lookup(record, TIME_FIELD@)) {
        (Some(Json::Str(d)), Some(Json::Str(t))) => match (
            iso8601_date_time(d@),
            clock_time_by(t@, CLOCK_DESCRIPTION@),
        ) {
            (Some(date), Some(c)) => 0 <= date.year && valid_date_time(date) && valid_clock(
                c.hour,
                c.minute,
                c.second,
                c.nanosecond,
            ),
            _ => false,
        },
        _ => false,
    }
}

/// A record whose date and time fields are readable always merges, into the
/// ISO 8601 text of its date at its time of day.
pub proof fn law_readable_fields_merge(record: Seq<(String, Json)>)
    requires
        split_fields_readable(record),
    ensures
        merged_text(record) is Ok,
        merged_text(record) == Ok::<Seq<char>, MergeError>(
            iso8601_of(
                at_time(
                    iso8601_date_time(lookup(record, DATE_FIELD@)->0->Str_0@)->0,
                    clock_time_by(lookup(record, TIME_FIELD@)->0->Str_0@, CLOCK_DESCRIPTION@)->0,
                ),
            ),
        ),
{
}

} // verus!
