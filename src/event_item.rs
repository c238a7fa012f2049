use vstd::prelude::*;
use crate::datetime::{text_view, DateTime};
use crate::error::LegistarError;
use crate::fields::{
    opt_string_field, opt_timestamp_field, read_opt_string, read_opt_timestamp, read_u32,
    u32_field, FieldError,
};
use crate::json::{in_names, json_of_text, keys_distinct, lemma_lookup_without, lemma_without_distinct, lookup, residual, without, Json};
use crate::records::{records_from_text, response_outcome, FromRecord};

verus! {

pub const ITEM_ID: &'static str = "EventItemId";

pub const ITEM_TITLE: &'static str = "EventItemTitle";

pub const ITEM_LAST_MODIFIED: &'static str = "EventItemLastModifiedUtc";

/// The wire fields that an agenda item binds to attributes.
pub open spec fn item_names() -> Seq<&'static str> {
    seq![ITEM_ID, ITEM_TITLE, ITEM_LAST_MODIFIED]
}

/// One item of a meeting's agenda.
#[derive(Debug)]
pub struct EventItem {
    pub id: u32,
    pub title: Option<String>,
    pub last_modified: Option<DateTime>,
    /// Every wire field that no attribute binds, as it came.
    pub extra: Vec<(String, Json)>,
}

impl FromRecord for EventItem {
    open spec fn record_check(e: Seq<(String, Json)>) -> Result<(), FieldError> {
        match u32_field(e, ITEM_ID) {
            Err(x) => Err(x),
            Ok(_) => match opt_string_field(e, ITEM_TITLE) {
                Err(x) => Err(x),
                Ok(_) => match opt_timestamp_field(e, ITEM_LAST_MODIFIED) {
                    Err(x) => Err(x),
                    Ok(_) => Ok(()),
                },
            },
        }
    }

    open spec fn bound_from(&self, e: Seq<(String, Json)>) -> bool {
        &&& u32_field(e, ITEM_ID) == Ok::<u32, FieldError>(self.id)
        &&& opt_string_field(e, ITEM_TITLE) == Ok::<Option<Seq<char>>, FieldError>(
            text_view(self.title),
        )
        &&& opt_timestamp_field(e, ITEM_LAST_MODIFIED) == Ok::<Option<DateTime>, FieldError>(
            self.last_modified,
        )
        &&& self.extra@ == without(e, in_names(item_names()))
    }

    fn from_record(entries: Vec<(String, Json)>) -> (r: Result<EventItem, FieldError>) {
        let id = match read_u32(&entries, ITEM_ID) {
            Ok(v) => v,
            Err(x) => return Err(x),
        };
        let title = match read_opt_string(&entries, ITEM_TITLE) {
            Ok(v) => v,
            Err(x) => return Err(x),
        };
        let last_modified = match read_opt_timestamp(&entries, ITEM_LAST_MODIFIED) {
            Ok(v) => v,
            Err(x) => return Err(x),
        };
        let names = [ITEM_ID, ITEM_TITLE, ITEM_LAST_MODIFIED];
        assert(names@ == item_names());
        let extra = residual(entries, &names);
        Ok(EventItem { id, title, last_modified, extra })
    }
}

/// Binds a response that lists agenda items.
pub fn deserialize(text: &str) -> (r: Result<Vec<EventItem>, LegistarError>)
    ensures
        match json_of_text(text@) {
            None => r matches Err(x) && x == LegistarError::InvalidJson,
            Some(doc) => response_outcome(doc, r),
        },
{
    records_from_text(text)
}

/// Every wire field that an agenda item does not bind stands unchanged among its
/// residual fields, and no field that it binds stands there; where the record
/// has distinct keys, so does the residual map.
pub proof fn law_event_item_residual(x: EventItem, e: Seq<(String, Json)>, k: Seq<char>)
    requires
        x.bound_from(e),
    ensures
        in_names(item_names())(k) ==> lookup(x.extra@, k) is None,
        !in_names(item_names())(k) ==> lookup(x.extra@, k) == lookup(e, k),
        keys_distinct(e) ==> keys_distinct(x.extra@),
{
    lemma_lookup_without(e, in_names(item_names()), k);
    lemma_without_distinct(e, in_names(item_names()));
}

} // verus!
