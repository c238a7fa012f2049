use vstd::prelude::*;
use crate::datetime::DateTime;
use crate::error::LegistarError;
use crate::fields::{
    read_string, read_timestamp, read_u32, string_field, timestamp_field, u32_field, FieldError,
};
use crate::json::{in_names, json_of_text, keys_distinct, lemma_lookup_without, lemma_without_distinct, lookup, residual, without, Json};
use crate::records::{records_from_text, response_outcome, FromRecord};

verus! {

pub const VOTE_TYPE_ID: &'static str = "VoteTypeId";

pub const VOTE_TYPE_NAME: &'static str = "VoteTypeName";

pub const VOTE_TYPE_PLURAL_NAME: &'static str = "VoteTypePluralName";

pub const VOTE_TYPE_LAST_MODIFIED: &'static str = "VoteTypeLastModifiedUtc";

pub const VOTE_TYPE_GUID: &'static str = "VoteTypeGuid";

pub const VOTE_TYPE_ROW_VERSION: &'static str = "VoteTypeRowVersion";

pub const VOTE_TYPE_USED_FOR: &'static str = "VoteTypeUsedFor";

pub const VOTE_TYPE_RESULT: &'static str = "VoteTypeResult";

pub const VOTE_TYPE_SORT: &'static str = "VoteTypeSort";

/// The wire fields that a vote type binds to attributes.
pub open spec fn vote_type_names() -> Seq<&'static str> {
    seq![
        VOTE_TYPE_ID,
        VOTE_TYPE_NAME,
        VOTE_TYPE_PLURAL_NAME,
        VOTE_TYPE_LAST_MODIFIED,
        VOTE_TYPE_GUID,
        VOTE_TYPE_ROW_VERSION,
        VOTE_TYPE_USED_FOR,
        VOTE_TYPE_RESULT,
        VOTE_TYPE_SORT,
    ]
}

/// A kind of vote (in favor, opposed, ...).
#[derive(Debug)]
pub struct VoteType {
    pub id: u32,
    pub name: String,
    pub plural_name: String,
    pub last_modified: DateTime,
    pub guid: String,
    pub row_version: String,
    pub used_for: u32,
    pub result: u32,
    pub sort: u32,
    /// Every wire field that no attribute binds, as it came.
    pub extra: Vec<(String, Json)>,
}

impl FromRecord for VoteType {
    open spec fn record_check(e: Seq<(String, Json)>) -> Result<(), FieldError> {
        if u32_field(e, VOTE_TYPE_ID) is Err {
            Err(u32_field(e, VOTE_TYPE_ID)->Err_0)
        } else if string_field(e, VOTE_TYPE_NAME) is Err {
            Err(string_field(e, VOTE_TYPE_NAME)->Err_0)
        } else if string_field(e, VOTE_TYPE_PLURAL_NAME) is Err {
            Err(string_field(e, VOTE_TYPE_PLURAL_NAME)->Err_0)
        } else if timestamp_field(e, VOTE_TYPE_LAST_MODIFIED) is Err {
            Err(timestamp_field(e, VOTE_TYPE_LAST_MODIFIED)->Err_0)
        } else if string_field(e, VOTE_TYPE_GUID) is Err {
            Err(string_field(e, VOTE_TYPE_GUID)->Err_0)
        } else if string_field(e, VOTE_TYPE_ROW_VERSION) is Err {
            Err(string_field(e, VOTE_TYPE_ROW_VERSION)->Err_0)
        } else if u32_field(e, VOTE_TYPE_USED_FOR) is Err {
            Err(u32_field(e, VOTE_TYPE_USED_FOR)->Err_0)
        } else if u32_field(e, VOTE_TYPE_RESULT) is Err {
            Err(u32_field(e, VOTE_TYPE_RESULT)->Err_0)
        } else if u32_field(e, VOTE_TYPE_SORT) is Err {
            Err(u32_field(e, VOTE_TYPE_SORT)->Err_0)
        } else {
            Ok(())
        }
    }

    open spec fn bound_from(&self, e: Seq<(String, Json)>) -> bool {
        &&& u32_field(e, VOTE_TYPE_ID) == Ok::<u32, FieldError>(self.id)
        &&& string_field(e, VOTE_TYPE_NAME) == Ok::<Seq<char>, FieldError>(self.name@)
        &&& string_field(e, VOTE_TYPE_PLURAL_NAME) == Ok::<Seq<char>, FieldError>(self.plural_name@)
        &&& timestamp_field(e, VOTE_TYPE_LAST_MODIFIED) == Ok::<DateTime, FieldError>(self.last_modified)
        &&& string_field(e, VOTE_TYPE_GUID) == Ok::<Seq<char>, FieldError>(self.guid@)
        &&& string_field(e, VOTE_TYPE_ROW_VERSION) == Ok::<Seq<char>, FieldError>(self.row_version@)
        &&& u32_field(e, VOTE_TYPE_USED_FOR) == Ok::<u32, FieldError>(self.used_for)
        &&& u32_field(e, VOTE_TYPE_RESULT) == Ok::<u32, FieldError>(self.result)
        &&& u32_field(e, VOTE_TYPE_SORT) == Ok::<u32, FieldError>(self.sort)
        &&& self.extra@ == without(e, in_names(vote_type_names()))
    }

    fn from_record(entries: Vec<(String, Json)>) -> (r: Result<VoteType, FieldError>) {
        let id = match read_u32(&entries, VOTE_TYPE_ID) {
            Ok(v) => v,
            Err(x) => return Err(x),
        };
        let name = match read_string(&entries, VOTE_TYPE_NAME) {
            Ok(v) => v,
            Err(x) => return Err(x),
        };
        let plural_name = match read_string(&entries, VOTE_TYPE_PLURAL_NAME) {
            Ok(v) => v,
            Err(x) => return Err(x),
        };
        let last_modified = match read_timestamp(&entries, VOTE_TYPE_LAST_MODIFIED) {
            Ok(v) => v,
            Err(x) => return Err(x),
        };
        let guid = match read_string(&entries, VOTE_TYPE_GUID) {
            Ok(v) => v,
            Err(x) => return Err(x),
        };
        let row_version = match read_string(&entries, VOTE_TYPE_ROW_VERSION) {
            Ok(v) => v,
            Err(x) => return Err(x),
        };
        let used_for = match read_u32(&entries, VOTE_TYPE_USED_FOR) {
            Ok(v) => v,
            Err(x) => return Err(x),
        };
        let result = match read_u32(&entries, VOTE_TYPE_RESULT) {
            Ok(v) => v,
            Err(x) => return Err(x),
        };
        let sort = match read_u32(&entries, VOTE_TYPE_SORT) {
            Ok(v) => v,
            Err(x) => return Err(x),
        };
        let names = [
            VOTE_TYPE_ID,
            VOTE_TYPE_NAME,
            VOTE_TYPE_PLURAL_NAME,
            VOTE_TYPE_LAST_MODIFIED,
            VOTE_TYPE_GUID,
            VOTE_TYPE_ROW_VERSION,
            VOTE_TYPE_USED_FOR,
            VOTE_TYPE_RESULT,
            VOTE_TYPE_SORT,
        ];
        assert(names@ == vote_type_names());
        let extra = residual(entries, &names);
        Ok(VoteType { id, name, plural_name, last_modified, guid, row_version, used_for, result, sort, extra })
    }
}

/// Binds a response that lists vote types.
pub fn deserialize(text: &str) -> (r: Result<Vec<VoteType>, LegistarError>)
    ensures
        match json_of_text(text@) {
            None => r matches Err(x) && x == LegistarError::InvalidJson,
            Some(doc) => response_outcome(doc, r),
        },
{
    records_from_text(text)
}

/// Every wire field that a vote type does not bind stands unchanged among its
/// residual fields, and no field that it binds stands there; where the record
/// has distinct keys, so does the residual map.
pub proof fn law_vote_type_residual(x: VoteType, e: Seq<(String, Json)>, k: Seq<char>)
    requires
        x.bound_from(e),
    ensures
        in_names(vote_type_names())(k) ==> lookup(x.extra@, k) is None,
        !in_names(vote_type_names())(k) ==> lookup(x.extra@, k) == lookup(e, k),
        keys_distinct(e) ==> keys_distinct(x.extra@),
{
    lemma_lookup_without(e, in_names(vote_type_names()), k);
    lemma_without_distinct(e, in_names(vote_type_names()));
}

} // verus!
