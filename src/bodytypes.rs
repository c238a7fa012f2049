use vstd::prelude::*;
use crate::datetime::DateTime;
use crate::error::LegistarError;
use crate::fields::{
    read_string, read_timestamp, read_u32, string_field, timestamp_field, u32_field, FieldError,
};
use crate::json::{in_names, json_of_text, keys_distinct, lemma_lookup_without, lemma_without_distinct, lookup, residual, without, Json};
use crate::records::{records_from_text, response_outcome, FromRecord};

verus! {

pub const BODY_TYPE_ID: &'static str = "BodyTypeId";

pub const BODY_TYPE_NAME: &'static str = "BodyTypeName";

pub const BODY_TYPE_LAST_MODIFIED: &'static str = "BodyTypeLastModifiedUtc";

pub const BODY_TYPE_GUID: &'static str = "BodyTypeGuid";

pub const BODY_TYPE_ROW_VERSION: &'static str = "BodyTypeRowVersion";

/// The wire fields that a body type binds to attributes.
pub open spec fn body_type_names() -> Seq<&'static str> {
    seq![
        BODY_TYPE_ID,
        BODY_TYPE_NAME,
        BODY_TYPE_LAST_MODIFIED,
        BODY_TYPE_GUID,
        BODY_TYPE_ROW_VERSION,
    ]
}

/// A kind of legislative body (council, committee, ...).
#[derive(Debug)]
pub struct BodyType {
    pub id: u32,
    pub name: String,
    pub last_modified: DateTime,
    pub guid: String,
    pub row_version: String,
    /// Every wire field that no attribute binds, as it came.
    pub extra: Vec<(String, Json)>,
}

impl FromRecord for BodyType {
    open spec fn record_check(e: Seq<(String, Json)>) -> Result<(), FieldError> {
        if u32_field(e, BODY_TYPE_ID) is Err {
            Err(u32_field(e, BODY_TYPE_ID)->Err_0)
        } else if string_field(e, BODY_TYPE_NAME) is Err {
            Err(string_field(e, BODY_TYPE_NAME)->Err_0)
        } else if timestamp_field(e, BODY_TYPE_LAST_MODIFIED) is Err {
            Err(timestamp_field(e, BODY_TYPE_LAST_MODIFIED)->Err_0)
        } else if string_field(e, BODY_TYPE_GUID) is Err {
            Err(string_field(e, BODY_TYPE_GUID)->Err_0)
        } else if string_field(e, BODY_TYPE_ROW_VERSION) is Err {
            Err(string_field(e, BODY_TYPE_ROW_VERSION)->Err_0)
        } else {
            Ok(())
        }
    }

    open spec fn bound_from(&self, e: Seq<(String, Json)>) -> bool {
        &&& u32_field(e, BODY_TYPE_ID) == Ok::<u32, FieldError>(self.id)
        &&& string_field(e, BODY_TYPE_NAME) == Ok::<Seq<char>, FieldError>(self.name@)
        &&& timestamp_field(e, BODY_TYPE_LAST_MODIFIED) == Ok::<DateTime, FieldError>(
            self.last_modified,
        )
        &&& string_field(e, BODY_TYPE_GUID) == Ok::<Seq<char>, FieldError>(self.guid@)
        &&& string_field(e, BODY_TYPE_ROW_VERSION) == Ok::<Seq<char>, FieldError>(
            self.row_version@,
        )
        &&& self.extra@ == without(e, in_names(body_type_names()))
    }

    fn from_record(entries: Vec<(String, Json)>) -> (r: Result<BodyType, FieldError>) {
        let id = match read_u32(&entries, BODY_TYPE_ID) {
            Ok(v) => v,
            Err(x) => return Err(x),
        };
        let name = match read_string(&entries, BODY_TYPE_NAME) {
            Ok(v) => v,
            Err(x) => return Err(x),
        };
        let last_modified = match read_timestamp(&entries, BODY_TYPE_LAST_MODIFIED) {
            Ok(v) => v,
            Err(x) => return Err(x),
        };
        let guid = match read_string(&entries, BODY_TYPE_GUID) {
            Ok(v) => v,
            Err(x) => return Err(x),
        };
        let row_version = match read_string(&entries, BODY_TYPE_ROW_VERSION) {
            Ok(v) => v,
            Err(x) => return Err(x),
        };
        let names = [
            BODY_TYPE_ID,
            BODY_TYPE_NAME,
            BODY_TYPE_LAST_MODIFIED,
            BODY_TYPE_GUID,
            BODY_TYPE_ROW_VERSION,
        ];
        assert(names@ == body_type_names());
        let extra = residual(entries, &names);
        Ok(BodyType { id, name, last_modified, guid, row_version, extra })
    }
}

/// Binds a response that lists body types.
pub fn deserialize(text: &str) -> (r: Result<Vec<BodyType>, LegistarError>)
    ensures
        match json_of_text(text@) {
            None => r matches Err(x) && x == LegistarError::InvalidJson,
            Some(doc) => response_outcome(doc, r),
        },
{
    records_from_text(text)
}

/// Every wire field that a body type does not bind stands unchanged among its
/// residual fields, and no field that it binds stands there; where the record
/// has distinct keys, so does the residual map.
pub proof fn law_body_type_residual(x: BodyType, e: Seq<(String, Json)>, k: Seq<char>)
    requires
        x.bound_from(e),
    ensures
        in_names(body_type_names())(k) ==> lookup(x.extra@, k) is None,
        !in_names(body_type_names())(k) ==> lookup(x.extra@, k) == lookup(e, k),
        keys_distinct(e) ==> keys_distinct(x.extra@),
{
    lemma_lookup_without(e, in_names(body_type_names()), k);
    lemma_without_distinct(e, in_names(body_type_names()));
}

} // verus!
