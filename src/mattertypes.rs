use vstd::prelude::*;
use crate::datetime::DateTime;
use crate::error::LegistarError;
use crate::fields::{
    flag_field, read_string, read_timestamp, read_u32, string_field, timestamp_field, u32_field, u32_to_bool, FieldError,
};
use crate::json::{in_names, json_of_text, keys_distinct, lemma_lookup_without, lemma_without_distinct, lookup, residual, without, Json};
use crate::records::{records_from_text, response_outcome, FromRecord};

verus! {

pub const MATTER_TYPE_ID: &'static str = "MatterTypeId";

pub const MATTER_TYPE_NAME: &'static str = "MatterTypeName";

pub const MATTER_TYPE_DESCRIPTION: &'static str = "MatterTypeDescription";

pub const MATTER_TYPE_LAST_MODIFIED: &'static str = "MatterTypeLastModifiedUtc";

pub const MATTER_TYPE_GUID: &'static str = "MatterTypeGuid";

pub const MATTER_TYPE_ROW_VERSION: &'static str = "MatterTypeRowVersion";

pub const MATTER_TYPE_ACTIVE: &'static str = "MatterTypeActiveFlag";

pub const MATTER_TYPE_USED: &'static str = "MatterTypeUsedFlag";

pub const MATTER_TYPE_SORT: &'static str = "MatterTypeSort";

/// The wire fields that a matter type binds to attributes.
pub open spec fn matter_type_names() -> Seq<&'static str> {
    seq![
        MATTER_TYPE_ID,
        MATTER_TYPE_NAME,
        MATTER_TYPE_DESCRIPTION,
        MATTER_TYPE_LAST_MODIFIED,
        MATTER_TYPE_GUID,
        MATTER_TYPE_ROW_VERSION,
        MATTER_TYPE_ACTIVE,
        MATTER_TYPE_USED,
        MATTER_TYPE_SORT,
    ]
}

/// A kind of legislative matter (bill, resolution, ...).
#[derive(Debug)]
pub struct MatterType {
    pub id: u32,
    pub name: String,
    pub description: String,
    pub last_modified: DateTime,
    pub guid: String,
    pub row_version: String,
    pub active: bool,
    pub used: bool,
    pub sort: u32,
    /// Every wire field that no attribute binds, as it came.
    pub extra: Vec<(String, Json)>,
}

impl FromRecord for MatterType {
    open spec fn record_check(e: Seq<(String, Json)>) -> Result<(), FieldError> {
        if u32_field(e, MATTER_TYPE_ID) is Err {
            Err(u32_field(e, MATTER_TYPE_ID)->Err_0)
        } else if string_field(e, MATTER_TYPE_NAME) is Err {
            Err(string_field(e, MATTER_TYPE_NAME)->Err_0)
        } else if string_field(e, MATTER_TYPE_DESCRIPTION) is Err {
            Err(string_field(e, MATTER_TYPE_DESCRIPTION)->Err_0)
        } else if timestamp_field(e, MATTER_TYPE_LAST_MODIFIED) is Err {
            Err(timestamp_field(e, MATTER_TYPE_LAST_MODIFIED)->Err_0)
        } else if string_field(e, MATTER_TYPE_GUID) is Err {
            Err(string_field(e, MATTER_TYPE_GUID)->Err_0)
        } else if string_field(e, MATTER_TYPE_ROW_VERSION) is Err {
            Err(string_field(e, MATTER_TYPE_ROW_VERSION)->Err_0)
        } else if flag_field(e, MATTER_TYPE_ACTIVE) is Err {
            Err(flag_field(e, MATTER_TYPE_ACTIVE)->Err_0)
        } else if flag_field(e, MATTER_TYPE_USED) is Err {
            Err(flag_field(e, MATTER_TYPE_USED)->Err_0)
        } else if u32_field(e, MATTER_TYPE_SORT) is Err {
            Err(u32_field(e, MATTER_TYPE_SORT)->Err_0)
        } else {
            Ok(())
        }
    }

    open spec fn bound_from(&self, e: Seq<(String, Json)>) -> bool {
        &&& u32_field(e, MATTER_TYPE_ID) == Ok::<u32, FieldError>(self.id)
        &&& string_field(e, MATTER_TYPE_NAME) == Ok::<Seq<char>, FieldError>(self.name@)
        &&& string_field(e, MATTER_TYPE_DESCRIPTION) == Ok::<Seq<char>, FieldError>(self.description@)
        &&& timestamp_field(e, MATTER_TYPE_LAST_MODIFIED) == Ok::<DateTime, FieldError>(self.last_modified)
        &&& string_field(e, MATTER_TYPE_GUID) == Ok::<Seq<char>, FieldError>(self.guid@)
        &&& string_field(e, MATTER_TYPE_ROW_VERSION) == Ok::<Seq<char>, FieldError>(self.row_version@)
        &&& flag_field(e, MATTER_TYPE_ACTIVE) == Ok::<bool, FieldError>(self.active)
        &&& flag_field(e, MATTER_TYPE_USED) == Ok::<bool, FieldError>(self.used)
        &&& u32_field(e, MATTER_TYPE_SORT) == Ok::<u32, FieldError>(self.sort)
        &&& self.extra@ == without(e, in_names(matter_type_names()))
    }

    fn from_record(entries: Vec<(String, Json)>) -> (r: Result<MatterType, FieldError>) {
        let id = match read_u32(&entries, MATTER_TYPE_ID) {
            Ok(v) => v,
            Err(x) => return Err(x),
        };
        let name = match read_string(&entries, MATTER_TYPE_NAME) {
            Ok(v) => v,
            Err(x) => return Err(x),
        };
        let description = match read_string(&entries, MATTER_TYPE_DESCRIPTION) {
            Ok(v) => v,
            Err(x) => return Err(x),
        };
        let last_modified = match read_timestamp(&entries, MATTER_TYPE_LAST_MODIFIED) {
            Ok(v) => v,
            Err(x) => return Err(x),
        };
        let guid = match read_string(&entries, MATTER_TYPE_GUID) {
            Ok(v) => v,
            Err(x) => return Err(x),
        };
        let row_version = match read_string(&entries, MATTER_TYPE_ROW_VERSION) {
            Ok(v) => v,
            Err(x) => return Err(x),
        };
        let active = match u32_to_bool(&entries, MATTER_TYPE_ACTIVE) {
            Ok(v) => v,
            Err(x) => return Err(x),
        };
        let used = match u32_to_bool(&entries, MATTER_TYPE_USED) {
            Ok(v) => v,
            Err(x) => return Err(x),
        };
        let sort = match read_u32(&entries, MATTER_TYPE_SORT) {
            Ok(v) => v,
            Err(x) => return Err(x),
        };
        let names = [
            MATTER_TYPE_ID,
            MATTER_TYPE_NAME,
            MATTER_TYPE_DESCRIPTION,
            MATTER_TYPE_LAST_MODIFIED,
            MATTER_TYPE_GUID,
            MATTER_TYPE_ROW_VERSION,
            MATTER_TYPE_ACTIVE,
            MATTER_TYPE_USED,
            MATTER_TYPE_SORT,
        ];
        assert(names@ == matter_type_names());
        let extra = residual(entries, &names);
        Ok(MatterType { id, name, description, last_modified, guid, row_version, active, used, sort, extra })
    }
}

/// Binds a response that lists matter types.
pub fn deserialize(text: &str) -> (r: Result<Vec<MatterType>, LegistarError>)
    ensures
        match json_of_text(text@) {
            None => r matches Err(x) && x == LegistarError::InvalidJson,
            Some(doc) => response_outcome(doc, r),
        },
{
    records_from_text(text)
}

/// Every wire field that a matter type does not bind stands unchanged among its
/// residual fields, and no field that it binds stands there; where the record
/// has distinct keys, so does the residual map.
pub proof fn law_matter_type_residual(x: MatterType, e: Seq<(String, Json)>, k: Seq<char>)
    requires
        x.bound_from(e),
    ensures
        in_names(matter_type_names())(k) ==> lookup(x.extra@, k) is None,
        !in_names(matter_type_names())(k) ==> lookup(x.extra@, k) == lookup(e, k),
        keys_distinct(e) ==> keys_distinct(x.extra@),
{
    lemma_lookup_without(e, in_names(matter_type_names()), k);
    lemma_without_distinct(e, in_names(matter_type_names()));
}

} // verus!
