use vstd::prelude::*;
use crate::fields::FieldError;
use crate::merge::MergeError;

verus! {

/// Why a response could not be turned into typed records.
#[derive(Clone, Copy, Debug, PartialEq, Eq)]
pub enum LegistarError {
    /// The text is not JSON.
    InvalidJson,
    /// The response is not the array of records that a list endpoint returns.
    NotAnArray,
    /// The element at `index` of the response is not a record.
    NotAnObject { index: usize },
    /// The date and time of the record at `index` could not be merged.
    Merge { index: usize, reason: MergeError },
    /// A field of the record at `index` could not be bound.
    Field { index: usize, cause: FieldError },
    /// The number of fetched item lists differs from the number of records.
    ItemCount,
    /// The item list fetched for the record at `index` is not JSON.
    ItemsNotJson { index: usize },
}

} // verus!
