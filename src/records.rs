use vstd::prelude::*;
use crate::error::LegistarError;
use crate::fields::FieldError;
use crate::json::{json_of_text, parse_json, Json};

verus! {

/// A typed record that is bound from the fields of one JSON object.
pub trait FromRecord: Sized {
    /// Whether the fields can be bound, and if not, the first that cannot.
    spec fn record_check(entries: Seq<(String, Json)>) -> Result<(), FieldError>;

    /// Whether `self` is what the fields bind to.
    spec fn bound_from(&self, entries: Seq<(String, Json)>) -> bool;

    fn from_record(entries: Vec<(String, Json)>) -> (r: Result<Self, FieldError>)
        ensures
            match Self::record_check(entries@) {
                Err(e) => r matches Err(x) && x == e,
                Ok(_) => r matches Ok(x) && x.bound_from(entries@),
            },
    ;
}

/// The first failure in binding the elements of a list, if any.
pub open spec fn list_check<T: FromRecord>(v: Seq<Json>) -> Result<(), LegistarError>
    decreases v.len(),
{
    if v.len() == 0 {
        Ok(())
    } else {
        match list_check::<T>(v.drop_last()) {
            Err(e) => Err(e),
            Ok(_) => match v.last() {
                Json::Object(e) => match T::record_check(e@) {
                    Ok(_) => Ok(()),
                    Err(c) => Err(LegistarError::Field { index: (v.len() - 1) as usize, cause: c }),
                },
                _ => Err(LegistarError::NotAnObject { index: (v.len() - 1) as usize }),
            },
        }
    }
}

/// Each typed record is bound from the element at its place.
pub open spec fn list_bound<T: FromRecord>(out: Seq<T>, v: Seq<Json>) -> bool {
    &&& out.len() == v.len()
    &&& forall|i: int|
        0 <= i < v.len() ==> (#[trigger] v[i] matches Json::Object(e) && out[i].bound_from(e@))
}

/// What binding the elements of a list gives.
pub open spec fn list_outcome<T: FromRecord>(v: Seq<Json>, r: Result<Vec<T>, LegistarError>) -> bool {
    match list_check::<T>(v) {
        Err(e) => r matches Err(x) && x == e,
        Ok(_) => r matches Ok(out) && list_bound(out@, v),
    }
}

/// What a list response gives: an array is bound element by element; any
/// other value is refused as not an array.
pub open spec fn response_outcome<T: FromRecord>(doc: Json, r: Result<Vec<T>, LegistarError>) -> bool {
    match doc {
        Json::Array(v) => list_outcome(v@, r),
        _ => r matches Err(x) && x == LegistarError::NotAnArray,
    }
}

proof fn lemma_list_check_error<T: FromRecord>(v: Seq<Json>, i: int)
    requires
        0 <= i <= v.len(),
        list_check::<T>(v.subrange(0, i)) is Err,
    ensures
        list_check::<T>(v) == list_check::<T>(v.subrange(0, i)),
    decreases v.len() - i,
{
    if i < v.len() {
        assert(v.subrange(0, i + 1).drop_last() =~= v.subrange(0, i));
        lemma_list_check_error::<T>(v, i + 1);
    } else {
        assert(v.subrange(0, i) =~= v);
    }
}

/// The element is a record whose fields can be bound.
pub open spec fn record_ok<T: FromRecord>(j: Json) -> bool {
    match j {
        Json::Object(e) => T::record_check(e@) is Ok,
        _ => false,
    }
}

/// A list of records whose fields can all be bound passes.
pub proof fn lemma_list_check_ok<T: FromRecord>(v: Seq<Json>)
    requires
        forall|i: int| 0 <= i < v.len() ==> record_ok::<T>(#[trigger] v[i]),
    ensures
        list_check::<T>(v) is Ok,
    decreases v.len(),
{
    if v.len() > 0 {
        let p = v.drop_last();
        assert forall|i: int| 0 <= i < p.len() implies record_ok::<T>(#[trigger] p[i]) by {
            assert(p[i] == v[i]);
        }
        lemma_list_check_ok::<T>(p);
        assert(record_ok::<T>(v[v.len() - 1]));
    }
}

/// Binds every element of a list, in order; the first element that is not a
/// record, or whose fields cannot be bound, fails the whole list.
pub fn records_from_list<T: FromRecord>(list: Vec<Json>) -> (r: Result<Vec<T>, LegistarError>)
    ensures
        list_outcome(list@, r),
{
    let ghost orig = list@;
    let n: usize = list.len();
    let mut v = list;
    let mut out: Vec<T> = Vec::new();
    let mut i: usize = 0;
    while v.len() > 0
        invariant
            orig == list@,
            orig.len() == n,
            i + v@.len() == n,
            v@ == orig.subrange(i as int, n as int),
            list_check::<T>(orig.subrange(0, i as int)) is Ok,
            out@.len() == i,
            forall|j: int|
                0 <= j < i ==> (#[trigger] orig[j] matches Json::Object(e) && out@[j].bound_from(
                    e@,
                )),
        decreases v@.len(),
    {
        let x = v.remove(0);
        proof {
            assert(orig.subrange(0, i + 1).drop_last() =~= orig.subrange(0, i as int));
            assert(orig.subrange(0, i + 1).last() == x);
        }
        match x {
            Json::Object(e) => match T::from_record(e) {
                Ok(rec) => {
                    out.push(rec);
                },
                Err(c) => {
                    proof {
                        assert(list_check::<T>(orig.subrange(0, i + 1)) == Err::<(), LegistarError>(
                            LegistarError::Field { index: i, cause: c },
                        ));
                        lemma_list_check_error::<T>(orig, i + 1);
                    }
                    return Err(LegistarError::Field { index: i, cause: c });
                },
            },
            _ => {
                proof {
                    lemma_list_check_error::<T>(orig, i + 1);
                }
                return Err(LegistarError::NotAnObject { index: i });
            },
        }
        i = i + 1;
        assert(v@ =~= orig.subrange(i as int, n as int));
    }
    assert(orig.subrange(0, n as int) =~= orig);
    Ok(out)
}

/// Binds a parsed list response.
pub fn records_from_json<T: FromRecord>(doc: Json) -> (r: Result<Vec<T>, LegistarError>)
    ensures
        response_outcome(doc, r),
{
    match doc {
        Json::Array(v) => records_from_list(v),
        _ => Err(LegistarError::NotAnArray),
    }
}

/// Parses a list response and binds it; a text that is not JSON fails with
/// `InvalidJson`.
pub fn records_from_text<T: FromRecord>(text: &str) -> (r: Result<Vec<T>, LegistarError>)
    ensures
        match json_of_text(text@) {
            None => r matches Err(x) && x == LegistarError::InvalidJson,
            Some(doc) => response_outcome(doc, r),
        },
{
    match parse_json(text) {
        Ok(doc) => records_from_json(doc),
        Err(_) => Err(LegistarError::InvalidJson),
    }
}

} // verus!
