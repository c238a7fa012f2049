use vstd::prelude::*;
use vstd::string::*;
use crate::datetime::{date_time_by, parse_date_time, DateTime};
use crate::json::{get_field, lookup, Json};

verus! {

/// How the API writes a timestamp: `2023-11-10T20:19:39.15`.
pub const TIMESTAMP_DESCRIPTION: &'static str =
    "[year]-[month]-[day]T[hour]:[minute]:[second][optional [.[subsecond digits:1+]]]";

/// Why a field could not be bound to its attribute; each names the wire field.
#[derive(Clone, Copy, Debug, PartialEq, Eq)]
pub enum FieldError {
    Missing(&'static str),
    WrongType(&'static str),
    BadTimestamp(&'static str),
}

pub open spec fn is_digit(c: char) -> bool {
    '0' <= c <= '9'
}

pub open spec fn all_digits(t: Seq<char>) -> bool {
    forall|i: int| 0 <= i < t.len() ==> is_digit(#[trigger] t[i])
}

/// The number that a text of decimal digits writes.
pub open spec fn digits_value(t: Seq<char>) -> nat
    decreases t.len(),
{
    if t.len() == 0 {
        0
    } else {
        digits_value(t.drop_last()) * 10 + (t.last() as nat - '0' as nat) as nat
    }
}

/// The unsigned integer that a JSON number's text writes, where it is one and
/// fits in 64 bits.
pub open spec fn decimal_u64(t: Seq<char>) -> Option<u64> {
    if t.len() > 0 && all_digits(t) && digits_value(t) <= u64::MAX {
        Some(digits_value(t) as u64)
    } else {
        None
    }
}

proof fn lemma_digits_grow(t: Seq<char>, i: int)
    requires
        0 <= i <= t.len(),
        all_digits(t),
    ensures
        digits_value(t.subrange(0, i)) <= digits_value(t),
    decreases t.len() - i,
{
    if i < t.len() {
        lemma_digits_grow(t, i + 1);
        assert(t.subrange(0, i + 1).drop_last() =~= t.subrange(0, i));
    } else {
        assert(t.subrange(0, i) =~= t);
    }
}

/// Reads an unsigned decimal integer, as a JSON number's text writes one.
pub fn parse_decimal(t: &str) -> (r: Option<u64>)
    ensures
        r == decimal_u64(t@),
{
    let n = t.unicode_len();
    if n == 0 {
        return None;
    }
    let mut v: u64 = 0;
    let mut i: usize = 0;
    while i < n
        invariant
            n == t@.len(),
            i <= n,
            all_digits(t@.subrange(0, i as int)),
            v as nat == digits_value(t@.subrange(0, i as int)),
        decreases n - i,
    {
        let c = t.get_char(i);
        proof {
            assert(t@.subrange(0, i + 1).drop_last() =~= t@.subrange(0, i as int));
        }
        if !('0' <= c && c <= '9') {
            assert(!all_digits(t@));
            return None;
        }
        let d = (c as u32 - '0' as u32) as u64;
        if v > (u64::MAX - d) / 10 {
            proof {
                assert(all_digits(t@.subrange(0, i + 1)));
                if all_digits(t@) {
                    lemma_digits_grow(t@, i + 1);
                }
            }
            return None;
        }
        v = v * 10 + d;
        i = i + 1;
    }
    assert(t@.subrange(0, n as int) =~= t@);
    Some(v)
}

/// The `u32` that a JSON number's text writes, where there is one.
pub open spec fn decimal_u32(t: Seq<char>) -> Option<u32> {
    match decimal_u64(t) {
        Some(v) => if v <= u32::MAX {
            Some(v as u32)
        } else {
            None
        },
        None => None,
    }
}

/// The spec of `read_u32`.
pub open spec fn u32_field(record: Seq<(String, Json)>, name: &'static str) -> Result<
    u32,
    FieldError,
> {
    match lookup(record, name@) {
        None => Err(FieldError::Missing(name)),
        Some(Json::Number(t)) => match decimal_u32(t@) {
            Some(v) => Ok(v),
            None => Err(FieldError::WrongType(name)),
        },
        Some(_) => Err(FieldError::WrongType(name)),
    }
}

/// Reads a required unsigned integer field.
pub fn read_u32(record: &Vec<(String, Json)>, name: &'static str) -> (r: Result<u32, FieldError>)
    ensures
        r == u32_field(record@, name),
{
    match get_field(record, name) {
        None => Err(FieldError::Missing(name)),
        Some(Json::Number(t)) => match parse_decimal(t.as_str()) {
            Some(v) => if v <= u32::MAX as u64 {
                Ok(v as u32)
            } else {
                Err(FieldError::WrongType(name))
            },
            None => Err(FieldError::WrongType(name)),
        },
        Some(_) => Err(FieldError::WrongType(name)),
    }
}

/// The spec of `read_u64`.
pub open spec fn u64_field(record: Seq<(String, Json)>, name: &'static str) -> Result<
    u64,
    FieldError,
> {
    match lookup(record, name@) {
        None => Err(FieldError::Missing(name)),
        Some(Json::Number(t)) => match decimal_u64(t@) {
            Some(v) => Ok(v),
            None => Err(FieldError::WrongType(name)),
        },
        Some(_) => Err(FieldError::WrongType(name)),
    }
}

/// Reads a required unsigned integer field that may use all 64 bits.
pub fn read_u64(record: &Vec<(String, Json)>, name: &'static str) -> (r: Result<u64, FieldError>)
    ensures
        r == u64_field(record@, name),
{
    match get_field(record, name) {
        None => Err(FieldError::Missing(name)),
        Some(Json::Number(t)) => match parse_decimal(t.as_str()) {
            Some(v) => Ok(v),
            None => Err(FieldError::WrongType(name)),
        },
        Some(_) => Err(FieldError::WrongType(name)),
    }
}

/// The characters of a text read from a field.
pub open spec fn text_result(r: Result<String, FieldError>) -> Result<Seq<char>, FieldError> {
    match r {
        Ok(s) => Ok(s@),
        Err(e) => Err(e),
    }
}

/// The characters of an optional text read from a field.
pub open spec fn opt_text_result(r: Result<Option<String>, FieldError>) -> Result<
    Option<Seq<char>>,
    FieldError,
> {
    match r {
        Ok(Some(s)) => Ok(Some(s@)),
        Ok(None) => Ok(None),
        Err(e) => Err(e),
    }
}

/// The spec of `read_string`.
pub open spec fn string_field(record: Seq<(String, Json)>, name: &'static str) -> Result<
    Seq<char>,
    FieldError,
> {
    match lookup(record, name@) {
        None => Err(FieldError::Missing(name)),
        Some(Json::Str(s)) => Ok(s@),
        Some(_) => Err(FieldError::WrongType(name)),
    }
}

/// Reads a required text field.
pub fn read_string(record: &Vec<(String, Json)>, name: &'static str) -> (r: Result<
    String,
    FieldError,
>)
    ensures
        text_result(r) == string_field(record@, name),
{
    match get_field(record, name) {
        None => Err(FieldError::Missing(name)),
        Some(Json::Str(s)) => Ok(s.clone()),
        Some(_) => Err(FieldError::WrongType(name)),
    }
}

/// The spec of `read_opt_string`: absent and null are both no value.
pub open spec fn opt_string_field(record: Seq<(String, Json)>, name: &'static str) -> Result<
    Option<Seq<char>>,
    FieldError,
> {
    match lookup(record, name@) {
        None => Ok(None),
        Some(Json::Null) => Ok(None),
        Some(Json::Str(s)) => Ok(Some(s@)),
        Some(_) => Err(FieldError::WrongType(name)),
    }
}

/// Reads an optional text field.
pub fn read_opt_string(record: &Vec<(String, Json)>, name: &'static str) -> (r: Result<
    Option<String>,
    FieldError,
>)
    ensures
        opt_text_result(r) == opt_string_field(record@, name),
{
    match get_field(record, name) {
        None => Ok(None),
        Some(Json::Null) => Ok(None),
        Some(Json::Str(s)) => Ok(Some(s.clone())),
        Some(_) => Err(FieldError::WrongType(name)),
    }
}

/// The spec of `read_timestamp`.
pub open spec fn timestamp_field(record: Seq<(String, Json)>, name: &'static str) -> Result<
    DateTime,
    FieldError,
> {
    match lookup(record, name@) {
        None => Err(FieldError::Missing(name)),
        Some(Json::Str(s)) => match date_time_by(s@, TIMESTAMP_DESCRIPTION@) {
            Some(dt) => Ok(dt),
            None => Err(FieldError::BadTimestamp(name)),
        },
        Some(_) => Err(FieldError::WrongType(name)),
    }
}

/// Reads a required timestamp field.
pub fn read_timestamp(record: &Vec<(String, Json)>, name: &'static str) -> (r: Result<
    DateTime,
    FieldError,
>)
    ensures
        r == timestamp_field(record@, name),
{
    match get_field(record, name) {
        None => Err(FieldError::Missing(name)),
        Some(Json::Str(s)) => match parse_date_time(s.as_str(), TIMESTAMP_DESCRIPTION) {
            Some(dt) => Ok(dt),
            None => Err(FieldError::BadTimestamp(name)),
        },
        Some(_) => Err(FieldError::WrongType(name)),
    }
}

/// The spec of `read_opt_timestamp`: absent and null are both no value.
pub open spec fn opt_timestamp_field(record: Seq<(String, Json)>, name: &'static str) -> Result<
    Option<DateTime>,
    FieldError,
> {
    match lookup(record, name@) {
        None => Ok(None),
        Some(Json::Null) => Ok(None),
        Some(Json::Str(s)) => match date_time_by(s@, TIMESTAMP_DESCRIPTION@) {
            Some(dt) => Ok(Some(dt)),
            None => Err(FieldError::BadTimestamp(name)),
        },
        Some(_) => Err(FieldError::WrongType(name)),
    }
}

/// Reads an optional timestamp field.
pub fn read_opt_timestamp(record: &Vec<(String, Json)>, name: &'static str) -> (r: Result<
    Option<DateTime>,
    FieldError,
>)
    ensures
        r == opt_timestamp_field(record@, name),
{
    match get_field(record, name) {
        None => Ok(None),
        Some(Json::Null) => Ok(None),
        Some(Json::Str(s)) => match parse_date_time(s.as_str(), TIMESTAMP_DESCRIPTION) {
            Some(dt) => Ok(Some(dt)),
            None => Err(FieldError::BadTimestamp(name)),
        },
        Some(_) => Err(FieldError::WrongType(name)),
    }
}

/// The digits of an integer's text, without its sign.
pub open spec fn unsigned_part(t: Seq<char>) -> Seq<char> {
    if t.len() > 0 && t[0] == '-' {
        t.subrange(1, t.len() as int)
    } else {
        t
    }
}

/// Whether a JSON number's text writes an integer of any size, and if so
/// whether that integer is not zero.
pub open spec fn integer_nonzero(t: Seq<char>) -> Option<bool> {
    let d = unsigned_part(t);
    if d.len() > 0 && all_digits(d) {
        Some(exists|i: int| 0 <= i < d.len() && d[i] != '0')
    } else {
        None
    }
}

/// Tells whether a JSON number's text writes a nonzero integer.
pub fn parse_integer_flag(t: &str) -> (r: Option<bool>)
    ensures
        r == integer_nonzero(t@),
{
    let n = t.unicode_len();
    let start: usize = if n > 0 && t.get_char(0) == '-' {
        1
    } else {
        0
    };
    let ghost d = unsigned_part(t@);
    assert(d =~= t@.subrange(start as int, n as int));
    if start == n {
        return None;
    }
    let mut nonzero = false;
    let mut i: usize = start;
    while i < n
        invariant
            n == t@.len(),
            start <= i <= n,
            d == t@.subrange(start as int, n as int),
            d == unsigned_part(t@),
            forall|j: int| 0 <= j < i - start ==> is_digit(#[trigger] d[j]),
            nonzero == exists|j: int| 0 <= j < i - start && d[j] != '0',
        decreases n - i,
    {
        let c = t.get_char(i);
        assert(d[i - start] == c);
        if !('0' <= c && c <= '9') {
            assert(!is_digit(d[i - start]));
            assert(!all_digits(d));
            return None;
        }
        if c != '0' {
            nonzero = true;
        }
        i = i + 1;
    }
    Some(nonzero)
}

proof fn lemma_digits_zero(d: Seq<char>)
    requires
        all_digits(d),
    ensures
        (digits_value(d) == 0) <==> !(exists|i: int| 0 <= i < d.len() && d[i] != '0'),
    decreases d.len(),
{
    if d.len() > 0 {
        let p = d.drop_last();
        assert(all_digits(p)) by {
            assert forall|i: int| 0 <= i < p.len() implies is_digit(#[trigger] p[i]) by {
                assert(p[i] == d[i]);
            }
        }
        lemma_digits_zero(p);
        if exists|i: int| 0 <= i < p.len() && p[i] != '0' {
            let i = choose|i: int| 0 <= i < p.len() && p[i] != '0';
            assert(d[i] != '0');
        }
        if exists|i: int| 0 <= i < d.len() && d[i] != '0' {
            let i = choose|i: int| 0 <= i < d.len() && d[i] != '0';
            if i < p.len() {
                assert(p[i] == d[i]);
            }
        }
        assert(is_digit(d.last()));
    }
}

/// The spec of `u32_to_bool`: a number written as an integer flag, zero for
/// false and anything else for true; absent and null are false.
pub open spec fn flag_field(record: Seq<(String, Json)>, name: &'static str) -> Result<
    bool,
    FieldError,
> {
    match lookup(record, name@) {
        None => Ok(false),
        Some(Json::Null) => Ok(false),
        Some(Json::Number(t)) => match integer_nonzero(t@) {
            Some(b) => Ok(b),
            None => Err(FieldError::WrongType(name)),
        },
        Some(_) => Err(FieldError::WrongType(name)),
    }
}

/// Reads a field that the wire writes as a small integer and that means a
/// yes or no.
pub fn u32_to_bool(record: &Vec<(String, Json)>, name: &'static str) -> (r: Result<
    bool,
    FieldError,
>)
    ensures
        r == flag_field(record@, name),
{
    match get_field(record, name) {
        None => Ok(false),
        Some(Json::Null) => Ok(false),
        Some(Json::Number(t)) => match parse_integer_flag(t.as_str()) {
            Some(b) => Ok(b),
            None => Err(FieldError::WrongType(name)),
        },
        Some(_) => Err(FieldError::WrongType(name)),
    }
}

/// An integer flag is false where the wire writes 0 (or -0), true where it
/// writes any other integer, of either sign, and false where the field is
/// absent.
pub proof fn law_flag_values(record: Seq<(String, Json)>, name: &'static str)
    ensures
        lookup(record, name@) is None ==> flag_field(record, name) == Ok::<bool, FieldError>(false),
        match lookup(record, name@) {
            Some(Json::Number(t)) => unsigned_part(t@).len() > 0 && all_digits(unsigned_part(t@))
                ==> flag_field(record, name) == Ok::<bool, FieldError>(
                digits_value(unsigned_part(t@)) != 0,
            ),
            _ => true,
        },
{
    if lookup(record, name@) matches Some(Json::Number(t)) && unsigned_part(t@).len() > 0
        && all_digits(unsigned_part(t@)) {
        lemma_digits_zero(unsigned_part(lookup(record, name@)->0->Number_0@));
    }
}

} // verus!
