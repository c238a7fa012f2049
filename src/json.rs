use vstd::prelude::*;

verus! {

/// A JSON value held as plain data. A number keeps the decimal text that the
/// parser wrote for it, so that it is carried through unchanged.
#[derive(Debug, PartialEq)]
pub enum Json {
    Null,
    Bool(bool),
    Number(String),
    Str(String),
    Array(Vec<Json>),
    Object(Vec<(String, Json)>),
}

/// serde_json's parsed value, which only passes through the conversion below.
#[verifier::external_type_specification]
#[verifier::external_body]
pub struct ExJsonValue(serde_json::Value);

/// serde_json's error, which callers turn into `LegistarError::InvalidJson`.
#[verifier::external_type_specification]
#[verifier::external_body]
pub struct ExJsonError(serde_json::Error);

/// The value that serde_json reads from a text, or `None` where serde_json
/// refuses the text.
pub uninterp spec fn json_of_text(text: Seq<char>) -> Option<Json>;

/// Moves a value parsed by serde_json into a `Json`, variant for variant; a
/// number becomes the text that serde_json writes for it.
#[verifier::external_body]
fn from_serde(v: serde_json::Value) -> Json {
    match v {
        serde_json::Value::Null => Json::Null,
        serde_json::Value::Bool(b) => Json::Bool(b),
        serde_json::Value::Number(n) => Json::Number(n.to_string()),
        serde_json::Value::String(s) => Json::Str(s),
        serde_json::Value::Array(a) => Json::Array(a.into_iter().map(from_serde).collect()),
        serde_json::Value::Object(o) => Json::Object(
            o.into_iter().map(|(k, x)| (k, from_serde(x))).collect(),
        ),
    }
}

/// Relies on serde_json::from_str into serde_json::Value: whether it succeeds,
/// and the value, depend on the text alone.
#[verifier::external_body]
pub(crate) fn parse_json(text: &str) -> (r: Result<Json, serde_json::Error>)
    ensures
        r is Ok <==> json_of_text(text@) is Some,
        r matches Ok(j) ==> json_of_text(text@) == Some(j),
{
    serde_json::from_str::<serde_json::Value>(text).map(from_serde)
}

/// The value of the last entry whose key is `k`, the one a map built from the
/// entries in order keeps.
pub open spec fn lookup(s: Seq<(String, Json)>, k: Seq<char>) -> Option<Json>
    decreases s.len(),
{
    if s.len() == 0 {
        None
    } else if s.last().0@ == k {
        Some(s.last().1)
    } else {
        lookup(s.drop_last(), k)
    }
}

/// The entries whose key does not satisfy `named`, in their order.
pub open spec fn without(s: Seq<(String, Json)>, named: spec_fn(Seq<char>) -> bool) -> Seq<
    (String, Json),
>
    decreases s.len(),
{
    if s.len() == 0 {
        Seq::empty()
    } else if named(s.last().0@) {
        without(s.drop_last(), named)
    } else {
        without(s.drop_last(), named).push(s.last())
    }
}

/// Removing the named entries leaves every other key's value as it was, and
/// no named key behind.
pub proof fn lemma_lookup_without(
    s: Seq<(String, Json)>,
    named: spec_fn(Seq<char>) -> bool,
    k: Seq<char>,
)
    ensures
        lookup(without(s, named), k) == if named(k) {
            None
        } else {
            lookup(s, k)
        },
    decreases s.len(),
{
    if s.len() > 0 {
        lemma_lookup_without(s.drop_last(), named, k);
        if !named(s.last().0@) {
            assert(without(s, named).drop_last() =~= without(s.drop_last(), named));
        }
    }
}

/// No entry that is left has a named key.
pub proof fn lemma_without_excludes(s: Seq<(String, Json)>, named: spec_fn(Seq<char>) -> bool)
    ensures
        forall|i: int|
            0 <= i < without(s, named).len() ==> !named(#[trigger] without(s, named)[i].0@),
    decreases s.len(),
{
    if s.len() > 0 {
        lemma_without_excludes(s.drop_last(), named);
        let w = without(s.drop_last(), named);
        if !named(s.last().0@) {
            assert forall|i: int| 0 <= i < w.push(s.last()).len() implies !named(
                #[trigger] w.push(s.last())[i].0@,
            ) by {
                if i < w.len() {
                    assert(w.push(s.last())[i] == w[i]);
                }
            }
        }
    }
}

/// No two entries share a key, as in a map.
pub open spec fn keys_distinct(s: Seq<(String, Json)>) -> bool {
    forall|i: int, j: int| 0 <= i < j < s.len() ==> (#[trigger] s[i]).0@ != (#[trigger] s[j]).0@
}

/// Every entry that is left is an entry of `s`, and removing entries from a
/// map leaves a map.
pub proof fn lemma_without_distinct(s: Seq<(String, Json)>, named: spec_fn(Seq<char>) -> bool)
    ensures
        forall|i: int|
            0 <= i < without(s, named).len() ==> exists|j: int|
                0 <= j < s.len() && #[trigger] without(s, named)[i] == s[j],
        keys_distinct(s) ==> keys_distinct(without(s, named)),
    decreases s.len(),
{
    if s.len() > 0 {
        let p = s.drop_last();
        let w = without(p, named);
        lemma_without_distinct(p, named);
        assert forall|i: int| 0 <= i < w.len() implies exists|j: int|
            0 <= j < s.len() && #[trigger] w[i] == s[j] by {
            let j = choose|j: int| 0 <= j < p.len() && w[i] == p[j];
            assert(s[j] == p[j]);
        }
        if !named(s.last().0@) {
            let w2 = w.push(s.last());
            assert forall|i: int| 0 <= i < w2.len() implies exists|j: int|
                0 <= j < s.len() && #[trigger] w2[i] == s[j] by {
                if i < w.len() {
                    assert(w2[i] == w[i]);
                } else {
                    assert(w2[i] == s[s.len() - 1]);
                }
            }
            if keys_distinct(s) {
                assert(keys_distinct(p)) by {
                    assert forall|i: int, j: int| 0 <= i < j < p.len() implies (#[trigger] p[i]).0@
                        != (#[trigger] p[j]).0@ by {
                        assert(p[i] == s[i] && p[j] == s[j]);
                    }
                }
                assert forall|i: int, j: int| 0 <= i < j < w2.len() implies (#[trigger] w2[i]).0@
                    != (#[trigger] w2[j]).0@ by {
                    if j < w.len() {
                        assert(w2[i] == w[i] && w2[j] == w[j]);
                    } else {
                        assert(w2[i] == w[i]);
                        let k = choose|k: int| 0 <= k < p.len() && w[i] == p[k];
                        assert(s[k] == p[k]);
                        assert(w2[j] == s[s.len() - 1]);
                    }
                }
            }
        } else if keys_distinct(s) {
            assert(keys_distinct(p)) by {
                assert forall|i: int, j: int| 0 <= i < j < p.len() implies (#[trigger] p[i]).0@
                    != (#[trigger] p[j]).0@ by {
                    assert(p[i] == s[i] && p[j] == s[j]);
                }
            }
        }
    }
}

/// Index of the last entry whose key is `key`.
pub fn find_key(entries: &Vec<(String, Json)>, key: &str) -> (r: Option<usize>)
    ensures
        match r {
            Some(i) => i < entries@.len() && entries@[i as int].0@ == key@ && lookup(
                entries@,
                key@,
            ) == Some(entries@[i as int].1),
            None => lookup(entries@, key@) is None,
        },
{
    let k = key.to_owned();
    let mut i: usize = entries.len();
    assert(entries@.subrange(0, i as int) =~= entries@);
    while i > 0
        invariant
            i <= entries@.len(),
            k@ == key@,
            lookup(entries@, key@) == lookup(entries@.subrange(0, i as int), key@),
        decreases i,
    {
        let j = i - 1;
        assert(entries@.subrange(0, i as int).drop_last() =~= entries@.subrange(0, j as int));
        if entries[j].0 == k {
            return Some(j);
        }
        i = j;
    }
    None
}

/// The value of the field `key`, if there is one.
pub fn get_field<'a>(entries: &'a Vec<(String, Json)>, key: &str) -> (r: Option<&'a Json>)
    ensures
        r matches Some(v) ==> lookup(entries@, key@) == Some(*v),
        r is None ==> lookup(entries@, key@) is None,
{
    match find_key(entries, key) {
        Some(i) => Some(&entries[i].1),
        None => None,
    }
}

/// The key predicate that holds of `key` alone.
pub open spec fn is_key(key: Seq<char>) -> spec_fn(Seq<char>) -> bool {
    |k: Seq<char>| k == key
}

/// The key predicate that holds of the texts in `names`.
pub open spec fn in_names(names: Seq<&str>) -> spec_fn(Seq<char>) -> bool {
    |k: Seq<char>| exists|i: int| 0 <= i < names.len() && names[i]@ == k
}

fn is_named(names: &[&str], k: &String) -> (r: bool)
    ensures
        r == in_names(names@)(k@),
{
    let mut i: usize = 0;
    while i < names.len()
        invariant
            i <= names@.len(),
            forall|j: int| 0 <= j < i ==> names@[j]@ != k@,
        decreases names@.len() - i,
    {
        if names[i].to_owned() == *k {
            return true;
        }
        i = i + 1;
    }
    false
}

proof fn lemma_without_step(
    s: Seq<(String, Json)>,
    named: spec_fn(Seq<char>) -> bool,
    i: int,
)
    requires
        0 <= i < s.len(),
    ensures
        without(s.subrange(0, i + 1), named) == if named(s[i].0@) {
            without(s.subrange(0, i), named)
        } else {
            without(s.subrange(0, i), named).push(s[i])
        },
        lookup(s.subrange(0, i + 1), s[i].0@) == Some(s[i].1),
{
    assert(s.subrange(0, i + 1).drop_last() =~= s.subrange(0, i));
}

/// The entries whose key is not one of `names`, in their order: what is left
/// of a record once its named fields are bound.
pub fn residual(record: Vec<(String, Json)>, names: &[&str]) -> (r: Vec<(String, Json)>)
    ensures
        r@ == without(record@, in_names(names@)),
{
    let ghost orig = record@;
    let mut entries = record;
    let mut rest: Vec<(String, Json)> = Vec::new();
    let n: usize = entries.len();
    let mut i: usize = 0;
    while entries.len() > 0
        invariant
            orig.len() == n,
            i + entries@.len() == orig.len(),
            entries@ == orig.subrange(i as int, orig.len() as int),
            rest@ == without(orig.subrange(0, i as int), in_names(names@)),
        decreases entries@.len(),
    {
        let e = entries.remove(0);
        proof {
            lemma_without_step(orig, in_names(names@), i as int);
        }
        if !is_named(names, &e.0) {
            rest.push(e);
        }
        i = i + 1;
        assert(entries@ =~= orig.subrange(i as int, orig.len() as int));
    }
    assert(orig.subrange(0, i as int) =~= orig);
    rest
}

/// Removes every entry whose key is `key`, and hands back the value that
/// `lookup` gave for it.
pub fn remove_key(entries: &mut Vec<(String, Json)>, key: &str) -> (r: Option<Json>)
    ensures
        r == lookup(old(entries)@, key@),
        final(entries)@ == without(old(entries)@, is_key(key@)),
{
    let ghost orig = entries@;
    let k = key.to_owned();
    let mut rest: Vec<(String, Json)> = Vec::new();
    let mut found: Option<Json> = None;
    let n: usize = entries.len();
    let mut i: usize = 0;
    while entries.len() > 0
        invariant
            orig.len() == n,
            k@ == key@,
            i + entries@.len() == orig.len(),
            entries@ == orig.subrange(i as int, orig.len() as int),
            rest@ == without(orig.subrange(0, i as int), is_key(key@)),
            found == lookup(orig.subrange(0, i as int), key@),
        decreases entries@.len(),
    {
        let e = entries.remove(0);
        proof {
            lemma_without_step(orig, is_key(key@), i as int);
            assert(orig.subrange(0, i + 1).drop_last() =~= orig.subrange(0, i as int));
        }
        if e.0 == k {
            found = Some(e.1);
        } else {
            rest.push(e);
        }
        i = i + 1;
        assert(entries@ =~= orig.subrange(i as int, orig.len() as int));
    }
    assert(orig.subrange(0, i as int) =~= orig);
    *entries = rest;
    found
}

} // verus!
