use crate::text::same_text;
use vstd::prelude::*;

verus! {

/// A JSON document as the logic reads it. Numbers keep what `as_u64` can see: a
/// non-negative integer, a negative integer, or a number with a fraction or exponent.
/// An object keeps its members in order, each name once.
pub enum Json {
    Null,
    Bool(bool),
    PosInt(u64),
    NegInt(i64),
    Float,
    Str(String),
    Array(Vec<Json>),
    Object(Vec<(String, Json)>),
}

/// The value of the first member named `key`.
pub open spec fn entry_lookup(entries: Seq<(String, Json)>, key: Seq<char>) -> Option<Json>
    decreases entries.len(),
{
    if entries.len() == 0 {
        None
    } else if entries[0].0@ == key {
        Some(entries[0].1)
    } else {
        entry_lookup(entries.drop_first(), key)
    }
}

/// The member `key` of an object; nothing for a missing member, a value that is not an
/// object, or no value (as indexing a `serde_json::Value` yields `null`).
pub open spec fn member(v: Option<Json>, key: Seq<char>) -> Option<Json> {
    match v {
        Some(Json::Object(entries)) => entry_lookup(entries@, key),
        _ => None,
    }
}

/// The value as a boolean, if it is one.
pub open spec fn as_bool(v: Option<Json>) -> Option<bool> {
    match v {
        Some(Json::Bool(b)) => Some(b),
        _ => None,
    }
}

/// The value as a `u64`, if it is a non-negative integer.
pub open spec fn as_u64(v: Option<Json>) -> Option<u64> {
    match v {
        Some(Json::PosInt(n)) => Some(n),
        _ => None,
    }
}

/// The value as text, if it is a string.
pub open spec fn as_text(v: Option<Json>) -> Option<Seq<char>> {
    match v {
        Some(Json::Str(s)) => Some(s@),
        _ => None,
    }
}

/// The value's elements, if it is an array.
pub open spec fn as_array(v: Option<Json>) -> Option<Seq<Json>> {
    match v {
        Some(Json::Array(a)) => Some(a@),
        _ => None,
    }
}

/// A borrowed optional value, taken by value.
pub open spec fn deref_opt(v: Option<&Json>) -> Option<Json> {
    match v {
        Some(r) => Some(*r),
        None => None,
    }
}

proof fn lemma_lookup_skip(entries: Seq<(String, Json)>, key: Seq<char>, i: int)
    requires
        0 <= i <= entries.len(),
        forall|j: int| 0 <= j < i ==> entries[j].0@ != key,
    ensures
        entry_lookup(entries, key) == entry_lookup(entries.skip(i), key),
    decreases i,
{
    if i == 0 {
        assert(entries.skip(0) =~= entries);
    } else {
        let rest = entries.drop_first();
        assert forall|j: int| 0 <= j < i - 1 implies rest[j].0@ != key by {
            assert(rest[j] == entries[j + 1]);
        }
        lemma_lookup_skip(rest, key, i - 1);
        assert(rest.skip(i - 1) =~= entries.skip(i));
    }
}

/// The member `key` of an object, as `value[key]` reads it.
pub fn get_member<'a>(v: Option<&'a Json>, key: &str) -> (res: Option<&'a Json>)
    ensures
        deref_opt(res) == member(deref_opt(v), key@),
{
    match v {
        Some(Json::Object(entries)) => {
            let mut i: usize = 0;
            while i < entries.len()
                invariant
                    i <= entries.len(),
                    deref_opt(v) == Some(Json::Object(*entries)),
                    forall|j: int| 0 <= j < i ==> entries@[j].0@ != key@,
                decreases entries.len() - i,
            {
                let entry = &entries[i];
                if same_text(entry.0.as_str(), key) {
                    proof {
                        lemma_lookup_skip(entries@, key@, i as int);
                        assert(entries@.skip(i as int)[0] == entries@[i as int]);
                    }
                    return Some(&entry.1);
                }
                i = i + 1;
            }
            proof {
                lemma_lookup_skip(entries@, key@, i as int);
                assert(entries@.skip(i as int).len() == 0);
            }
            None
        },
        _ => None,
    }
}

/// The value as a boolean, if it is one.
pub fn get_bool(v: Option<&Json>) -> (res: Option<bool>)
    ensures
        res == as_bool(deref_opt(v)),
{
    match v {
        Some(Json::Bool(b)) => Some(*b),
        _ => None,
    }
}

/// The value as a `u64`, if it is a non-negative integer.
pub fn get_u64(v: Option<&Json>) -> (res: Option<u64>)
    ensures
        res == as_u64(deref_opt(v)),
{
    match v {
        Some(Json::PosInt(n)) => Some(*n),
        _ => None,
    }
}

/// The value as text, if it is a string.
pub fn get_text<'a>(v: Option<&'a Json>) -> (res: Option<&'a str>)
    ensures
        match res {
            Some(s) => as_text(deref_opt(v)) == Some(s@),
            None => as_text(deref_opt(v)) is None,
        },
{
    match v {
        Some(Json::Str(s)) => Some(s.as_str()),
        _ => None,
    }
}

/// The value's elements, if it is an array.
pub fn get_array<'a>(v: Option<&'a Json>) -> (res: Option<&'a Vec<Json>>)
    ensures
        match res {
            Some(a) => as_array(deref_opt(v)) == Some(a@),
            None => as_array(deref_opt(v)) is None,
        },
{
    match v {
        Some(Json::Array(a)) => Some(a),
        _ => None,
    }
}

} // verus!
