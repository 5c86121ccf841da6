//! A plain model of the JSON documents the provider sends back.
//!
//! The transport layer parses the wire text and hands the library one of
//! these values; the library's field extraction and normalization is then
//! fully verified. Numbers that do not fit an `i64` arrive as `Other`, which
//! extraction treats the same as an absent field.
use vstd::prelude::*;

verus! {

/// A JSON document as plain values. Object keys are kept in document order
/// and lookups take the first match.
pub enum JsonValue {
    Null,
    Bool(bool),
    Int(i64),
    Str(String),
    Array(Vec<JsonValue>),
    Object(Vec<(String, JsonValue)>),
    /// A number that does not fit an `i64`, or any other node the model does
    /// not carry; field extraction treats it as absent.
    Other,
}

/// The first value bound to `key` among the entries, if any.
pub open spec fn spec_entries_get(entries: Seq<(String, JsonValue)>, key: Seq<char>) -> Option<
    JsonValue,
>
    decreases entries.len(),
{
    if entries.len() == 0 {
        None
    } else if entries[0].0@ == key {
        Some(entries[0].1)
    } else {
        spec_entries_get(entries.skip(1), key)
    }
}

/// The value bound to `key` when the node is an object holding it.
pub open spec fn spec_get(v: JsonValue, key: Seq<char>) -> Option<JsonValue> {
    match v {
        JsonValue::Object(entries) => spec_entries_get(entries@, key),
        _ => None,
    }
}

/// The integer bound to `key`, when present and integral.
pub open spec fn spec_get_i64(v: JsonValue, key: Seq<char>) -> Option<i64> {
    match spec_get(v, key) {
        Some(JsonValue::Int(n)) => Some(n),
        _ => None,
    }
}

/// The string bound to `key`, when present and a string.
pub open spec fn spec_get_str(v: JsonValue, key: Seq<char>) -> Option<Seq<char>> {
    match spec_get(v, key) {
        Some(JsonValue::Str(s)) => Some(s@),
        _ => None,
    }
}

/// The object bound to `key`, when present and an object.
pub open spec fn spec_get_object(v: JsonValue, key: Seq<char>) -> Option<JsonValue> {
    match spec_get(v, key) {
        Some(o) => if o is Object {
            Some(o)
        } else {
            None
        },
        _ => None,
    }
}

impl JsonValue {
    /// Looks `key` up when `self` is an object; `None` on any other node.
    pub fn get<'a>(&'a self, key: &str) -> (r: Option<&'a JsonValue>)
        ensures
            match r {
                Some(v) => spec_get(*self, key@) == Some(*v),
                None => spec_get(*self, key@) is None,
            },
    {
        match self {
            JsonValue::Object(entries) => {
                let n = entries.len();
                let mut i: usize = 0;
                proof {
                    assert(entries@.skip(0) =~= entries@);
                }
                while i < n
                    invariant
                        n == entries.len(),
                        i <= n,
                        spec_get(*self, key@) == spec_entries_get(entries@, key@),
                        spec_entries_get(entries@, key@) == spec_entries_get(
                            entries@.skip(i as int),
                            key@,
                        ),
                    decreases n - i,
                {
                    proof {
                        assert(entries@.skip(i as int)[0] == entries@[i as int]);
                    }
                    if crate::ident::str_eq(entries[i].0.as_str(), key) {
                        proof {
                            assert(spec_entries_get(entries@.skip(i as int), key@) == Some(
                                entries@[i as int].1,
                            ));
                        }
                        return Some(&entries[i].1);
                    }
                    proof {
                        assert(entries@.skip(i as int).skip(1) =~= entries@.skip(i as int + 1));
                    }
                    i = i + 1;
                }
                proof {
                    assert(entries@.skip(n as int).len() == 0);
                }
                None
            },
            _ => None,
        }
    }

    /// The integer bound to `key`, when present and integral.
    pub fn get_i64(&self, key: &str) -> (r: Option<i64>)
        ensures
            r == spec_get_i64(*self, key@),
    {
        match self.get(key) {
            Some(v) => match v {
                JsonValue::Int(n) => Some(*n),
                _ => None,
            },
            None => None,
        }
    }

    /// An owned copy of the string bound to `key`, when present and a string.
    pub fn get_string(&self, key: &str) -> (r: Option<String>)
        ensures
            r.deep_view() == spec_get_str(*self, key@),
    {
        match self.get(key) {
            Some(v) => match v {
                JsonValue::Str(s) => Some(s.clone()),
                _ => None,
            },
            None => None,
        }
    }

    /// The object bound to `key`, when present and an object.
    pub fn get_object<'a>(&'a self, key: &str) -> (r: Option<&'a JsonValue>)
        ensures
            match r {
                Some(v) => spec_get_object(*self, key@) == Some(*v),
                None => spec_get_object(*self, key@) is None,
            },
    {
        match self.get(key) {
            Some(v) => match v {
                JsonValue::Object(_) => Some(v),
                _ => None,
            },
            None => None,
        }
    }
}

} // verus!
