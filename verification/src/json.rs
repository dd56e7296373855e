//! The input data model.
//!
//! Import payloads arrive as JSON. The library works on this plain-value
//! tree: objects are field lists, numbers carry their unsigned 64-bit value
//! when they have one, and everything the import pipeline reads is stated
//! over the spec accessors below. The surrounding application converts its
//! parsed JSON into this form.

use vstd::prelude::*;

use crate::text::str_eq;

verus! {

/// One JSON value.
#[derive(Debug)]
pub enum JsonValue {
    /// JSON `null`.
    Null,
    /// A boolean.
    Bool(bool),
    /// A number: its unsigned 64-bit value, or nothing when the number does
    /// not fit one (negative or fractional).
    Num(Option<u64>),
    /// A string.
    Text(String),
    /// An array.
    Arr(Vec<JsonValue>),
    /// An object: its fields in order, with unique keys.
    Obj(Vec<JsonField>),
}

/// One field of a JSON object.
#[derive(Debug)]
pub struct JsonField {
    /// Field name.
    pub key: String,
    /// Field value.
    pub value: JsonValue,
}

/// The value under the first field with the given key, if any.
pub open spec fn spec_lookup(fields: Seq<JsonField>, key: Seq<char>) -> Option<JsonValue>
    decreases fields.len(),
{
    if fields.len() == 0 {
        None
    } else if fields[0].key@ == key {
        Some(fields[0].value)
    } else {
        spec_lookup(fields.drop_first(), key)
    }
}

/// Object field access: the value under `key` when `v` is an object with
/// such a field.
pub open spec fn spec_get(v: JsonValue, key: Seq<char>) -> Option<JsonValue> {
    match v {
        JsonValue::Obj(fields) => spec_lookup(fields@, key),
        _ => None,
    }
}

/// The characters of `v` when it is a string.
pub open spec fn spec_as_str(v: JsonValue) -> Option<Seq<char>> {
    match v {
        JsonValue::Text(s) => Some(s@),
        _ => None,
    }
}

/// The unsigned 64-bit value of `v` when it is a number with one.
pub open spec fn spec_as_u64(v: JsonValue) -> Option<u64> {
    match v {
        JsonValue::Num(n) => n,
        _ => None,
    }
}

/// String field access: `spec_get` followed by `spec_as_str`.
pub open spec fn spec_get_str(v: JsonValue, key: Seq<char>) -> Option<Seq<char>> {
    match spec_get(v, key) {
        Some(x) => spec_as_str(x),
        None => None,
    }
}

/// Numeric field access: `spec_get` followed by `spec_as_u64`.
pub open spec fn spec_get_u64(v: JsonValue, key: Seq<char>) -> Option<u64> {
    match spec_get(v, key) {
        Some(x) => spec_as_u64(x),
        None => None,
    }
}

impl JsonValue {
    /// Looks up a field of an object; `None` on any other value or when the
    /// key is absent.
    #[verifier::loop_isolation(false)]
    pub fn get(&self, key: &str) -> (r: Option<&JsonValue>)
        ensures
            match r {
                Some(x) => spec_get(*self, key@) == Some(*x),
                None => spec_get(*self, key@) is None,
            },
    {
        match self {
            JsonValue::Obj(fields) => {
                let n: usize = fields.len();
                let mut i: usize = 0;
                proof {
                    assert(fields@.skip(0) =~= fields@);
                }
                while i < n
                    invariant
                        i <= n,
                        n == fields@.len(),
                        spec_lookup(fields@, key@) == spec_lookup(
                            fields@.skip(i as int),
                            key@,
                        ),
                    decreases n - i,
                {
                    let pair = &fields[i];
                    if str_eq(pair.key.as_str(), key) {
                        proof {
                            let t = fields@.skip(i as int);
                            assert(t[0] == fields@[i as int]);
                            assert(t.len() > 0);
                            assert(spec_lookup(t, key@) == Some(t[0].value));
                        }
                        return Some(&fields[i].value);
                    }
                    proof {
                        assert(fields@.skip(i as int).drop_first() =~= fields@.skip(
                            i as int + 1,
                        ));
                    }
                    i = i + 1;
                }
                None
            },
            _ => None,
        }
    }

    /// The string slice inside a text value.
    pub fn as_str(&self) -> (r: Option<&str>)
        ensures
            match r {
                Some(s) => spec_as_str(*self) == Some(s@),
                None => spec_as_str(*self) is None,
            },
    {
        match self {
            JsonValue::Text(s) => Some(s.as_str()),
            _ => None,
        }
    }

    /// The unsigned 64-bit value inside a numeric value.
    pub fn as_u64(&self) -> (r: Option<u64>)
        ensures
            r == spec_as_u64(*self),
    {
        match self {
            JsonValue::Num(n) => *n,
            _ => None,
        }
    }

    /// The elements of an array value.
    pub fn as_array(&self) -> (r: Option<&Vec<JsonValue>>)
        ensures
            match r {
                Some(a) => *self matches JsonValue::Arr(x) && x == *a,
                None => !(*self matches JsonValue::Arr(_)),
            },
    {
        match self {
            JsonValue::Arr(items) => Some(items),
            _ => None,
        }
    }

    /// Whether this value is an object.
    pub fn is_object(&self) -> (r: bool)
        ensures
            r == (*self matches JsonValue::Obj(_)),
    {
        match self {
            JsonValue::Obj(_) => true,
            _ => false,
        }
    }

    /// Whether this value is an array.
    pub fn is_array(&self) -> (r: bool)
        ensures
            r == (*self matches JsonValue::Arr(_)),
    {
        match self {
            JsonValue::Arr(_) => true,
            _ => false,
        }
    }

    /// Field lookup followed by string access.
    pub fn get_str(&self, key: &str) -> (r: Option<&str>)
        ensures
            match r {
                Some(s) => spec_get_str(*self, key@) == Some(s@),
                None => spec_get_str(*self, key@) is None,
            },
    {
        match self.get(key) {
            Some(v) => v.as_str(),
            None => None,
        }
    }

    /// Field lookup followed by numeric access.
    pub fn get_u64(&self, key: &str) -> (r: Option<u64>)
        ensures
            r == spec_get_u64(*self, key@),
    {
        match self.get(key) {
            Some(v) => v.as_u64(),
            None => None,
        }
    }
}

} // verus!
