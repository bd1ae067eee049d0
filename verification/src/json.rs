//! A JSON document as the client's REST and event APIs deliver it.
//!
//! Numbers keep the three forms a JSON reader distinguishes: non-negative
//! integers, negative integers and non-integral numbers (whose value the
//! logic here never reads). Objects keep their members in order; a lookup
//! returns the first member with the key.
use vstd::prelude::*;
use crate::text::str_eq;

verus! {

/// A JSON number.
#[derive(Debug, PartialEq)]
pub enum JsonNumber {
    /// An integer at or above zero.
    PosInt(u64),
    /// An integer below zero.
    NegInt(i64),
    /// A number with a fraction or exponent.
    Float,
}

/// A JSON value.
#[derive(Debug, PartialEq)]
pub enum Json {
    Null,
    Bool(bool),
    Number(JsonNumber),
    Str(String),
    Array(Vec<Json>),
    Object(Vec<(String, Json)>),
}

/// The first member of `es` whose key is `key`.
pub open spec fn members_get(es: Seq<(String, Json)>, key: Seq<char>) -> Option<Json>
    decreases es.len(),
{
    if es.len() == 0 {
        None
    } else if es[0].0@ == key {
        Some(es[0].1)
    } else {
        members_get(es.drop_first(), key)
    }
}

/// The member `key` of an object; nothing for other values.
pub open spec fn jget(j: Json, key: Seq<char>) -> Option<Json> {
    match j {
        Json::Object(es) => members_get(es@, key),
        _ => None,
    }
}

/// The value as a signed 64-bit integer, where it is an integer in range.
pub open spec fn as_i64_of(j: Json) -> Option<i64> {
    match j {
        Json::Number(JsonNumber::PosInt(n)) => if n <= i64::MAX as u64 { Some(n as i64) } else { None },
        Json::Number(JsonNumber::NegInt(n)) => Some(n),
        _ => None,
    }
}

/// The value as an unsigned 64-bit integer, where it is a non-negative integer.
pub open spec fn as_u64_of(j: Json) -> Option<u64> {
    match j {
        Json::Number(JsonNumber::PosInt(n)) => Some(n),
        _ => None,
    }
}

/// The characters of a string value.
pub open spec fn as_str_of(j: Json) -> Option<Seq<char>> {
    match j {
        Json::Str(s) => Some(s@),
        _ => None,
    }
}

/// A boolean value.
pub open spec fn as_bool_of(j: Json) -> Option<bool> {
    match j {
        Json::Bool(b) => Some(b),
        _ => None,
    }
}

/// The elements of an array value.
pub open spec fn as_array_of(j: Json) -> Option<Seq<Json>> {
    match j {
        Json::Array(v) => Some(v@),
        _ => None,
    }
}

/// `j.get(key).and_then(as_i64)`.
pub open spec fn get_i64(j: Json, key: Seq<char>) -> Option<i64> {
    match jget(j, key) {
        Some(v) => as_i64_of(v),
        None => None,
    }
}

/// `j.get(key).and_then(as_u64)`.
pub open spec fn get_u64(j: Json, key: Seq<char>) -> Option<u64> {
    match jget(j, key) {
        Some(v) => as_u64_of(v),
        None => None,
    }
}

/// `j.get(key).and_then(as_str)`.
pub open spec fn get_str(j: Json, key: Seq<char>) -> Option<Seq<char>> {
    match jget(j, key) {
        Some(v) => as_str_of(v),
        None => None,
    }
}

/// `j.get(key).and_then(as_bool)`.
pub open spec fn get_bool(j: Json, key: Seq<char>) -> Option<bool> {
    match jget(j, key) {
        Some(v) => as_bool_of(v),
        None => None,
    }
}

/// `j.get(key).and_then(as_array)`.
pub open spec fn get_array(j: Json, key: Seq<char>) -> Option<Seq<Json>> {
    match jget(j, key) {
        Some(v) => as_array_of(v),
        None => None,
    }
}

/// An integer member, zero where it is missing or not an integer.
pub open spec fn get_i64_or_zero(j: Json, key: Seq<char>) -> i64 {
    match get_i64(j, key) {
        Some(n) => n,
        None => 0,
    }
}

/// A boolean member, `false` where it is missing or not a boolean.
pub open spec fn get_bool_or_false(j: Json, key: Seq<char>) -> bool {
    match get_bool(j, key) {
        Some(b) => b,
        None => false,
    }
}

/// Whether a string member is present and equal to `lit`.
pub open spec fn str_member_is(j: Json, key: Seq<char>, lit: Seq<char>) -> bool {
    get_str(j, key) == Some(lit)
}

impl Json {
    /// The member `key` of an object.
    pub fn get(&self, key: &str) -> (r: Option<&Json>)
        ensures
            match r {
                Some(v) => jget(*self, key@) == Some(*v),
                None => jget(*self, key@) is None,
            },
    {
        match self {
            Json::Object(es) => {
                let mut i: usize = 0;
                proof {
                    assert(jget(*self, key@) == members_get(es@, key@));
                    assert(es@.skip(0) =~= es@);
                }
                while i < es.len()
                    invariant
                        0 <= i <= es.len(),
                        jget(*self, key@) == members_get(es@, key@),
                        members_get(es@, key@) == members_get(es@.skip(i as int), key@),
                    decreases es.len() - i,
                {
                    proof {
                        assert(es@.skip(i as int).drop_first() =~= es@.skip(i as int + 1));
                        assert(es@.skip(i as int)[0] == es@[i as int]);
                    }
                    if str_eq(es[i].0.as_str(), key) {
                        proof {
                            assert(es@[i as int].0@ == key@);
                            assert(members_get(es@.skip(i as int), key@) == Some(es@[i as int].1));
                        }
                        return Some(&es[i].1);
                    }
                    i = i + 1;
                }
                proof {
                    assert(es@.skip(i as int).len() == 0);
                }
                None
            },
            _ => None,
        }
    }

    /// The value as a signed 64-bit integer.
    pub fn as_i64(&self) -> (r: Option<i64>)
        ensures
            r == as_i64_of(*self),
    {
        match self {
            Json::Number(JsonNumber::PosInt(n)) => {
                if *n <= 9223372036854775807u64 {
                    Some(*n as i64)
                } else {
                    None
                }
            },
            Json::Number(JsonNumber::NegInt(n)) => Some(*n),
            _ => None,
        }
    }

    /// The value as an unsigned 64-bit integer.
    pub fn as_u64(&self) -> (r: Option<u64>)
        ensures
            r == as_u64_of(*self),
    {
        match self {
            Json::Number(JsonNumber::PosInt(n)) => Some(*n),
            _ => None,
        }
    }

    /// The value as a string slice.
    pub fn as_str(&self) -> (r: Option<&str>)
        ensures
            match r {
                Some(s) => as_str_of(*self) == Some(s@),
                None => as_str_of(*self) is None,
            },
    {
        match self {
            Json::Str(s) => Some(s.as_str()),
            _ => None,
        }
    }

    /// The value as a boolean.
    pub fn as_bool(&self) -> (r: Option<bool>)
        ensures
            r == as_bool_of(*self),
    {
        match self {
            Json::Bool(b) => Some(*b),
            _ => None,
        }
    }

    /// The elements of an array.
    pub fn as_array(&self) -> (r: Option<&Vec<Json>>)
        ensures
            match r {
                Some(v) => as_array_of(*self) == Some(v@),
                None => as_array_of(*self) is None,
            },
    {
        match self {
            Json::Array(v) => Some(v),
            _ => None,
        }
    }

    /// `self.get(key).and_then(|v| v.as_i64())`.
    pub fn get_i64(&self, key: &str) -> (r: Option<i64>)
        ensures
            r == get_i64(*self, key@),
    {
        match self.get(key) {
            Some(v) => v.as_i64(),
            None => None,
        }
    }

    /// `self.get(key).and_then(|v| v.as_u64())`.
    pub fn get_u64(&self, key: &str) -> (r: Option<u64>)
        ensures
            r == get_u64(*self, key@),
    {
        match self.get(key) {
            Some(v) => v.as_u64(),
            None => None,
        }
    }

    /// `self.get(key).and_then(|v| v.as_bool())`.
    pub fn get_bool(&self, key: &str) -> (r: Option<bool>)
        ensures
            r == get_bool(*self, key@),
    {
        match self.get(key) {
            Some(v) => v.as_bool(),
            None => None,
        }
    }

    /// `self.get(key).and_then(|v| v.as_str())`.
    pub fn get_str(&self, key: &str) -> (r: Option<&str>)
        ensures
            match r {
                Some(s) => get_str(*self, key@) == Some(s@),
                None => get_str(*self, key@) is None,
            },
    {
        match self.get(key) {
            Some(v) => v.as_str(),
            None => None,
        }
    }

    /// `self.get(key).and_then(|v| v.as_array())`.
    pub fn get_array(&self, key: &str) -> (r: Option<&Vec<Json>>)
        ensures
            match r {
                Some(v) => get_array(*self, key@) == Some(v@),
                None => get_array(*self, key@) is None,
            },
    {
        match self.get(key) {
            Some(v) => v.as_array(),
            None => None,
        }
    }

    /// An integer member, zero where missing.
    pub fn get_i64_or_zero(&self, key: &str) -> (r: i64)
        ensures
            r == get_i64_or_zero(*self, key@),
    {
        match self.get_i64(key) {
            Some(n) => n,
            None => 0,
        }
    }

    /// A boolean member, `false` where missing.
    pub fn get_bool_or_false(&self, key: &str) -> (r: bool)
        ensures
            r == get_bool_or_false(*self, key@),
    {
        match self.get_bool(key) {
            Some(b) => b,
            None => false,
        }
    }

    /// Whether the string member `key` is present and equal to `lit`.
    pub fn str_member_is(&self, key: &str, lit: &str) -> (r: bool)
        ensures
            r == str_member_is(*self, key@, lit@),
    {
        match self.get_str(key) {
            Some(s) => str_eq(s, lit),
            None => false,
        }
    }
}

} // verus!
