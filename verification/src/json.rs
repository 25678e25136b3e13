//! JSON values as the Stratum protocol exchanges them, with the accessors
//! that the session reads them by.  The text form (parsing and printing) is
//! the caller's; numbers keep the three kinds that a JSON parser tells
//! apart, a fractional number by the bit pattern of its `f64`.

use vstd::prelude::*;

verus! {

/// A JSON number.
#[derive(Clone, Copy, Debug, PartialEq, Eq, Structural)]
pub enum JsonNumber {
    /// A non-negative integer.
    PosInt(u64),
    /// A negative integer.
    NegInt(i64),
    /// Any other number, by the IEEE-754 bits of its `f64`.
    Float(u64),
}

/// A JSON value.  An object keeps its members in order.
#[derive(Debug)]
pub enum Json {
    Null,
    Bool(bool),
    Number(JsonNumber),
    Str(String),
    Array(Vec<Json>),
    Object(Vec<(String, Json)>),
}

/// The value of the first member named `key`.
pub open spec fn member(entries: Seq<(String, Json)>, key: Seq<char>) -> Option<Json>
    decreases entries.len(),
{
    if entries.len() == 0 {
        None
    } else if entries[0].0@ == key {
        Some(entries[0].1)
    } else {
        member(entries.drop_first(), key)
    }
}

impl Json {
    /// The member `key` of an object; nothing for other values.
    pub open spec fn key(self, key: Seq<char>) -> Option<Json> {
        match self {
            Json::Object(entries) => member(entries@, key),
            _ => None,
        }
    }

    /// Element `i` of an array; nothing for other values or out of range.
    pub open spec fn at(self, i: int) -> Option<Json> {
        match self {
            Json::Array(items) => if 0 <= i < items@.len() {
                Some(items@[i])
            } else {
                None
            },
            _ => None,
        }
    }

    /// The text of a string.
    pub open spec fn text(self) -> Option<Seq<char>> {
        match self {
            Json::Str(s) => Some(s@),
            _ => None,
        }
    }

    /// A number that fits in `u64`.
    pub open spec fn u64_value(self) -> Option<u64> {
        match self {
            Json::Number(JsonNumber::PosInt(n)) => Some(n),
            _ => None,
        }
    }

    /// A number that fits in `i64`.
    pub open spec fn i64_value(self) -> Option<i64> {
        match self {
            Json::Number(JsonNumber::PosInt(n)) => if n <= i64::MAX {
                Some(n as i64)
            } else {
                None
            },
            Json::Number(JsonNumber::NegInt(n)) => Some(n),
            _ => None,
        }
    }

    /// Whether this is `true`.
    pub open spec fn is_true(self) -> bool {
        self matches Json::Bool(true)
    }

    /// Looks up the member `key` of an object.
    pub fn get_key(&self, key: &str) -> (r: Option<&Json>)
        ensures
            match r {
                Some(v) => self.key(key@) == Some(*v),
                None => self.key(key@) is None,
            },
    {
        match self {
            Json::Object(entries) => {
                let mut i = 0usize;
                assert(entries@.skip(0) =~= entries@);
                while i < entries.len()
                    invariant
                        i <= entries@.len(),
                        self.key(key@) == member(entries@, key@),
                        member(entries@, key@) == member(entries@.skip(i as int), key@),
                    decreases entries@.len() - i,
                {
                    assert(entries@.skip(i as int).drop_first() =~= entries@.skip(i + 1));
                    assert(entries@.skip(i as int)[0] == entries@[i as int]);
                    if str_eq(entries[i].0.as_str(), key) {
                        assert(entries@[i as int].0@ == key@);
                        assert(member(entries@.skip(i as int), key@) == Some(entries@[i as int].1));
                        return Some(&entries[i].1);
                    }
                    i = i + 1;
                }
                None
            },
            _ => None,
        }
    }

    /// Element `i` of an array.
    pub fn get_index(&self, i: usize) -> (r: Option<&Json>)
        ensures
            match r {
                Some(v) => self.at(i as int) == Some(*v),
                None => self.at(i as int) is None,
            },
    {
        match self {
            Json::Array(items) => if i < items.len() {
                Some(&items[i])
            } else {
                None
            },
            _ => None,
        }
    }

    /// The text of a string value.
    pub fn as_str(&self) -> (r: Option<&str>)
        ensures
            match r {
                Some(s) => self.text() == Some(s@),
                None => self.text() is None,
            },
    {
        match self {
            Json::Str(s) => Some(s.as_str()),
            _ => None,
        }
    }

    /// A number as `u64`, when it is a non-negative integer.
    pub fn as_u64(&self) -> (r: Option<u64>)
        ensures
            r == self.u64_value(),
    {
        match self {
            Json::Number(JsonNumber::PosInt(n)) => Some(*n),
            _ => None,
        }
    }

    /// A number as `i64`, when it is an integer in range.
    pub fn as_i64(&self) -> (r: Option<i64>)
        ensures
            r == self.i64_value(),
    {
        match self {
            Json::Number(JsonNumber::PosInt(n)) => if *n <= 0x7fff_ffff_ffff_ffffu64 {
                Some(*n as i64)
            } else {
                None
            },
            Json::Number(JsonNumber::NegInt(n)) => Some(*n),
            _ => None,
        }
    }
}

/// Whether two strings hold the same characters.
pub fn str_eq(a: &str, b: &str) -> (r: bool)
    ensures
        r == (a@ == b@),
{
    let n = a.unicode_len();
    if n != b.unicode_len() {
        return false;
    }
    let mut i = 0usize;
    while i < n
        invariant
            n == a@.len(),
            n == b@.len(),
            i <= n,
            forall|k: int| 0 <= k < i ==> a@[k] == b@[k],
        decreases n - i,
    {
        if a.get_char(i) != b.get_char(i) {
            return false;
        }
        i = i + 1;
    }
    assert(a@ =~= b@);
    true
}

} // verus!
