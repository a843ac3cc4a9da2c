//! The library's model of a JSON document.
//!
//! API payloads arrive as JSON text; the unverified rim decodes that text
//! and hands the library a [`JsonValue`] tree of plain values. Numbers are
//! carried as a fixed-point value in thousandths, which keeps ids exact
//! and lets a grading score be compared against a whole percentage; a
//! number that cannot be carried that way is outside the model.

use vstd::prelude::*;

verus! {

/// A JSON value: the tree the domain parser walks.
#[derive(Debug)]
pub enum JsonValue {
    Null,
    Bool(bool),
    /// A number, in thousandths: the JSON number `2.5` is `Num(2500)`.
    Num(i64),
    Str(String),
    Arr(Vec<JsonValue>),
    Obj(Vec<(String, JsonValue)>),
}

/// The value under `key` in a sequence of object entries: the first
/// entry with that key, as object construction never repeats a key.
pub open spec fn obj_get_seq(entries: Seq<(String, JsonValue)>, key: Seq<char>) -> Option<JsonValue>
    decreases entries.len(),
{
    if entries.len() == 0 {
        None
    } else if entries[0].0@ == key {
        Some(entries[0].1)
    } else {
        obj_get_seq(entries.drop_first(), key)
    }
}

impl JsonValue {
    /// The value under `key`, when this value is an object that has it.
    pub open spec fn spec_get(self, key: Seq<char>) -> Option<JsonValue> {
        match self {
            JsonValue::Obj(entries) => obj_get_seq(entries@, key),
            _ => None,
        }
    }

    /// The number as a non-negative whole integer, when it is one.
    pub open spec fn spec_as_u64(self) -> Option<u64> {
        match self {
            JsonValue::Num(m) => if m >= 0 && m % 1000 == 0 {
                Some((m / 1000) as u64)
            } else {
                None
            },
            _ => None,
        }
    }

    /// The characters of the string, when this value is a string.
    pub open spec fn spec_as_str(self) -> Option<Seq<char>> {
        match self {
            JsonValue::Str(s) => Some(s@),
            _ => None,
        }
    }

    /// The boolean, when this value is a boolean.
    pub open spec fn spec_as_bool(self) -> Option<bool> {
        match self {
            JsonValue::Bool(b) => Some(b),
            _ => None,
        }
    }

    /// The elements, when this value is an array.
    pub open spec fn spec_as_arr(self) -> Option<Seq<JsonValue>> {
        match self {
            JsonValue::Arr(elems) => Some(elems@),
            _ => None,
        }
    }

    /// Whether this number equals the whole number `units`, as the
    /// grading check compares a score against exactly 100.
    pub open spec fn spec_is_whole(self, units: u64) -> bool {
        self matches JsonValue::Num(m) && units <= 9_223_372_036_854_775 && m == units * 1000
    }

    /// Looks `key` up in this value, an object entry at a time.
    pub fn get<'a>(&'a self, key: &str) -> (r: Option<&'a JsonValue>)
        ensures
            match r {
                Some(v) => self.spec_get(key@) == Some(*v),
                None => self.spec_get(key@) is None,
            },
    {
        match self {
            JsonValue::Obj(entries) => {
                let k: String = key.to_owned();
                let n = entries.len();
                let mut i: usize = 0;
                while i < n
                    invariant
                        n == entries@.len(),
                        0 <= i <= n,
                        k@ == key@,
                        self.spec_get(key@) == obj_get_seq(entries@, key@),
                        forall|j: int| 0 <= j < i ==> entries@[j].0@ != key@,
                    decreases n - i,
                {
                    let pair = &entries[i];
                    if pair.0 == k {
                        proof {
                            lemma_obj_get_skip(entries@, key@, i as int);
                            assert(entries@.skip(i as int)[0] == entries@[i as int]);
                        }
                        return Some(&pair.1);
                    }
                    i += 1;
                }
                proof {
                    lemma_obj_get_skip(entries@, key@, n as int);
                }
                None
            },
            _ => None,
        }
    }

    /// The number as a non-negative whole integer, when it is one.
    pub fn as_u64(&self) -> (r: Option<u64>)
        ensures
            r == self.spec_as_u64(),
    {
        match self {
            JsonValue::Num(m) => {
                if *m >= 0 && *m % 1000 == 0 {
                    Some((*m / 1000) as u64)
                } else {
                    None
                }
            },
            _ => None,
        }
    }

    /// The string slice, when this value is a string.
    pub fn as_str<'a>(&'a self) -> (r: Option<&'a str>)
        ensures
            match r {
                Some(s) => self.spec_as_str() == Some(s@),
                None => self.spec_as_str() is None,
            },
    {
        match self {
            JsonValue::Str(s) => Some(s.as_str()),
            _ => None,
        }
    }

    /// The boolean, when this value is a boolean.
    pub fn as_bool(&self) -> (r: Option<bool>)
        ensures
            r == self.spec_as_bool(),
    {
        match self {
            JsonValue::Bool(b) => Some(*b),
            _ => None,
        }
    }

    /// The elements, when this value is an array.
    pub fn as_array<'a>(&'a self) -> (r: Option<&'a Vec<JsonValue>>)
        ensures
            match r {
                Some(elems) => self.spec_as_arr() == Some(elems@),
                None => self.spec_as_arr() is None,
            },
    {
        match self {
            JsonValue::Arr(elems) => Some(elems),
            _ => None,
        }
    }

    /// A number holding the whole integer `n`.
    pub fn of_u64(n: u64) -> (r: JsonValue)
        requires
            n <= 9_223_372_036_854_775,
        ensures
            r == JsonValue::Num((n * 1000) as i64),
            r.spec_as_u64() == Some(n),
    {
        let m: i64 = (n as i64) * 1000;
        JsonValue::Num(m)
    }

    /// A string value holding the characters of `s`.
    pub fn of_str(s: &str) -> (r: JsonValue)
        ensures
            r.spec_as_str() == Some(s@),
    {
        JsonValue::Str(s.to_owned())
    }
}

/// Skipping entries whose key is not the one looked up leaves the value
/// under that key unchanged.
proof fn lemma_obj_get_skip(entries: Seq<(String, JsonValue)>, key: Seq<char>, i: int)
    requires
        0 <= i <= entries.len(),
        forall|j: int| 0 <= j < i ==> entries[j].0@ != key,
    ensures
        obj_get_seq(entries, key) == obj_get_seq(entries.skip(i), key),
    decreases i,
{
    if i == 0 {
        assert(entries.skip(0) =~= entries);
    } else {
        assert(entries[0].0@ != key);
        lemma_obj_get_skip(entries.drop_first(), key, i - 1);
        assert(entries.drop_first().skip(i - 1) =~= entries.skip(i));
    }
}

} // verus!
