//! JSON documents as plain values, with what the rest of the library reads from them.
use vstd::prelude::*;

use crate::text::{chars_of, str_eq};

verus! {

/// A floating-point reading of a JSON value, carried as the text that serde_json writes for
/// that float, or `None` where the float is not finite (serde_json writes `null` for it).
#[derive(Debug, Clone, PartialEq)]
pub struct FloatValue {
    pub rendering: Option<String>,
}

/// A JSON number: its text as serde_json writes it, and its readings as an `i64` (where it is
/// an integer in range) and as a float.
#[derive(Debug, Clone, PartialEq)]
pub struct JsonNumber {
    pub text: String,
    pub int: Option<i64>,
    pub float: FloatValue,
}

/// A JSON value. Object members keep the order in which they arrived; a member is found by
/// the first entry with its name. A string carries the reading of its text as a float
/// (`str::parse`), where its text is one.
#[derive(Debug)]
pub enum Json {
    Null,
    Bool(bool),
    Number(JsonNumber),
    Str { text: String, float: Option<FloatValue> },
    Array(Vec<Json>),
    Object(Vec<(String, Json)>),
}

/// The index of the first entry named `key`.
pub open spec fn entry_index(entries: Seq<(String, Json)>, key: Seq<char>) -> Option<int>
    decreases entries.len(),
{
    if entries.len() == 0 {
        None
    } else if entries[0].0@ == key {
        Some(0)
    } else {
        match entry_index(entries.drop_first(), key) {
            Some(i) => Some(i + 1),
            None => None,
        }
    }
}

pub proof fn lemma_entry_index_bounds(entries: Seq<(String, Json)>, key: Seq<char>)
    ensures
        entry_index(entries, key) matches Some(i) ==> 0 <= i < entries.len() && entries[i].0@
            == key,
    decreases entries.len(),
{
    if entries.len() > 0 && entries[0].0@ != key {
        lemma_entry_index_bounds(entries.drop_first(), key);
    }
}

/// The member `key` of an object (`serde_json::Value::get` with a string key).
pub open spec fn member(v: Json, key: Seq<char>) -> Option<Json> {
    match v {
        Json::Object(entries) => match entry_index(entries@, key) {
            Some(i) => Some(entries@[i].1),
            None => None,
        },
        _ => None,
    }
}

/// The text of a string value.
pub open spec fn text_of(v: Json) -> Option<String> {
    match v {
        Json::Str { text, .. } => Some(text),
        _ => None,
    }
}

/// The items of an array value.
pub open spec fn items_of(v: Json) -> Option<Seq<Json>> {
    match v {
        Json::Array(items) => Some(items@),
        _ => None,
    }
}

impl Json {
    /// The member `key`, where this is an object that has one.
    pub fn get(&self, key: &str) -> (r: Option<&Json>)
        ensures
            match r {
                Some(x) => member(*self, key@) == Some(*x),
                None => member(*self, key@) is None,
            },
    {
        match self {
            Json::Object(entries) => match find_entry(entries, key) {
                Some(i) => Some(&entries[i].1),
                None => None,
            },
            _ => None,
        }
    }

    /// The text, where this is a string.
    pub fn as_str(&self) -> (r: Option<&str>)
        ensures
            match r {
                Some(t) => text_of(*self) matches Some(s) && s@ == t@,
                None => text_of(*self) is None,
            },
    {
        match self {
            Json::Str { text, .. } => Some(text.as_str()),
            _ => None,
        }
    }

    /// The items, where this is an array.
    pub fn as_array(&self) -> (r: Option<&Vec<Json>>)
        ensures
            match r {
                Some(a) => items_of(*self) == Some(a@),
                None => items_of(*self) is None,
            },
    {
        match self {
            Json::Array(items) => Some(items),
            _ => None,
        }
    }
}

/// The index of the first entry named `key`.
pub fn find_entry(entries: &Vec<(String, Json)>, key: &str) -> (r: Option<usize>)
    ensures
        match r {
            Some(i) => i < entries@.len() && entry_index(entries@, key@) == Some(i as int),
            None => entry_index(entries@, key@) is None,
        },
{
    let mut i: usize = 0;
    while i < entries.len()
        invariant
            i <= entries@.len(),
            forall|j: int| 0 <= j < i ==> entries@[j].0@ != key@,
        decreases entries@.len() - i,
    {
        if str_eq(entries[i].0.as_str(), key) {
            proof {
                lemma_entry_index_first(entries@, key@, i as int);
            }
            return Some(i);
        }
        i = i + 1;
    }
    proof {
        lemma_entry_index_none(entries@, key@);
    }
    None
}

proof fn lemma_entry_index_first(entries: Seq<(String, Json)>, key: Seq<char>, i: int)
    requires
        0 <= i < entries.len(),
        entries[i].0@ == key,
        forall|j: int| 0 <= j < i ==> entries[j].0@ != key,
    ensures
        entry_index(entries, key) == Some(i),
    decreases i,
{
    if i > 0 {
        assert forall|j: int| 0 <= j < i - 1 implies entries.drop_first()[j].0@ != key by {
            assert(entries.drop_first()[j] == entries[j + 1]);
        }
        lemma_entry_index_first(entries.drop_first(), key, i - 1);
    }
}

proof fn lemma_entry_index_none(entries: Seq<(String, Json)>, key: Seq<char>)
    requires
        forall|j: int| 0 <= j < entries.len() ==> entries[j].0@ != key,
    ensures
        entry_index(entries, key) is None,
    decreases entries.len(),
{
    if entries.len() > 0 {
        assert forall|j: int| 0 <= j < entries.len() - 1 implies entries.drop_first()[j].0@
            != key by {
            assert(entries.drop_first()[j] == entries[j + 1]);
        }
        lemma_entry_index_none(entries.drop_first(), key);
    }
}

} // verus!
