use vstd::prelude::*;

use crate::assoc::{lemma_key_index_is, lookup, text_key_index, text_keys};

verus! {

/// A JSON document. Numbers are kept as their text; an object keeps its
/// members in order, and a lookup by key finds the first member with it.
#[derive(Debug, PartialEq, Eq)]
pub enum JsonValue {
    Null,
    Bool(bool),
    Number(String),
    Text(String),
    Array(Vec<JsonValue>),
    Object(Vec<(String, JsonValue)>),
}

/// The member of an object under `key` (the first one), if `v` is an object
/// that has it.
pub open spec fn json_get(v: JsonValue, key: Seq<char>) -> Option<JsonValue> {
    match v {
        JsonValue::Object(fields) => lookup(text_keys(fields@), key),
        _ => None,
    }
}

/// The text of `v`, if it is a string.
pub open spec fn json_text(v: Option<JsonValue>) -> Option<Seq<char>> {
    match v {
        Some(JsonValue::Text(s)) => Some(s@),
        _ => None,
    }
}

/// The texts of an array all of whose items are strings.
pub open spec fn json_texts(v: Option<JsonValue>) -> Option<Seq<Seq<char>>> {
    match v {
        Some(JsonValue::Array(items)) => if forall|i: int|
            0 <= i < items@.len() ==> (#[trigger] items@[i]) is Text {
            Some(items@.map_values(|x: JsonValue| x->Text_0@))
        } else {
            None
        },
        _ => None,
    }
}

impl JsonValue {
    /// The member of an object under `key` (`None` for any other value).
    pub fn get(&self, key: &str) -> (r: Option<&JsonValue>)
        ensures
            r is Some <==> json_get(*self, key@) is Some,
            r matches Some(x) ==> json_get(*self, key@) == Some(*x),
    {
        match self {
            JsonValue::Object(fields) => {
                match text_key_index(fields, key) {
                    Some(i) => {
                        proof {
                            lemma_key_index_is(text_keys(fields@), key@, i as int);
                        }
                        Some(&fields[i].1)
                    },
                    None => None,
                }
            },
            _ => None,
        }
    }

    /// The text of a string value.
    pub fn as_str(&self) -> (r: Option<&str>)
        ensures
            r is Some <==> json_text(Some(*self)) is Some,
            r matches Some(s) ==> json_text(Some(*self)) == Some(s@),
    {
        match self {
            JsonValue::Text(s) => Some(s.as_str()),
            _ => None,
        }
    }
}

/// The texts of `v` where it is an array of strings.
pub fn json_strings(v: &JsonValue) -> (r: Option<Vec<String>>)
    ensures
        r is Some <==> json_texts(Some(*v)) is Some,
        r matches Some(items) ==> json_texts(Some(*v)) == Some(items@.map_values(|s: String| s@)),
{
    match v {
        JsonValue::Array(items) => {
            let mut out: Vec<String> = Vec::new();
            let mut i: usize = 0;
            while i < items.len()
                invariant
                    *v == JsonValue::Array(*items),
                    i <= items@.len(),
                    out@.len() == i,
                    forall|j: int| 0 <= j < i ==> (#[trigger] items@[j]) is Text,
                    forall|j: int| 0 <= j < i ==> (#[trigger] out@[j])@ == items@[j]->Text_0@,
                decreases items@.len() - i,
            {
                match &items[i] {
                    JsonValue::Text(s) => {
                        out.push(s.clone());
                    },
                    _ => {
                        assert(!(items@[i as int] is Text));
                        return None;
                    },
                }
                i = i + 1;
            }
            assert(out@.map_values(|s: String| s@) =~= items@.map_values(|x: JsonValue| x->Text_0@));
            Some(out)
        },
        _ => None,
    }
}

} // verus!
