//! JSON documents as plain trees, and the reading of one from text.

use vstd::prelude::*;
use vstd::string::*;

use crate::text::same_text;

verus! {

/// A JSON document. A number keeps what the manager reads of it: its value
/// where it is a whole number from zero to the largest `u64`, nothing
/// otherwise. An object keeps its members in the order of the reader.
#[derive(Debug)]
pub enum Json {
    Null,
    Bool(bool),
    Number(Option<u64>),
    Text(String),
    Array(Vec<Json>),
    Object(Vec<(String, Json)>),
}

#[verifier::external_type_specification]
#[verifier::external_body]
pub struct ExJsonValue(serde_json::Value);

/// The tree that the bytes `text` stand for as a JSON document, where they are
/// one.
pub uninterp spec fn parsed_json(text: Seq<u8>) -> Option<Json>;

/// Copies a document of the serde_json crate into a tree, variant by variant.
/// A number is read with `Number::as_u64`; the members of an object come in
/// the order in which its map hands them out.
#[verifier::external_body]
fn json_tree(value: &serde_json::Value) -> Json {
    match value {
        serde_json::Value::Null => Json::Null,
        serde_json::Value::Bool(b) => Json::Bool(*b),
        serde_json::Value::Number(n) => Json::Number(n.as_u64()),
        serde_json::Value::String(s) => Json::Text(s.clone()),
        serde_json::Value::Array(items) => Json::Array(items.iter().map(json_tree).collect()),
        serde_json::Value::Object(members) => Json::Object(
            members.iter().map(|(key, member)| (key.clone(), json_tree(member))).collect(),
        ),
    }
}

/// Reads a JSON document. Calls `serde_json::from_slice` for a `Value`, which
/// parses the bytes as one JSON document and fails where they are none. What
/// it yields depends on the bytes alone; the result is the tree of that
/// document, `None` where the call fails.
#[verifier::external_body]
pub(crate) fn parse_json(text: &[u8]) -> (r: Option<Json>)
    ensures
        r == parsed_json(text@),
{
    match serde_json::from_slice::<serde_json::Value>(text) {
        Ok(value) => Some(json_tree(&value)),
        Err(_) => None,
    }
}

/// The position of the first member of `members` with the name `key`.
pub open spec fn member_index(members: Seq<(String, Json)>, key: Seq<char>) -> Option<int> {
    if exists|i: int| 0 <= i < members.len() && (#[trigger] members[i]).0@ == key {
        Some(
            choose|i: int|
                0 <= i < members.len() && (#[trigger] members[i]).0@ == key && forall|j: int|
                    0 <= j < i ==> (#[trigger] members[j]).0@ != key,
        )
    } else {
        None
    }
}

/// The position of the first member of `members` with the name `key`.
fn find_member(members: &Vec<(String, Json)>, key: &str) -> (r: Option<usize>)
    ensures
        match r {
            Some(i) => i < members.len() && member_index(members@, key@) == Some(i as int),
            None => member_index(members@, key@) is None,
        },
{
    let mut i: usize = 0;
    while i < members.len()
        invariant
            i <= members.len(),
            forall|j: int| 0 <= j < i ==> (#[trigger] members@[j]).0@ != key@,
        decreases members.len() - i,
    {
        if same_text(members[i].0.as_str(), key) {
            proof {
                let at = i as int;
                assert(0 <= at < members@.len() && members@[at].0@ == key@ && forall|j: int|
                    0 <= j < at ==> (#[trigger] members@[j]).0@ != key@);
                let k = member_index(members@, key@)->0;
                if k < at {
                    assert(members@[k].0@ != key@);
                } else if at < k {
                    assert(members@[at].0@ == key@);
                }
            }
            return Some(i);
        }
        i = i + 1;
    }
    None
}

impl Json {
    /// The member named `key` of an object: the first of that name. Anything
    /// but an object has no members.
    pub open spec fn member(self, key: Seq<char>) -> Option<Json> {
        match self {
            Json::Object(members) => match member_index(members@, key) {
                Some(i) => Some(members@[i].1),
                None => None,
            },
            _ => None,
        }
    }

    /// The characters of a text; nothing for anything else.
    pub open spec fn text(self) -> Option<Seq<char>> {
        match self {
            Json::Text(s) => Some(s@),
            _ => None,
        }
    }

    /// The value of a whole number that fits; nothing for anything else.
    pub open spec fn whole(self) -> Option<u64> {
        match self {
            Json::Number(n) => n,
            _ => None,
        }
    }

    /// The items of an array; nothing for anything else.
    pub open spec fn items(self) -> Option<Seq<Json>> {
        match self {
            Json::Array(items) => Some(items@),
            _ => None,
        }
    }

    /// The member named `key` of an object.
    pub fn get(&self, key: &str) -> (r: Option<&Json>)
        ensures
            match r {
                Some(member) => self.member(key@) == Some(*member),
                None => self.member(key@) is None,
            },
    {
        match self {
            Json::Object(members) => match find_member(members, key) {
                Some(i) => Some(&members[i].1),
                None => None,
            },
            _ => None,
        }
    }

    /// The text, where the document is one.
    pub fn as_str(&self) -> (r: Option<&str>)
        ensures
            match r {
                Some(s) => self.text() == Some(s@),
                None => self.text() is None,
            },
    {
        match self {
            Json::Text(s) => Some(s.as_str()),
            _ => None,
        }
    }

    /// The value, where the document is a whole number that fits.
    pub fn as_u64(&self) -> (r: Option<u64>)
        ensures
            r == self.whole(),
    {
        match self {
            Json::Number(n) => *n,
            _ => None,
        }
    }

    /// The items, where the document is an array.
    pub fn as_array(&self) -> (r: Option<&Vec<Json>>)
        ensures
            match r {
                Some(items) => self.items() == Some(items@),
                None => self.items() is None,
            },
    {
        match self {
            Json::Array(items) => Some(items),
            _ => None,
        }
    }
}

} // verus!
