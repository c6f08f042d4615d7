//! JSON values, as the structured output of the transfer tool holds them.
//!
//! The text is parsed by `serde_json`. A value is held one level deep: the
//! items of an array and the members of an object are kept as the JSON text
//! that writes them, and are read in their turn when they are asked for.

use vstd::prelude::*;
use vstd::string::*;
use crate::strings::str_eq;

verus! {

/// A JSON value, one level deep.
#[derive(Debug)]
pub enum Json {
    Null,
    Bool(bool),
    /// A number. It carries its value where it is a whole number from 0 to
    /// the greatest `u64`, and nothing where it is negative or has a fraction.
    Number(Option<u64>),
    Text(String),
    /// The items of an array, each as the JSON text that writes it.
    Array(Vec<String>),
    /// The members of an object: the name of each, and the JSON text that
    /// writes its value.
    Object(Vec<(String, String)>),
}

/// The value that `serde_json` reads from `text`, or `None` where it reads
/// none.
pub uninterp spec fn json_text_value(text: Seq<char>) -> Option<Json>;

/// Calls `serde_json::from_str` for a `serde_json::Value` and hands the
/// value over variant by variant: a number through
/// `serde_json::Number::as_u64`, each item and member written out again
/// through the `Display` of `serde_json::Value`. The contract gives the
/// outcome a name and claims only that it depends on the text alone; `None`
/// stands for every error of the parser.
#[verifier::external_body]
pub(crate) fn read_value(text: &str) -> (r: Option<Json>)
    ensures
        r == json_text_value(text@),
{
    Some(match serde_json::from_str::<serde_json::Value>(text).ok()? {
        serde_json::Value::Null => Json::Null,
        serde_json::Value::Bool(b) => Json::Bool(b),
        serde_json::Value::Number(n) => Json::Number(n.as_u64()),
        serde_json::Value::String(s) => Json::Text(s),
        serde_json::Value::Array(a) => Json::Array(a.iter().map(|v| v.to_string()).collect()),
        serde_json::Value::Object(m) => Json::Object(
            m.into_iter().map(|(k, v)| (k, v.to_string())).collect(),
        ),
    })
}

/// Reads `text` as JSON.
pub fn parse_json(text: &str) -> (r: Option<Json>)
    ensures
        r == json_text_value(text@),
{
    read_value(text)
}

/// The text of the first of `members` that is named `key`.
pub open spec fn first_member(members: Seq<(String, String)>, key: Seq<char>) -> Option<Seq<char>>
    decreases members.len(),
{
    if members.len() == 0 {
        None
    } else if members[0].0@ == key {
        Some(members[0].1@)
    } else {
        first_member(members.drop_first(), key)
    }
}

impl Json {
    /// The text of the member `key` of an object; `None` for a value that is
    /// no object or has no such member.
    pub open spec fn member_text(self, key: Seq<char>) -> Option<Seq<char>> {
        match self {
            Json::Object(members) => first_member(members@, key),
            _ => None,
        }
    }

    /// The member `key` of an object; `None` for a value that is no object
    /// or has no such member.
    pub open spec fn member(self, key: Seq<char>) -> Option<Json> {
        match self.member_text(key) {
            Some(text) => json_text_value(text),
            None => None,
        }
    }

    /// The items of an array, each read from its text; an item whose text
    /// cannot be read is null. `None` for a value that is no array.
    pub open spec fn items(self) -> Option<Seq<Json>> {
        match self {
            Json::Array(texts) => Some(
                Seq::new(
                    texts@.len(),
                    |i: int|
                        match json_text_value(texts@[i]@) {
                            Some(v) => v,
                            None => Json::Null,
                        },
                ),
            ),
            _ => None,
        }
    }

    /// The value of a number that is a whole number from 0 to the greatest
    /// `u64`; `None` for every other value.
    pub open spec fn natural(self) -> Option<u64> {
        match self {
            Json::Number(n) => n,
            _ => None,
        }
    }

    /// The truth value of a boolean; `None` for every other value.
    pub open spec fn truth(self) -> Option<bool> {
        match self {
            Json::Bool(b) => Some(b),
            _ => None,
        }
    }

    /// The characters of a text; `None` for every other value.
    pub open spec fn text(self) -> Option<Seq<char>> {
        match self {
            Json::Text(s) => Some(s@),
            _ => None,
        }
    }

    /// The number of items of an array; `None` for every other value.
    pub open spec fn item_count(self) -> Option<nat> {
        match self {
            Json::Array(items) => Some(items@.len()),
            _ => None,
        }
    }

    /// The text of the member `key` of an object.
    pub fn get_text(&self, key: &str) -> (r: Option<&str>)
        ensures
            match r {
                Some(t) => self.member_text(key@) == Some(t@),
                None => self.member_text(key@) is None,
            },
    {
        match self {
            Json::Object(members) => {
                let mut i: usize = 0;
                assert(members@.skip(0) =~= members@);
                while i < members.len()
                    invariant
                        i <= members@.len(),
                        self.member_text(key@) == first_member(members@, key@),
                        first_member(members@, key@) == first_member(
                            members@.skip(i as int),
                            key@,
                        ),
                    decreases members@.len() - i,
                {
                    proof {
                        let t = members@.skip(i as int);
                        assert(t[0] == members@[i as int]);
                        assert(t.drop_first() =~= members@.skip(i + 1));
                    }
                    if str_eq(members[i].0.as_str(), key) {
                        assert(first_member(members@.skip(i as int), key@) == Some(
                            members@[i as int].1@,
                        ));
                        return Some(members[i].1.as_str());
                    }
                    i = i + 1;
                }
                None
            },
            _ => None,
        }
    }

    /// The member `key` of an object.
    pub fn get(&self, key: &str) -> (r: Option<Json>)
        ensures
            r == self.member(key@),
    {
        match self.get_text(key) {
            Some(text) => parse_json(text),
            None => None,
        }
    }

    /// The items of an array.
    pub fn to_items(&self) -> (r: Option<Vec<Json>>)
        ensures
            match r {
                Some(v) => self.items() == Some(v@),
                None => self.items() is None,
            },
    {
        match self {
            Json::Array(texts) => {
                let mut out: Vec<Json> = Vec::new();
                let mut i: usize = 0;
                while i < texts.len()
                    invariant
                        i <= texts@.len(),
                        self.items() is Some,
                        self.items()->0.len() == texts@.len(),
                        out@.len() == i,
                        forall|k: int| 0 <= k < i ==> out@[k] == self.items()->0[k],
                        forall|k: int|
                            0 <= k < texts@.len() ==> self.items()->0[k] == match json_text_value(
                                texts@[k]@,
                            ) {
                                Some(v) => v,
                                None => Json::Null,
                            },
                    decreases texts@.len() - i,
                {
                    let item = match parse_json(texts[i].as_str()) {
                        Some(v) => v,
                        None => Json::Null,
                    };
                    out.push(item);
                    i = i + 1;
                }
                proof {
                    assert(out@ =~= self.items()->0);
                }
                Some(out)
            },
            _ => None,
        }
    }

    /// The value of a number that is a whole number from 0 to the greatest
    /// `u64`.
    pub fn as_natural(&self) -> (r: Option<u64>)
        ensures
            r == self.natural(),
    {
        match self {
            Json::Number(n) => *n,
            _ => None,
        }
    }

    /// The truth value of a boolean.
    pub fn as_bool(&self) -> (r: Option<bool>)
        ensures
            r == self.truth(),
    {
        match self {
            Json::Bool(b) => Some(*b),
            _ => None,
        }
    }

    /// The text of a text value.
    pub fn as_str(&self) -> (r: Option<&str>)
        ensures
            match r {
                Some(s) => self.text() == Some(s@),
                None => self.text() is None,
            },
    {
        match self {
            Json::Text(s) => Some(s.as_str()),
            _ => None,
        }
    }

    /// The number of items of an array.
    pub fn len_of_array(&self) -> (r: Option<usize>)
        ensures
            match r {
                Some(n) => self.item_count() == Some(n as nat),
                None => self.item_count() is None,
            },
    {
        match self {
            Json::Array(items) => Some(items.len()),
            _ => None,
        }
    }
}

} // verus!
