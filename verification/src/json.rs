use crate::text::{chars_of, number, parse_number, text_eq};
use vstd::prelude::*;

verus! {

/// A document of serde_json, `serde_json::Value`: carried from the reader
/// to the conversion and from the conversion to the writer, never looked
/// into.
#[verifier::external_type_specification]
#[verifier::external_body]
pub struct ExValue(serde_json::Value);

/// A JSON document.
#[derive(Debug)]
pub enum Json {
    Null,
    Bool(bool),
    /// A number, as it is written.
    Number(String),
    Text(String),
    Array(Vec<Json>),
    /// An object: its members, each name once.
    Object(Vec<(String, Json)>),
}

/// The document that `bytes` hold as serde_json reads them; `None` where
/// they hold none.
pub uninterp spec fn value_read(bytes: Seq<u8>) -> Option<serde_json::Value>;

/// What a document of serde_json holds.
pub uninterp spec fn json_of(value: serde_json::Value) -> Json;

/// The document of serde_json that holds what `json` holds.
pub uninterp spec fn value_of(json: Json) -> serde_json::Value;

/// A document as serde_json writes it, in its compact form.
pub uninterp spec fn value_written(value: serde_json::Value) -> Seq<char>;

/// Reads a document with `serde_json::from_slice`. The contract names the
/// result, a function of the bytes alone.
#[verifier::external_body]
pub(crate) fn read_value(bytes: &[u8]) -> (res: Option<serde_json::Value>)
    ensures
        res == value_read(bytes@),
{
    serde_json::from_slice::<serde_json::Value>(bytes).ok()
}

/// Takes over what a document of serde_json holds, variant by variant: a
/// number as serde_json writes it, the members of an object in the order in
/// which its map hands them out. The contract names the result.
#[verifier::external_body]
pub(crate) fn to_json(value: serde_json::Value) -> (json: Json)
    ensures
        json == json_of(value),
{
    match value {
        serde_json::Value::Null => Json::Null,
        serde_json::Value::Bool(b) => Json::Bool(b),
        serde_json::Value::Number(n) => Json::Number(n.to_string()),
        serde_json::Value::String(s) => Json::Text(s),
        serde_json::Value::Array(items) => Json::Array(items.into_iter().map(to_json).collect()),
        serde_json::Value::Object(members) => Json::Object(
            members.into_iter().map(|(k, v)| (k, to_json(v))).collect(),
        ),
    }
}

/// Builds the document of serde_json that holds what `json` holds, variant
/// by variant; a number is read back from its text, and is null where the
/// text writes no number. The contract names the result.
#[verifier::external_body]
pub(crate) fn from_json(json: &Json) -> (value: serde_json::Value)
    ensures
        value == value_of(*json),
{
    match json {
        Json::Null => serde_json::Value::Null,
        Json::Bool(b) => serde_json::Value::Bool(*b),
        Json::Number(n) => serde_json::from_str::<serde_json::Number>(n).map_or(
            serde_json::Value::Null,
            serde_json::Value::Number,
        ),
        Json::Text(s) => serde_json::Value::String(s.clone()),
        Json::Array(items) => serde_json::Value::Array(items.iter().map(from_json).collect()),
        Json::Object(members) => serde_json::Value::Object(
            members.iter().map(|(k, v)| (k.clone(), from_json(v))).collect(),
        ),
    }
}

/// Writes a document with serde_json, in its compact form. The contract
/// names the result.
#[verifier::external_body]
pub(crate) fn write_value(value: &serde_json::Value) -> (text: String)
    ensures
        text@ == value_written(*value),
{
    value.to_string()
}

/// The document that `bytes` hold; `None` where they hold none.
pub open spec fn json_read(bytes: Seq<u8>) -> Option<Json> {
    match value_read(bytes) {
        Some(value) => Some(json_of(value)),
        None => None,
    }
}

/// A document as it is written, in compact form.
pub open spec fn json_written(json: Json) -> Seq<char> {
    value_written(value_of(json))
}

/// The first member of `members` called `key`.
pub open spec fn member(members: Seq<(String, Json)>, key: Seq<char>) -> Option<Json>
    decreases members.len(),
{
    if members.len() == 0 {
        None
    } else if members[0].0@ == key {
        Some(members[0].1)
    } else {
        member(members.drop_first(), key)
    }
}

impl Json {
    /// Reads a document.
    pub fn read(bytes: &[u8]) -> (res: Option<Json>)
        ensures
            res == json_read(bytes@),
    {
        match read_value(bytes) {
            Some(value) => Some(to_json(value)),
            None => None,
        }
    }

    /// Writes the document, in compact form.
    pub fn write(&self) -> (text: String)
        ensures
            text@ == json_written(*self),
    {
        write_value(&from_json(self))
    }

    /// The member called `key`, where the document is an object that has one.
    pub open spec fn spec_get(self, key: Seq<char>) -> Option<Json> {
        match self {
            Json::Object(members) => member(members@, key),
            _ => None,
        }
    }

    /// The text that the member called `key` holds.
    pub open spec fn spec_text(self, key: Seq<char>) -> Option<Seq<char>> {
        match self.spec_get(key) {
            Some(Json::Text(text)) => Some(text@),
            _ => None,
        }
    }

    /// The number that the member called `key` holds: a whole number that is
    /// not negative and fits in 64 bits.
    pub open spec fn spec_number(self, key: Seq<char>) -> Option<u64> {
        match self.spec_get(key) {
            Some(Json::Number(text)) => number(text@),
            _ => None,
        }
    }

    /// The truth value that the member called `key` holds.
    pub open spec fn spec_flag(self, key: Seq<char>) -> Option<bool> {
        match self.spec_get(key) {
            Some(Json::Bool(flag)) => Some(flag),
            _ => None,
        }
    }

    /// The items of the array that the member called `key` holds.
    pub open spec fn spec_items(self, key: Seq<char>) -> Option<Seq<Json>> {
        match self.spec_get(key) {
            Some(Json::Array(items)) => Some(items@),
            _ => None,
        }
    }

    /// The member called `key`, where the document is an object that has one.
    pub fn get(&self, key: &str) -> (res: Option<&Json>)
        ensures
            match res {
                Some(found) => self.spec_get(key@) == Some(*found),
                None => self.spec_get(key@) is None,
            },
    {
        match self {
            Json::Object(members) => {
                let mut i: usize = 0;
                assert(members@.skip(0) == members@);
                while i < members.len()
                    invariant
                        i <= members.len(),
                        self.spec_get(key@) == member(members@.skip(i as int), key@),
                    decreases members.len() - i,
                {
                    proof {
                        let rest = members@.skip(i as int);
                        assert(rest[0] == members@[i as int]);
                        assert(rest.drop_first() == members@.skip(i as int + 1));
                    }
                    if text_eq(members[i].0.as_str(), key) {
                        return Some(&members[i].1);
                    }
                    i += 1;
                }
                None
            },
            _ => None,
        }
    }

    /// The text that the member called `key` holds.
    pub fn text(&self, key: &str) -> (res: Option<String>)
        ensures
            match res {
                Some(text) => self.spec_text(key@) == Some(text@),
                None => self.spec_text(key@) is None,
            },
    {
        match self.get(key) {
            Some(Json::Text(text)) => Some(text.clone()),
            _ => None,
        }
    }

    /// The number that the member called `key` holds.
    pub fn number(&self, key: &str) -> (res: Option<u64>)
        ensures
            res == self.spec_number(key@),
    {
        match self.get(key) {
            Some(Json::Number(text)) => {
                let digits = chars_of(text.as_str());
                assert(digits@.subrange(0, digits.len() as int) == digits@);
                parse_number(&digits, 0, digits.len())
            },
            _ => None,
        }
    }

    /// The truth value that the member called `key` holds.
    pub fn flag(&self, key: &str) -> (res: Option<bool>)
        ensures
            res == self.spec_flag(key@),
    {
        match self.get(key) {
            Some(Json::Bool(flag)) => Some(*flag),
            _ => None,
        }
    }

    /// The items of the array that the member called `key` holds.
    pub fn items(&self, key: &str) -> (res: Option<&Vec<Json>>)
        ensures
            match res {
                Some(items) => self.spec_items(key@) == Some(items@),
                None => self.spec_items(key@) is None,
            },
    {
        match self.get(key) {
            Some(Json::Array(items)) => Some(items),
            _ => None,
        }
    }
}

} // verus!
