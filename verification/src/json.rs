//! JSON values, as far as the crate reads them.
use crate::text::{opt_str, text_eq};
use vstd::prelude::*;

verus! {

/// A JSON value. A number stands as serde_json prints it, which may differ from how it was written;
/// the members of an object stand in the order in which the parser hands them out, each key once.
#[derive(Debug, PartialEq, Eq)]
pub enum Json {
    Null,
    Bool(bool),
    Number(String),
    Text(String),
    Array(Vec<Json>),
    Object(Vec<(String, Json)>),
}

/// The JSON values of serde_json.
#[verifier::external_type_specification]
#[verifier::external_body]
pub struct ExJsonValue(serde_json::Value);

/// The failures of serde_json.
#[verifier::external_type_specification]
#[verifier::external_body]
pub struct ExJsonError(serde_json::Error);

/// What a JSON value of serde_json holds.
pub uninterp spec fn json_contents(value: serde_json::Value) -> Json;

/// The JSON document that a text writes, as `serde_json::from_str` reads it; `None` where it is
/// none.
pub uninterp spec fn json_document(text: Seq<char>) -> Option<Json>;

/// What is read, without the reason where nothing is.
pub open spec fn json_read(r: Result<serde_json::Value, serde_json::Error>) -> Option<Json> {
    match r {
        Ok(value) => Some(json_contents(value)),
        Err(_) => None,
    }
}

/// `serde_json::from_str` into a `serde_json::Value`: the document that the text writes, or a
/// failure where it is no JSON.
#[verifier::external_body]
fn json_from_str(text: &str) -> (r: Result<serde_json::Value, serde_json::Error>)
    ensures
        json_read(r) == json_document(text@),
{
    serde_json::from_str(text)
}

/// The variants of `serde_json::Value` one by one, with their fields moved over.
#[verifier::external_body]
fn json_of_value(value: serde_json::Value) -> (r: Json)
    ensures
        r == json_contents(value),
{
    match value {
        serde_json::Value::Null => Json::Null,
        serde_json::Value::Bool(b) => Json::Bool(b),
        serde_json::Value::Number(n) => Json::Number(n.to_string()),
        serde_json::Value::String(s) => Json::Text(s),
        serde_json::Value::Array(items) => {
            Json::Array(items.into_iter().map(json_of_value).collect())
        },
        serde_json::Value::Object(members) => {
            Json::Object(members.into_iter().map(|(k, v)| (k, json_of_value(v))).collect())
        },
    }
}

/// Reads a JSON document.
pub fn parse_json(text: &str) -> (r: Option<Json>)
    ensures
        r == json_document(text@),
{
    match json_from_str(text) {
        Ok(value) => Some(json_of_value(value)),
        Err(_) => None,
    }
}

/// The first member with a key.
pub open spec fn member_of(members: Seq<(String, Json)>, key: Seq<char>) -> Option<Json>
    decreases members.len(),
{
    if members.len() == 0 {
        None
    } else if members[0].0@ == key {
        Some(members[0].1)
    } else {
        member_of(members.skip(1), key)
    }
}

/// The text that an object has under a key, where it has one there.
pub open spec fn text_member(value: Json, key: Seq<char>) -> Option<Seq<char>> {
    match value {
        Json::Object(members) => match member_of(members@, key) {
            Some(Json::Text(s)) => Some(s@),
            _ => None,
        },
        _ => None,
    }
}

impl Json {
    /// The text that an object has under a key.
    pub fn text_at(&self, key: &str) -> (r: Option<&str>)
        ensures
            opt_str(r) == text_member(*self, key@),
    {
        match self {
            Json::Object(members) => {
                let mut i: usize = 0;
                assert(members@.skip(0) =~= members@);
                while i < members.len()
                    invariant
                        i <= members@.len(),
                        member_of(members@.skip(i as int), key@) == member_of(members@, key@),
                        *self == Json::Object(*members),
                    decreases members@.len() - i,
                {
                    assert(members@.skip(i as int)[0] == members@[i as int]);
                    assert(members@.skip(i as int).skip(1) =~= members@.skip(i + 1));
                    if text_eq(members[i].0.as_str(), key) {
                        return match &members[i].1 {
                            Json::Text(s) => Some(s.as_str()),
                            _ => None,
                        };
                    }
                    i += 1;
                }
                None
            },
            _ => None,
        }
    }
}

/// Whether an object's first member with a key is a text.
pub open spec fn says(members: Seq<(String, Json)>, key: Seq<char>, text: Seq<char>) -> bool {
    exists|i: int|
        {
            &&& 0 <= i < members.len()
            &&& (#[trigger] members[i]).0@ == key
            &&& members[i].1 matches Json::Text(s) && s@ == text
            &&& forall|j: int| 0 <= j < i ==> (#[trigger] members[j]).0@ != key
        }
}

/// The text of an object under a key is that of its first member with the key, where that is a
/// text. Where the object has no member with the key there is none, and neither where the first is
/// no text.
pub proof fn members_are_found_by_their_key(value: Json, key: Seq<char>)
    ensures
        text_member(value, key) matches Some(text) ==> value is Object && says(
            value->Object_0@,
            key,
            text,
        ),
        text_member(value, key) is None && value is Object ==> forall|text: Seq<char>|
            !says(value->Object_0@, key, text),
{
    if let Json::Object(members) = value {
        lemma_member_of(members@, key);
        if let Some(text) = text_member(value, key) {
            let i = choose|i: int|
                {
                    &&& 0 <= i < members@.len()
                    &&& (#[trigger] members@[i]).0@ == key
                    &&& Some(members@[i].1) == member_of(members@, key)
                    &&& forall|j: int| 0 <= j < i ==> (#[trigger] members@[j]).0@ != key
                };
            assert(members@[i].0@ == key);
        } else {
            assert forall|text: Seq<char>| !says(members@, key, text) by {
                if says(members@, key, text) {
                    let i = choose|i: int|
                        {
                            &&& 0 <= i < members@.len()
                            &&& (#[trigger] members@[i]).0@ == key
                            &&& members@[i].1 matches Json::Text(s) && s@ == text
                            &&& forall|j: int| 0 <= j < i ==> (#[trigger] members@[j]).0@ != key
                        };
                    assert(members@[i].0@ == key);
                    if let Some(found) = member_of(members@, key) {
                        let k = choose|k: int|
                            {
                                &&& 0 <= k < members@.len()
                                &&& (#[trigger] members@[k]).0@ == key
                                &&& Some(members@[k].1) == member_of(members@, key)
                                &&& forall|j: int|
                                    0 <= j < k ==> (#[trigger] members@[j]).0@ != key
                            };
                        assert(members@[k].0@ == key);
                        assert(i == k);
                    }
                }
            }
        }
    }
}

proof fn lemma_member_of(members: Seq<(String, Json)>, key: Seq<char>)
    ensures
        member_of(members, key) is None ==> forall|j: int|
            0 <= j < members.len() ==> (#[trigger] members[j]).0@ != key,
        member_of(members, key) is Some ==> exists|i: int|
            {
                &&& 0 <= i < members.len()
                &&& (#[trigger] members[i]).0@ == key
                &&& Some(members[i].1) == member_of(members, key)
                &&& forall|j: int| 0 <= j < i ==> (#[trigger] members[j]).0@ != key
            },
    decreases members.len(),
{
    if members.len() > 0 && members[0].0@ != key {
        let rest = members.skip(1);
        lemma_member_of(rest, key);
        assert forall|j: int| 0 <= j < rest.len() implies rest[j] == members[j + 1] by {}
        if member_of(rest, key) is Some {
            let i = choose|i: int|
                {
                    &&& 0 <= i < rest.len()
                    &&& (#[trigger] rest[i]).0@ == key
                    &&& Some(rest[i].1) == member_of(rest, key)
                    &&& forall|j: int| 0 <= j < i ==> (#[trigger] rest[j]).0@ != key
                };
            assert(members[i + 1].0@ == key);
            assert forall|j: int| 0 <= j < i + 1 implies (#[trigger] members[j]).0@ != key by {
                if j > 0 {
                    assert(rest[j - 1] == members[j]);
                }
            }
        } else {
            assert forall|j: int| 0 <= j < members.len() implies (
            #[trigger] members[j]).0@ != key by {
                if j > 0 {
                    assert(rest[j - 1] == members[j]);
                }
            }
        }
    }
}

} // verus!
