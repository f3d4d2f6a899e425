use vstd::prelude::*;

use crate::text::str_eq;

verus! {

/// A JSON document as plain data. Numbers carry their unsigned 64-bit
/// value where they have one, and nothing otherwise: the specification
/// schema needs only unsigned integers.
pub enum JsonValue {
    Null,
    Bool(bool),
    Number(Option<u64>),
    Text(String),
    Array(Vec<JsonValue>),
    Object(Vec<(String, JsonValue)>),
}

/// The document a text denotes, where it is well-formed JSON: a function
/// of the text alone.
pub uninterp spec fn json_document(text: Seq<char>) -> Option<JsonValue>;

/// Where in its input a JSON parse failed.
pub struct JsonSyntaxError {
    pub line: usize,
    pub column: usize,
    pub message: String,
}

#[verifier::external_type_specification]
#[verifier::external_body]
pub struct ExValue(serde_json::Value);

/// Converts a parsed document into the library's value type, variant for
/// variant; numbers through `serde_json::Number::as_u64`.
#[verifier::external_body]
fn value_to_json(value: serde_json::Value) -> JsonValue {
    match value {
        serde_json::Value::Null => JsonValue::Null,
        serde_json::Value::Bool(b) => JsonValue::Bool(b),
        serde_json::Value::Number(n) => JsonValue::Number(n.as_u64()),
        serde_json::Value::String(s) => JsonValue::Text(s),
        serde_json::Value::Array(items) => JsonValue::Array(
            items.into_iter().map(value_to_json).collect(),
        ),
        serde_json::Value::Object(members) => JsonValue::Object(
            members.into_iter().map(|(k, v)| (k, value_to_json(v))).collect(),
        ),
    }
}

/// Relies on `serde_json::from_str::<serde_json::Value>`: whether a text
/// is well-formed JSON, and which document it denotes, are functions of
/// the text alone; a failure carries its one-based line and column.
#[verifier::external_body]
pub(crate) fn parse_json(text: &str) -> (r: Result<JsonValue, JsonSyntaxError>)
    ensures
        (r is Ok) == (json_document(text@) is Some),
        (r matches Ok(v) ==> json_document(text@) == Some(v)),
{
    match serde_json::from_str::<serde_json::Value>(text) {
        Ok(value) => Ok(value_to_json(value)),
        Err(error) => Err(
            JsonSyntaxError {
                line: error.line(),
                column: error.column(),
                message: error.to_string(),
            },
        ),
    }
}

/// The value under a key among an object's members, first occurrence
/// winning.
pub open spec fn member_lookup(members: Seq<(String, JsonValue)>, key: Seq<char>) -> Option<
    JsonValue,
>
    decreases members.len(),
{
    if members.len() == 0 {
        None
    } else if members[0].0@ == key {
        Some(members[0].1)
    } else {
        member_lookup(members.drop_first(), key)
    }
}

pub proof fn lemma_member_lookup(members: Seq<(String, JsonValue)>, key: Seq<char>)
    ensures
        match member_lookup(members, key) {
            Some(v) => exists|i: int|
                0 <= i < members.len() && (#[trigger] members[i]).0@ == key && members[i].1 == v
                    && (forall|j: int| 0 <= j < i ==> (#[trigger] members[j]).0@ != key),
            None => forall|j: int| 0 <= j < members.len() ==> (#[trigger] members[j]).0@ != key,
        },
    decreases members.len(),
{
    if members.len() > 0 && members[0].0@ != key {
        lemma_member_lookup(members.drop_first(), key);
        assert forall|j: int| #![trigger members[j]] 1 <= j < members.len() implies members[j]
            == members.drop_first()[j - 1] by {}
        match member_lookup(members.drop_first(), key) {
            Some(v) => {
                let i = choose|i: int|
                    0 <= i < members.drop_first().len() && (#[trigger] members.drop_first()[
                        i
                    ]).0@ == key && members.drop_first()[i].1 == v && (forall|j: int|
                        0 <= j < i ==> (#[trigger] members.drop_first()[j]).0@ != key);
                assert(members[i + 1].0@ == key && members[i + 1].1 == v);
                assert(forall|j: int| 0 <= j < i + 1 ==> (#[trigger] members[j]).0@ != key);
            },
            None => {},
        }
    }
}

/// Looks a key up among an object's members.
pub fn object_get<'a>(members: &'a Vec<(String, JsonValue)>, key: &str) -> (r: Option<
    &'a JsonValue,
>)
    ensures
        (r matches Some(v) ==> member_lookup(members@, key@) == Some(*v)),
        (r matches Some(v) ==> exists|i: int|
            0 <= i < members@.len() && #[trigger] members@[i].1 == *v),
        (r is None ==> member_lookup(members@, key@) is None),
{
    proof {
        lemma_member_lookup(members@, key@);
    }
    let mut i: usize = 0;
    while i < members.len()
        invariant
            i <= members@.len(),
            forall|j: int| 0 <= j < i ==> (#[trigger] members@[j]).0@ != key@,
        decreases members@.len() - i,
    {
        if str_eq(members[i].0.as_str(), key) {
            proof {
                lemma_member_lookup(members@, key@);
                match member_lookup(members@, key@) {
                    Some(v) => {
                        let w = choose|w: int|
                            0 <= w < members@.len() && (#[trigger] members@[w]).0@ == key@
                                && members@[w].1 == v && (forall|j: int|
                                0 <= j < w ==> (#[trigger] members@[j]).0@ != key@);
                        assert(w == i);
                    },
                    None => {
                        assert(false);
                    },
                }
            }
            return Some(&members[i].1);
        }
        i = i + 1;
    }
    proof {
        lemma_member_lookup(members@, key@);
        match member_lookup(members@, key@) {
            Some(_) => {
                let w = choose|w: int|
                    0 <= w < members@.len() && (#[trigger] members@[w]).0@ == key@;
                assert(false);
            },
            None => {},
        }
    }
    None
}

} // verus!
