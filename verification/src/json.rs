//! JSON values, as far as the logic reads them.

use crate::assoc::{find_member, member};
use vstd::prelude::*;

verus! {

/// A JSON value. A number is held as it is written, an array or an object by its
/// JSON text.
#[derive(Clone, Debug, PartialEq)]
pub enum JsonValue {
    Null,
    Bool(bool),
    Number(String),
    Text(String),
    Compound(String),
}

impl JsonValue {
    /// A copy of the value.
    pub fn copied(&self) -> (copy: JsonValue)
        ensures
            copy == *self,
    {
        match self {
            JsonValue::Null => JsonValue::Null,
            JsonValue::Bool(flag) => JsonValue::Bool(*flag),
            JsonValue::Number(text) => JsonValue::Number(text.clone()),
            JsonValue::Text(text) => JsonValue::Text(text.clone()),
            JsonValue::Compound(text) => JsonValue::Compound(text.clone()),
        }
    }
}

/// A copy of named values.
pub fn copy_members(members: &Vec<(String, JsonValue)>) -> (copies: Vec<(String, JsonValue)>)
    ensures
        copies@ == members@,
{
    let mut copies: Vec<(String, JsonValue)> = Vec::new();
    let mut i: usize = 0;
    while i < members.len()
        invariant
            i <= members.len(),
            copies@ == members@.take(i as int),
        decreases members.len() - i,
    {
        assert(members@.take(i + 1) =~= members@.take(i as int).push(members@[i as int]));
        copies.push((members[i].0.clone(), members[i].1.copied()));
        i = i + 1;
    }
    assert(members@.take(members@.len() as int) =~= members@);
    copies
}

/// The text of a value, where it is one.
pub open spec fn text_of(value: Option<JsonValue>) -> Option<Seq<char>> {
    match value {
        Some(JsonValue::Text(text)) => Some(text@),
        _ => None,
    }
}

/// The flag of a value, where it is one.
pub open spec fn flag_of(value: Option<JsonValue>) -> Option<bool> {
    match value {
        Some(JsonValue::Bool(flag)) => Some(flag),
        _ => None,
    }
}

/// The text under a name, where there is one.
pub fn find_text<'a>(members: &'a Vec<(String, JsonValue)>, name: &str) -> (text: Option<&'a str>)
    ensures
        match text {
            Some(value) => text_of(member(members@, name@)) == Some(value@),
            None => text_of(member(members@, name@)) is None,
        },
{
    match find_member(members, name) {
        Some(JsonValue::Text(text)) => Some(text.as_str()),
        _ => None,
    }
}

/// The flag under a name, where there is one.
pub fn find_flag(members: &Vec<(String, JsonValue)>, name: &str) -> (flag: Option<bool>)
    ensures
        flag == flag_of(member(members@, name@)),
{
    match find_member(members, name) {
        Some(JsonValue::Bool(flag)) => Some(*flag),
        _ => None,
    }
}

/// What a parsed JSON value holds.
#[verifier::ext_equal]
pub enum JsonNode {
    Null,
    Flag(bool),
    /// A number, by its printed form.
    Number(Seq<char>),
    Text(Seq<char>),
    List(Seq<JsonNode>),
    Object(Map<Seq<char>, JsonNode>),
}

#[verifier::external_type_specification]
#[verifier::external_body]
pub struct ExValue(serde_json::Value);

/// What a value holds.
pub uninterp spec fn json_node(value: serde_json::Value) -> JsonNode;

/// The value that parsing a text as JSON gives, or `None` where it is not JSON.
pub uninterp spec fn parsed_json(text: Seq<char>) -> Option<JsonNode>;

/// Parses JSON: `serde_json::from_str`. The result depends on the text alone.
#[verifier::external_body]
fn parse_json(text: &str) -> (value: Option<serde_json::Value>)
    ensures
        match value {
            Some(inner) => parsed_json(text@) == Some(json_node(inner)),
            None => parsed_json(text@) is None,
        },
{
    serde_json::from_str(text).ok()
}

/// `serde_json::Value::get` with a string: the member of an object.
#[verifier::external_body]
fn json_get<'a>(value: &'a serde_json::Value, name: &str) -> (found: Option<&'a serde_json::Value>)
    ensures
        match found {
            Some(inner) => has_json_member(json_node(*value), name@) && json_node(*inner)
                == json_node(*value)->Object_0[name@],
            None => !has_json_member(json_node(*value), name@),
        },
{
    value.get(name)
}

/// `serde_json::Value::as_str`: the text of a string.
pub assume_specification[ serde_json::Value::as_str ](value: &serde_json::Value) -> (text: Option<&str>)
    ensures
        match text {
            Some(inner) => json_node(*value) == JsonNode::Text(inner@),
            None => json_node(*value) !is Text,
        },
;

/// Whether a value is an object with a member.
pub open spec fn has_json_member(node: JsonNode, name: Seq<char>) -> bool {
    node is Object && node->Object_0.contains_key(name)
}

/// The text of a member of a JSON text: `None` where the text is not JSON, where
/// it is not an object, or where the member is not a string.
pub open spec fn json_member_text(text: Seq<char>, name: Seq<char>) -> Option<Seq<char>> {
    match parsed_json(text) {
        Some(node) => if has_json_member(node, name) {
            match node->Object_0[name] {
                JsonNode::Text(inner) => Some(inner),
                _ => None,
            }
        } else {
            None
        },
        None => None,
    }
}

/// Parses JSON and reads the text of one member of it.
pub fn parse_member_text(text: &str, name: &str) -> (found: Option<String>)
    ensures
        crate::text::view_of(found) == json_member_text(text@, name@),
{
    match parse_json(text) {
        Some(value) => match json_get(&value, name) {
            Some(inner) => match inner.as_str() {
                Some(content) => Some(content.to_owned()),
                None => None,
            },
            None => None,
        },
        None => None,
    }
}

/// Whether a text is JSON.
pub open spec fn is_json_text(text: Seq<char>) -> bool {
    parsed_json(text) is Some
}

/// Whether a text is JSON.
pub fn is_json(text: &str) -> (valid: bool)
    ensures
        valid == is_json_text(text@),
{
    parse_json(text).is_some()
}

} // verus!
