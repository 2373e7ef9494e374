//! Values as the bytes of messages.

use vstd::prelude::*;

use crate::json::Json;
use crate::json::JsonNumber;
use crate::json::JsonView;
use crate::json::NumberView;
use crate::lsp::wire;
use crate::lsp::wire::HeaderReader;
use crate::lsp::wire::HeaderStep;

use ::serde_json::Error;
use ::serde_json::Value;

verus! {

/// A value of the `serde_json` crate.
#[verifier::external_type_specification]
#[verifier::external_body]
pub struct ExValue(Value);

/// The error of the `serde_json` crate.
#[verifier::external_type_specification]
#[verifier::external_body]
pub struct ExError(Error);

/// What a value of the `serde_json` crate holds.
pub uninterp spec fn held(value: Value) -> JsonView;

/// What the bytes of a message stand for, where `serde_json::from_slice` takes
/// them.
pub uninterp spec fn parsed(bytes: Seq<u8>) -> Option<JsonView>;

/// What a value of the `serde_json` crate holds that was made of this value: the
/// crate keeps the members of an object in the order of their keys, and the last
/// one of each key.
pub uninterp spec fn stored(json: JsonView) -> JsonView;

/// The text that `Value::to_string` gives for a value that holds this.
pub uninterp spec fn rendered(json: JsonView) -> Seq<char>;

/// Calls `serde_json::from_slice` for a `serde_json::Value`: whether the bytes
/// are a value, and which one, is a function of the bytes.
#[verifier::external_body]
fn parse_value(bytes: &[u8]) -> (value: Result<Value, Error>)
    ensures
        match value {
            Ok(value) => parsed(bytes@) == Some(held(value)),
            Err(_) => parsed(bytes@) is None,
        },
{
    ::serde_json::from_slice(bytes)
}

/// Reads what a `serde_json::Value` holds.
#[verifier::external_body]
fn from_value(value: &Value) -> (json: Json)
    ensures
        json@ == held(*value),
{
    match value {
        Value::Null => Json::Null,
        Value::Bool(b) => Json::Bool(*b),
        Value::Number(n) => Json::Number(match (n.as_u64(), n.as_i64()) {
            (Some(n), _) => JsonNumber::PosInt(n),
            (None, Some(n)) => JsonNumber::NegInt(n),
            (None, None) => JsonNumber::Float(n.to_string()),
        }),
        Value::String(text) => Json::Str(text.clone()),
        Value::Array(items) => Json::Array(items.iter().map(from_value).collect()),
        Value::Object(members) => {
            Json::Object(members.iter().map(|(key, v)| (key.clone(), from_value(v))).collect())
        }
    }
}

/// Whether all numbers in a value are whole numbers, the negative ones and no
/// others among those with a sign.
pub open spec fn is_whole(json: JsonView) -> bool
    decreases json,
{
    match json {
        JsonView::Number(NumberView::NegInt(n)) => n < 0,
        JsonView::Number(NumberView::Float(_)) => false,
        JsonView::Array(items) => forall|i: int|
            0 <= i < items.len() ==> is_whole(#[trigger] items[i]),
        JsonView::Object(members) => forall|i: int|
            0 <= i < members.len() ==> is_whole((#[trigger] members[i]).1),
        _ => true,
    }
}

/// Whether arrays and objects stand at most so many deep in a value.
pub open spec fn nests_within(json: JsonView, levels: nat) -> bool
    decreases json,
{
    match json {
        JsonView::Array(items) => levels > 0 && forall|i: int|
            0 <= i < items.len() ==> nests_within(#[trigger] items[i], (levels - 1) as nat),
        JsonView::Object(members) => levels > 0 && forall|i: int|
            0 <= i < members.len() ==> nests_within(
                (#[trigger] members[i]).1,
                (levels - 1) as nat,
            ),
        _ => true,
    }
}

/// Whether a text comes before another in the order of its characters.
pub open spec fn comes_before(a: Seq<char>, b: Seq<char>) -> bool
    decreases a.len(),
{
    if b.len() == 0 {
        false
    } else if a.len() == 0 {
        true
    } else if a[0] == b[0] {
        comes_before(a.drop_first(), b.drop_first())
    } else {
        a[0] < b[0]
    }
}

/// Whether the keys of every object in a value ascend.
pub open spec fn has_ascending_keys(json: JsonView) -> bool
    decreases json,
{
    match json {
        JsonView::Array(items) => forall|i: int|
            0 <= i < items.len() ==> has_ascending_keys(#[trigger] items[i]),
        JsonView::Object(members) => {
            &&& forall|i: int|
                0 <= i < members.len() ==> has_ascending_keys((#[trigger] members[i]).1)
            &&& forall|i: int, j: int|
                0 <= i < j < members.len() ==> comes_before(
                    (#[trigger] members[i]).0,
                    (#[trigger] members[j]).0,
                )
        },
        _ => true,
    }
}

/// Whether a value has whole numbers only and is not deeper than
/// `serde_json::from_slice` reads.
pub open spec fn reads_back(json: JsonView) -> bool {
    is_whole(json) && nests_within(json, 127)
}

/// Makes a `serde_json::Value` of a value: a function of the value. A value of
/// whole numbers whose keys ascend is kept as it is, by a `serde_json::Map` too.
/// Any value keeps its whole numbers, and gets no deeper.
#[verifier::external_body]
fn to_value(json: &Json) -> (value: Value)
    ensures
        held(value) == stored(json@),
        is_whole(json@) && has_ascending_keys(json@) ==> held(value) == json@,
        reads_back(json@) ==> reads_back(held(value)),
{
    match json {
        Json::Null => Value::Null,
        Json::Bool(b) => Value::Bool(*b),
        Json::Number(JsonNumber::PosInt(n)) => Value::from(*n),
        Json::Number(JsonNumber::NegInt(n)) => Value::from(*n),
        Json::Number(JsonNumber::Float(text)) => text.parse().map_or(Value::Null, Value::Number),
        Json::Str(text) => Value::String(text.clone()),
        Json::Array(items) => Value::Array(items.iter().map(to_value).collect()),
        Json::Object(members) => {
            Value::Object(members.iter().map(|(key, v)| (key.clone(), to_value(v))).collect())
        }
    }
}

/// Calls `Value::to_string`: the text is a function of what the value holds. Where
/// its numbers are whole and it is not too deep, `serde_json::from_slice` reads the
/// text back. Of other numbers, which may be read back rounded, nothing is said.
#[verifier::external_body]
fn value_text(value: &Value) -> (text: String)
    ensures
        text@ == rendered(held(*value)),
        reads_back(held(*value)) ==> parsed(vstd::utf8::encode_utf8(text@)) == Some(
            held(*value),
        ),
{
    value.to_string()
}

/// The value that the bytes of a message stand for; nothing where they are no
/// value.
pub fn decode(body: &[u8]) -> (json: Option<Json>)
    ensures
        json is Some <==> parsed(body@) is Some,
        json matches Some(value) ==> parsed(body@) == Some(value@),
{
    match parse_value(body) {
        Ok(value) => Some(from_value(&value)),
        Err(_) => None,
    }
}

/// The text of a message. It decodes to the value it was made of, where the
/// numbers are whole, the keys ascend and the value is not too deep; where the
/// keys do not ascend, to the value with its members as they are stored.
pub fn encode(json: &Json) -> (text: String)
    ensures
        text@ == rendered(stored(json@)),
        reads_back(json@) ==> parsed(vstd::utf8::encode_utf8(text@)) == Some(stored(json@)),
        is_whole(json@) && has_ascending_keys(json@) ==> stored(json@) == json@,
{
    value_text(&to_value(json))
}

/// A message with its header, as it is sent. The header reads as the length of the
/// body, and the bytes behind it, so many, decode to the value, where its numbers
/// are whole, its keys ascend and it is not too deep.
pub fn encode_message(json: &Json) -> (message: String)
    ensures
        message@ == wire::framed(rendered(stored(json@))),
        ({
            let body = vstd::utf8::encode_utf8(rendered(stored(json@)));
            let line = wire::length_line(body.len());
            let (reader, step) = HeaderReader::start().after(line);
            &&& vstd::utf8::encode_utf8(message@) == vstd::utf8::encode_utf8(line)
                + vstd::utf8::encode_utf8("\r\n"@) + body
            &&& step == HeaderStep::More
            &&& reader.after("\r\n"@) == (reader, HeaderStep::Body(body.len() as usize))
            &&& body.len() <= usize::MAX
            &&& reads_back(json@) ==> parsed(body) == Some(stored(json@))
            &&& is_whole(json@) && has_ascending_keys(json@) ==> stored(json@) == json@
        }),
{
    let body = encode(json);
    proof {
        wire::framed_message_reads_back(body@);
    }
    wire::frame_message(&body)
}

} // verus!
