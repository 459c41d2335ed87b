//! Decoding one raw event into a labelled record.
//!
//! An event comes as a JSON value. This module looks at the shape of the
//! value and gives the event its label and its payload.

use crate::chain::{BlockNumber, EventInfo, Phase};
use serde_json::Value;
use vstd::prelude::*;
use vstd::string::StringExecFns;

verus! {

/// What a JSON value holds, as far as decoding an event looks into it.
pub enum JsonShape {
    Null,
    /// A string, with its text.
    Text(Seq<char>),
    /// An object, with its entries in the order in which the object yields them.
    Object(Seq<(String, Value)>),
    /// A boolean, a number or an array.
    Other,
}

/// What a JSON value holds.
pub uninterp spec fn json_shape(v: Value) -> JsonShape;

/// The text that `Debug` formatting gives for a JSON value.
pub uninterp spec fn json_debug(v: Value) -> Seq<char>;

/// The entries of a JSON object; nothing for a value that is not an object.
pub open spec fn json_object(v: Value) -> Option<Seq<(String, Value)>> {
    match json_shape(v) {
        JsonShape::Object(entries) => Some(entries),
        _ => None,
    }
}

/// The text of a JSON string; nothing for a value that is not a string.
pub open spec fn json_string(v: Value) -> Option<Seq<char>> {
    match json_shape(v) {
        JsonShape::Text(text) => Some(text),
        _ => None,
    }
}

/// Whether a JSON value is null.
pub open spec fn json_is_null(v: Value) -> bool {
    json_shape(v) is Null
}

/// Tells the `Object` variant of `serde_json::Value` from the others. An
/// object gives up its entries, each moved out as the map's owning iterator
/// yields it; any other value is handed back as it came.
#[verifier::external_body]
fn value_into_object(v: Value) -> (r: Result<Vec<(String, Value)>, Value>)
    ensures
        match r {
            Ok(entries) => json_shape(v) == JsonShape::Object(entries@),
            Err(other) => !(json_shape(v) is Object) && other == v,
        },
{
    match v {
        Value::Object(map) => Ok(map.into_iter().collect()),
        other => Err(other),
    }
}

/// The number of entries of a `serde_json::Value` that is an object
/// (`Map::len`); nothing for a value of another variant.
#[verifier::external_body]
fn value_object_len(v: &Value) -> (r: Option<usize>)
    ensures
        match r {
            Some(n) => json_shape(*v) is Object && json_shape(*v)->Object_0.len() == n,
            None => !(json_shape(*v) is Object),
        },
{
    match v {
        Value::Object(map) => Some(map.len()),
        _ => None,
    }
}

/// Tells the `String` variant of `serde_json::Value` from the others. A
/// string gives up its text; any other value is handed back as it came.
#[verifier::external_body]
fn value_into_string(v: Value) -> (r: Result<String, Value>)
    ensures
        match r {
            Ok(text) => json_shape(v) == JsonShape::Text(text@),
            Err(other) => !(json_shape(v) is Text) && other == v,
        },
{
    match v {
        Value::String(text) => Ok(text),
        other => Err(other),
    }
}

/// Formats a `serde_json::Value` with its `Debug` impl.
#[verifier::external_body]
fn value_debug(v: &Value) -> (r: String)
    ensures
        r@ == json_debug(*v),
{
    format!("{:?}", v)
}

/// `serde_json::Value::Null`.
#[verifier::external_body]
fn null_value() -> (r: Value)
    ensures
        json_shape(r) is Null,
{
    Value::Null
}

/// The label of a decoded event.
///
/// A well-formed event is an object with one entry, named after the module,
/// whose value is either an object with one entry, named after the event, or
/// a string, the event's name. Its label is `<module>.<name>`. Anything else
/// gets a label that says what was wrong.
pub open spec fn event_label(encoded: Result<Value, String>) -> Seq<char> {
    match encoded {
        Err(reason) => "Unknown event: "@ + reason@,
        Ok(v) => match json_object(v) {
            Some(outer) if outer.len() == 1 => {
                let module = outer[0].0@;
                let inner = outer[0].1;
                match json_object(inner) {
                    Some(fields) if fields.len() == 1 => module + "."@ + fields[0].0@,
                    _ => match json_string(inner) {
                        Some(name) => module + "."@ + name,
                        None => "Invalid "@ + module + " event type: "@ + json_debug(inner)
                            + "."@,
                    },
                }
            },
            _ => "Invalid runtime event type."@,
        },
    }
}

/// The payload of a decoded event; `None` stands for JSON null.
///
/// An event with fields carries them; an event without fields, or one that
/// could not be encoded, carries null; a malformed event carries the part
/// that was malformed.
pub open spec fn event_payload(encoded: Result<Value, String>) -> Option<Value> {
    match encoded {
        Err(_) => None,
        Ok(v) => match json_object(v) {
            Some(outer) if outer.len() == 1 => {
                let inner = outer[0].1;
                match json_object(inner) {
                    Some(fields) if fields.len() == 1 => Some(fields[0].1),
                    _ => match json_string(inner) {
                        Some(_) => None,
                        None => Some(inner),
                    },
                }
            },
            _ => Some(v),
        },
    }
}

impl EventInfo {
    /// Decodes one event of a block. `encoded` is the event as a JSON value,
    /// or the reason why it could not be encoded. Decoding never fails: what
    /// cannot be decoded gets a label that says so.
    pub fn new(
        block: BlockNumber,
        number: u32,
        phase: Phase,
        encoded: Result<Value, String>,
    ) -> (r: EventInfo)
        ensures
            r.block == block,
            r.number == number,
            r.phase == phase,
            r.name@ == event_label(encoded),
            match event_payload(encoded) {
                Some(payload) => r.value == payload,
                None => json_is_null(r.value),
            },
    {
        let (name, value) = match encoded {
            Err(reason) => {
                let mut name = String::from_str("Unknown event: ");
                name.append(reason.as_str());
                (name, null_value())
            },
            Ok(v) => match value_object_len(&v) {
                Some(1) => match value_into_object(v) {
                    Ok(mut outer) => {
                        let (module, inner) = outer.pop().unwrap();
                        EventInfo::decode_module_event(module, inner)
                    },
                    Err(other) => (String::from_str("Invalid runtime event type."), other),
                },
                _ => (String::from_str("Invalid runtime event type."), v),
            },
        };
        EventInfo { block, number, phase, name, value }
    }

    /// Decodes what stands under the module's name in an encoded event.
    fn decode_module_event(module: String, inner: Value) -> (r: (String, Value))
        ensures
            r.0@ == match json_object(inner) {
                Some(fields) if fields.len() == 1 => module@ + "."@ + fields[0].0@,
                _ => match json_string(inner) {
                    Some(name) => module@ + "."@ + name,
                    None => "Invalid "@ + module@ + " event type: "@ + json_debug(inner) + "."@,
                },
            },
            match json_object(inner) {
                Some(fields) if fields.len() == 1 => r.1 == fields[0].1,
                _ => match json_string(inner) {
                    Some(_) => json_is_null(r.1),
                    None => r.1 == inner,
                },
            },
    {
        match value_object_len(&inner) {
            Some(1) => match value_into_object(inner) {
                Ok(mut fields) => {
                    let (name, value) = fields.pop().unwrap();
                    let mut label = module;
                    label.append(".");
                    label.append(name.as_str());
                    (label, value)
                },
                Err(other) => EventInfo::invalid_module_event(module, other),
            },
            Some(_) => EventInfo::invalid_module_event(module, inner),
            None => match value_into_string(inner) {
                Ok(name) => {
                    let mut label = module;
                    label.append(".");
                    label.append(name.as_str());
                    (label, null_value())
                },
                Err(other) => EventInfo::invalid_module_event(module, other),
            },
        }
    }

    /// The record of an event whose shape under the module's name is unknown.
    fn invalid_module_event(module: String, inner: Value) -> (r: (String, Value))
        ensures
            r.0@ == "Invalid "@ + module@ + " event type: "@ + json_debug(inner) + "."@,
            r.1 == inner,
    {
        let mut label = String::from_str("Invalid ");
        label.append(module.as_str());
        label.append(" event type: ");
        label.append(value_debug(&inner).as_str());
        label.append(".");
        (label, inner)
    }
}

} // verus!
