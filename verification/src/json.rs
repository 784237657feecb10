//! JSON documents, as `serde_json` holds them.
//!
//! Parsing, building and printing are `serde_json`'s. This module declares
//! its document type, gives a document a mathematical model, and states what
//! the few calls that the library makes return. Nothing in this module is
//! proved: every contract here is taken from `serde_json`'s source, and
//! holds of `serde_json` with its default features, where an object keeps
//! its members in the order of their names.

use vstd::prelude::*;

verus! {

/// `serde_json::Value`, a parsed JSON document, opaque to the verifier.
#[verifier::external_type_specification]
#[verifier::external_body]
pub struct ExValue(serde_json::Value);

/// `serde_json::Error`, opaque to the verifier.
#[verifier::external_type_specification]
#[verifier::external_body]
pub struct ExError(serde_json::Error);

/// A JSON number, as `serde_json` holds it.
pub enum JsonNumber {
    /// An integer that is not negative.
    PosInt(u64),
    /// A negative integer.
    NegInt(i64),
    /// A finite number in binary64 format, given by its 64 bits.
    Float(u64),
}

/// The model of a JSON document: the variants of `serde_json::Value`, with
/// mathematical sequences and maps in place of vectors and maps.
pub enum JsonValue {
    /// `null`.
    Null,
    /// `true` or `false`.
    Bool(bool),
    /// A number.
    Number(JsonNumber),
    /// A string, by its characters.
    String(Seq<char>),
    /// An array, by its items in their order.
    Array(Seq<JsonValue>),
    /// An object, by its members under their names.
    Object(Map<Seq<char>, JsonValue>),
}

impl JsonValue {
    /// The member of an object under `key`; `None` where there is no such
    /// member or the document is no object.
    pub open spec fn member(self, key: Seq<char>) -> Option<JsonValue> {
        match self {
            JsonValue::Object(members) => if members.contains_key(key) {
                Some(members[key])
            } else {
                None
            },
            _ => None,
        }
    }
}

/// The model of a document.
pub uninterp spec fn json_model(value: serde_json::Value) -> JsonValue;

/// The document that `serde_json::from_slice` reads from `bytes`; `None`
/// where it reports an error.
pub uninterp spec fn json_parse(bytes: Seq<u8>) -> Option<JsonValue>;

/// The compact JSON text that `serde_json` prints for a document.
pub uninterp spec fn json_text(value: JsonValue) -> Seq<char>;

/// Calls `serde_json::from_slice` to read one document. What it accepts is
/// not stated here, only named: the call succeeds exactly where
/// [`json_parse`] gives a document, and then returns that document.
#[verifier::external_body]
pub(crate) fn parse_document(bytes: &[u8]) -> (parsed: Result<serde_json::Value, serde_json::Error>)
    ensures
        match parsed {
            Ok(value) => json_parse(bytes@) == Some(json_model(value)),
            Err(_) => json_parse(bytes@) is None,
        },
{
    serde_json::from_slice::<serde_json::Value>(bytes)
}

/// Calls `Value::get` with a string index: the member of an object under
/// `key`, and `None` where the object has no such member or the document is
/// no object.
#[verifier::external_body]
pub(crate) fn member_of<'a>(value: &'a serde_json::Value, key: &str) -> (member: Option<
    &'a serde_json::Value,
>)
    ensures
        match member {
            Some(found) => json_model(*value).member(key@) == Some(json_model(*found)),
            None => json_model(*value).member(key@) is None,
        },
{
    value.get(key)
}

/// Calls `Value::as_str`: the text of a JSON string, and `None` for any
/// other document.
#[verifier::external_body]
pub(crate) fn text_of<'a>(value: &'a serde_json::Value) -> (text: Option<&'a str>)
    ensures
        match text {
            Some(t) => json_model(*value) == JsonValue::String(t@),
            None => !(json_model(*value) is String),
        },
{
    value.as_str()
}

/// Calls `Value::is_object`: whether the document is a JSON object.
#[verifier::external_body]
pub(crate) fn is_object(value: &serde_json::Value) -> (object: bool)
    ensures
        object == (json_model(*value) is Object),
{
    value.is_object()
}

/// Whether `serde_json` prints every character of `text` as it stands: none
/// of them is a control character below U+0020, a quote or a backslash.
pub open spec fn printed_verbatim(text: Seq<char>) -> bool {
    forall|i: int|
        0 <= i < text.len() ==> (#[trigger] text[i]) >= ' ' && text[i] != '"' && text[i] != '\\'
}

/// `text` between two quote characters.
pub open spec fn quoted(text: Seq<char>) -> Seq<char> {
    seq!['"'] + text + seq!['"']
}

/// Calls `to_string` on a document, which prints it through its `Display`
/// impl as compact JSON. The text is not stated here, only named, with one
/// exception: a JSON string with no character to escape is printed as it
/// stands, between two quote characters.
#[verifier::external_body]
pub(crate) fn print_document(value: &serde_json::Value) -> (text: String)
    ensures
        text@ == json_text(json_model(*value)),
        json_model(*value) matches JsonValue::String(s) ==> (printed_verbatim(s) ==> text@
            == quoted(s)),
{
    value.to_string()
}

/// Calls `Value::from` on a string slice: the JSON string with that text.
#[verifier::external_body]
pub(crate) fn string_document(text: &str) -> (value: serde_json::Value)
    ensures
        json_model(value) == JsonValue::String(text@),
{
    serde_json::Value::from(text)
}

/// Calls `Value::from` on a `bool`: the JSON boolean.
#[verifier::external_body]
pub(crate) fn bool_document(flag: bool) -> (value: serde_json::Value)
    ensures
        json_model(value) == JsonValue::Bool(flag),
{
    serde_json::Value::from(flag)
}

/// Calls `Value::from` on a `u64`: the JSON number that holds it as an
/// integer.
#[verifier::external_body]
pub(crate) fn unsigned_document(number: u64) -> (value: serde_json::Value)
    ensures
        json_model(value) == JsonValue::Number(JsonNumber::PosInt(number)),
{
    serde_json::Value::from(number)
}

/// Calls `Value::from` on a vector of documents: the JSON array of them, in
/// their order.
#[verifier::external_body]
pub(crate) fn array_document(items: Vec<serde_json::Value>) -> (value: serde_json::Value)
    ensures
        json_model(value) == JsonValue::Array(
            items@.map_values(|item: serde_json::Value| json_model(item)),
        ),
{
    serde_json::Value::from(items)
}

/// Wraps `Map::new` in a document: the JSON object without members.
#[verifier::external_body]
pub(crate) fn empty_object() -> (value: serde_json::Value)
    ensures
        json_model(value) == JsonValue::Object(Map::empty()),
{
    serde_json::Value::Object(serde_json::Map::new())
}

/// Calls `Map::insert` on the members of an object: the member under `key`
/// is now `value`, whether or not there was one, and the others are as
/// before.
#[verifier::external_body]
pub(crate) fn insert_member(object: &mut serde_json::Value, key: &str, value: serde_json::Value)
    requires
        json_model(*old(object)) is Object,
    ensures
        json_model(*final(object)) == JsonValue::Object(
            json_model(*old(object))->Object_0.insert(key@, json_model(value)),
        ),
{
    if let serde_json::Value::Object(members) = object {
        members.insert(key.to_owned(), value);
    }
}

} // verus!
