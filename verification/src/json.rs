//! JSON values and objects, which `serde_json` parses, holds and writes.
//!
//! A value is known to the rest of the library by its compact text, an
//! object by its members in order. The two types, the four names and
//! the wrappers of this file are trusted: they state what `serde_json`
//! does and prove none of it.
use crate::entries::with_entry;
use serde_json::Value;
use vstd::prelude::*;

verus! {

/// `serde_json::Value`, a JSON value. Nothing of its inside is known
/// here.
#[verifier::external_type_specification]
#[verifier::external_body]
pub struct ExValue(Value);

/// `serde_json::Map`, the members of a JSON object. Nothing of its
/// inside is known here.
#[verifier::external_type_specification]
#[verifier::external_body]
#[verifier::reject_recursive_types(K)]
#[verifier::reject_recursive_types(V)]
pub struct ExObject<K, V>(serde_json::Map<K, V>);

/// What a JSON value holds, as its compact text: the characters that the
/// value's `Display` writes (no whitespace between tokens).
pub uninterp spec fn json_text(value: Value) -> Seq<char>;

/// What `serde_json::from_str` makes of a text: the compact text of the
/// value it parsed, or the message of the error it reported.
pub uninterp spec fn json_decoded(text: Seq<char>) -> Result<Seq<char>, Seq<char>>;

/// What `serde_json` writes for the string `s`, as a value and as the
/// key of a member: `s` in double quotes, with its escapes.
pub uninterp spec fn json_quoted(s: Seq<char>) -> Seq<char>;

/// What a JSON object holds: its members in order, each as its key and
/// the compact text of its value.
pub uninterp spec fn json_members(object: serde_json::Map<String, Value>) -> Seq<(Seq<char>, Seq<char>)>;

/// Whether a string is written out as it is: it holds no control
/// character, no double quote and no backslash.
pub open spec fn needs_no_escape(s: Seq<char>) -> bool {
    forall|i: int|
        0 <= i < s.len() ==> (#[trigger] s[i]) >= ' ' && s[i] != '"' && s[i] != '\\'
}

/// The compact text of the JSON string that holds `s`: `s` in double
/// quotes, as it is where nothing in it needs an escape.
pub open spec fn json_string_text(s: Seq<char>) -> Seq<char> {
    if needs_no_escape(s) {
        seq!['"'] + s + seq!['"']
    } else {
        json_quoted(s)
    }
}

/// The members of an object as they stand between its braces:
/// `"key":value`, with commas between them.
pub open spec fn members_text(members: Seq<(Seq<char>, Seq<char>)>) -> Seq<char>
    decreases members.len(),
{
    if members.len() == 0 {
        Seq::empty()
    } else {
        let last = json_string_text(members.last().0) + seq![':'] + members.last().1;
        if members.len() == 1 {
            last
        } else {
            members_text(members.drop_last()) + seq![','] + last
        }
    }
}

/// The compact text of an object with the given members.
pub open spec fn object_text(members: Seq<(Seq<char>, Seq<char>)>) -> Seq<char> {
    seq!['{'] + members_text(members) + seq!['}']
}

/// Parses a JSON text.
///
/// Trusted: `serde_json::from_str` at type `Value`. The result is a
/// function of the text alone: the value parsed, known by its compact
/// text, or the error, handed on as the message that its `Display`
/// writes.
#[verifier::external_body]
pub(crate) fn decode(text: &str) -> (r: Result<Value, String>)
    ensures
        match r {
            Ok(value) => json_decoded(text@) == Ok::<Seq<char>, Seq<char>>(json_text(value)),
            Err(message) => json_decoded(text@) == Err::<Seq<char>, Seq<char>>(message@),
        },
{
    serde_json::from_str(text).map_err(|e: serde_json::Error| e.to_string())
}

/// The JSON string that holds `s`.
///
/// Trusted: the variant `Value::String`, whose compact text is the
/// quoted form of the string it holds: the string between double
/// quotes, with escapes for control characters, double quotes and
/// backslashes and for nothing else.
#[verifier::external_body]
pub(crate) fn string_value(s: String) -> (value: Value)
    ensures
        json_text(value) == json_quoted(s@),
        json_text(value) == json_string_text(s@),
{
    Value::String(s)
}

/// A copy of a JSON value.
///
/// Trusted: `Value`'s `Clone`, which copies the value whole, so that the
/// copy has the text of the value that was copied.
pub assume_specification[ <Value as Clone>::clone ](value: &Value) -> (copy: Value)
    ensures
        json_text(copy) == json_text(*value),
;

/// An object without members.
///
/// Trusted: `serde_json::Map::new`.
#[verifier::external_body]
pub(crate) fn new_object() -> (object: serde_json::Map<String, Value>)
    ensures
        json_members(object) == Seq::<(Seq<char>, Seq<char>)>::empty(),
{
    serde_json::Map::new()
}

/// Sets `key` to `value` in an object.
///
/// Trusted: `serde_json::Map::insert`, with the crate's `preserve_order`
/// feature: the members stay in the order in which their keys first
/// came, a key that is there takes the new value where it stands, and a
/// new key is put last.
#[verifier::external_body]
pub(crate) fn object_insert(object: &mut serde_json::Map<String, Value>, key: String, value: Value)
    ensures
        json_members(*final(object)) == with_entry(
            json_members(*old(object)),
            key@,
            json_text(value),
        ),
{
    object.insert(key, value);
}

/// Whether an object has no members.
///
/// Trusted: `serde_json::Map::is_empty`.
#[verifier::external_body]
pub(crate) fn object_is_empty(object: &serde_json::Map<String, Value>) -> (empty: bool)
    ensures
        empty == (json_members(*object).len() == 0),
{
    object.is_empty()
}

/// The compact text of an object.
///
/// Trusted: `Display` of `Value::Object`, which writes an opening brace,
/// the members in order as `"key":value` with commas between them, and a
/// closing brace; keys are quoted as strings are.
#[verifier::external_body]
pub(crate) fn object_to_string(object: serde_json::Map<String, Value>) -> (text: String)
    ensures
        text@ == object_text(json_members(object)),
{
    Value::Object(object).to_string()
}

} // verus!
