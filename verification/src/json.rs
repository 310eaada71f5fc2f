//! The JSON that a replay's metadata is written in, as `serde_json` reads and
//! writes it.

use vstd::prelude::*;

verus! {

/// A JSON document of `serde_json`. What it holds is known only through the
/// functions below.
#[verifier::external_type_specification]
#[verifier::external_body]
pub struct ExJsonValue(serde_json::Value);

/// The document that `serde_json::from_str` reads from a text, or nothing
/// where the text is no JSON.
pub uninterp spec fn json_value(text: Seq<char>) -> Option<serde_json::Value>;

/// The text that `serde_json::to_string` writes for a document, or nothing
/// where it fails.
pub uninterp spec fn json_text(document: serde_json::Value) -> Option<Seq<char>>;

/// What `serde_json::Value::get` finds in a document under a key: the
/// member of that name where the document is an object that has one.
pub uninterp spec fn json_member(document: serde_json::Value, key: Seq<char>) -> Option<
    serde_json::Value,
>;

/// What `serde_json::Value::as_str` finds in a document: its characters
/// where the document is a string.
pub uninterp spec fn json_string(document: serde_json::Value) -> Option<Seq<char>>;

/// `Clone::clone` of `serde_json::Value`: the copy is the same document.
pub assume_specification[ <serde_json::Value as std::clone::Clone>::clone ](
    document: &serde_json::Value,
) -> (copy: serde_json::Value)
    ensures
        copy == *document,
;

/// `serde_json::from_str` for a `serde_json::Value`. The contract gives its
/// result a name, and says that an error comes exactly where there is no
/// document.
#[verifier::external_body]
pub(crate) fn parse_json(text: &str) -> (parsed: Result<serde_json::Value, serde_json::Error>)
    ensures
        match parsed {
            Ok(document) => json_value(text@) == Some(document),
            Err(_) => json_value(text@) is None,
        },
{
    serde_json::from_str(text)
}

/// `serde_json::to_string` for a `serde_json::Value`. The contract gives its
/// result a name, and says of the text that it holds no line feed: the
/// compact form has no whitespace between its parts, and a control character
/// inside a string is written as an escape.
#[verifier::external_body]
pub(crate) fn print_json(document: &serde_json::Value) -> (printed: Result<
    String,
    serde_json::Error,
>)
    ensures
        match printed {
            Ok(text) => json_text(*document) == Some(text@) && !text@.contains('\n'),
            Err(_) => json_text(*document) is None,
        },
{
    serde_json::to_string(document)
}

/// `serde_json::Value::get` with a string for a key. The contract gives its
/// result a name.
#[verifier::external_body]
pub(crate) fn member_of<'a>(document: &'a serde_json::Value, key: &str) -> (member: Option<
    &'a serde_json::Value,
>)
    ensures
        match member {
            Some(found) => json_member(*document, key@) == Some(*found),
            None => json_member(*document, key@) is None,
        },
{
    document.get(key)
}

/// `serde_json::Value::as_str`. The contract gives its result a name.
#[verifier::external_body]
pub(crate) fn string_of<'a>(document: &'a serde_json::Value) -> (string: Option<&'a str>)
    ensures
        match string {
            Some(characters) => json_string(*document) == Some(characters@),
            None => json_string(*document) is None,
        },
{
    document.as_str()
}

/// `serde::de::Error::missing_field` for `serde_json::Error`: the error that
/// reading a record gives where a field is wanting.
#[verifier::external_body]
pub(crate) fn missing_field(field: &'static str) -> serde_json::Error {
    <serde_json::Error as serde::de::Error>::missing_field(field)
}

/// `serde_json::Value::default`: the document `null`.
#[verifier::external_body]
pub(crate) fn null_document() -> serde_json::Value {
    serde_json::Value::default()
}

} // verus!
