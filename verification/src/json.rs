//! The server's answer on the wire: JSON that names the variant, then holds
//! its message.

use crate::response::UploadResponse;
use vstd::prelude::*;
use vstd::string::StringExecFns;

verus! {

/// A JSON document, as `serde_json` holds it.
#[verifier::external_type_specification]
#[verifier::external_body]
pub struct ExValue(serde_json::Value);

/// Why `serde_json` could not read a text.
#[verifier::external_type_specification]
#[verifier::external_body]
pub struct ExJsonError(serde_json::Error);

/// The strings in a document, each under the JSON pointer that leads to it:
/// `/Ok/message` is the member `message` of the member `Ok`.
pub uninterp spec fn json_strings(doc: serde_json::Value) -> Map<Seq<char>, Seq<char>>;

/// The strings in the document that a text spells, where it spells one.
pub uninterp spec fn parsed_strings(text: Seq<char>) -> Option<Map<Seq<char>, Seq<char>>>;

/// A string as JSON writes it: in double quotes, with escapes where needed.
pub uninterp spec fn json_quoted(s: Seq<char>) -> Seq<char>;

/// Calls `serde_json::from_str` for a `Value`: whether the text is JSON is
/// `parsed_strings` being there, and the strings of the document are the
/// ones it names.
#[verifier::external_body]
pub(crate) fn parse(text: &str) -> (r: Result<serde_json::Value, serde_json::Error>)
    ensures
        r is Ok <==> parsed_strings(text@) is Some,
        r matches Ok(doc) ==> json_strings(doc) == parsed_strings(text@)->0,
{
    serde_json::from_str::<serde_json::Value>(text)
}

/// Calls `Value::pointer`, and `Value::as_str` on what it finds: the string
/// under `pointer`, if the document has one there.
#[verifier::external_body]
pub(crate) fn string_at(doc: &serde_json::Value, pointer: &str) -> (r: Option<String>)
    ensures
        r is Some <==> json_strings(*doc).contains_key(pointer@),
        r matches Some(s) ==> s@ == json_strings(*doc)[pointer@],
{
    match doc.pointer(pointer) {
        Some(found) => match found.as_str() {
            Some(s) => Some(s.to_owned()),
            None => None,
        },
        None => None,
    }
}

/// Has `serde_json` write a string as JSON, through `Value::String` and its
/// `Display`.
#[verifier::external_body]
pub(crate) fn quoted(s: &str) -> (r: String)
    ensures
        r@ == json_quoted(s@),
{
    serde_json::Value::String(s.to_owned()).to_string()
}

/// Why an answer was not understood.
#[derive(Clone, Copy, Debug, PartialEq, Eq, Structural)]
pub enum ProtocolError {
    /// The text is not JSON.
    NotJson,
    /// The document is neither a success nor a failure with a message.
    UnknownShape,
}

/// What a document with these strings says: a success where it has a message
/// under `Ok` and none under `Error`, a failure the other way round, and
/// nothing that can be understood otherwise.
pub open spec fn decoded(strings: Map<Seq<char>, Seq<char>>) -> Option<(bool, Seq<char>)> {
    let ok = strings.contains_key("/Ok/message"@);
    let error = strings.contains_key("/Error/message"@);
    if ok && !error {
        Some((true, strings["/Ok/message"@]))
    } else if error && !ok {
        Some((false, strings["/Error/message"@]))
    } else {
        None
    }
}

/// An answer as JSON text.
pub open spec fn encoded(ok: bool, message: Seq<char>) -> Seq<char> {
    if ok {
        "{\"Ok\":{\"message\":"@ + json_quoted(message) + "}}"@
    } else {
        "{\"Error\":{\"message\":"@ + json_quoted(message) + "}}"@
    }
}

impl ProtocolError {
    /// The error in words.
    pub fn message(&self) -> (r: String)
        ensures
            r@ == match *self {
                ProtocolError::NotJson => "The answer of the server is not JSON"@,
                ProtocolError::UnknownShape => "The answer of the server has an unknown shape"@,
            },
    {
        match self {
            ProtocolError::NotJson => "The answer of the server is not JSON".to_owned(),
            ProtocolError::UnknownShape => "The answer of the server has an unknown shape".to_owned(),
        }
    }
}

/// Reads an answer from a document.
pub fn decode_response(doc: &serde_json::Value) -> (r: Result<UploadResponse, ProtocolError>)
    ensures
        match decoded(json_strings(*doc)) {
            Some((ok, message)) => r matches Ok(response) && response.is_ok() == ok
                && response.text() == message,
            None => r == Err::<UploadResponse, ProtocolError>(ProtocolError::UnknownShape),
        },
{
    let ok = string_at(doc, "/Ok/message");
    let error = string_at(doc, "/Error/message");
    match (ok, error) {
        (Some(message), None) => Ok(UploadResponse::Success { message }),
        (None, Some(message)) => Ok(UploadResponse::Error { message }),
        _ => Err(ProtocolError::UnknownShape),
    }
}

/// Reads an answer from the text of a response.
pub fn parse_response(text: &str) -> (r: Result<UploadResponse, ProtocolError>)
    ensures
        match parsed_strings(text@) {
            Some(strings) => match decoded(strings) {
                Some((ok, message)) => r matches Ok(response) && response.is_ok() == ok
                    && response.text() == message,
                None => r == Err::<UploadResponse, ProtocolError>(ProtocolError::UnknownShape),
            },
            None => r == Err::<UploadResponse, ProtocolError>(ProtocolError::NotJson),
        },
{
    match parse(text) {
        Ok(doc) => decode_response(&doc),
        Err(_) => Err(ProtocolError::NotJson),
    }
}

/// Writes an answer around a message that is already in JSON quotes.
pub fn frame(ok: bool, quoted_message: &str) -> (r: String)
    ensures
        ok ==> r@ == "{\"Ok\":{\"message\":"@ + quoted_message@ + "}}"@,
        !ok ==> r@ == "{\"Error\":{\"message\":"@ + quoted_message@ + "}}"@,
{
    let head = if ok {
        "{\"Ok\":{\"message\":"
    } else {
        "{\"Error\":{\"message\":"
    };
    head.to_owned().concat(quoted_message).concat("}}")
}

/// Writes an answer as JSON text.
pub fn to_json(response: &UploadResponse) -> (r: String)
    ensures
        r@ == encoded(response.is_ok(), response.text()),
{
    match response {
        UploadResponse::Success { message } => frame(true, quoted(message.as_str()).as_str()),
        UploadResponse::Error { message } => frame(false, quoted(message.as_str()).as_str()),
    }
}

} // verus!
