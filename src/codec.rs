use vstd::prelude::*;
use vstd::string::*;

verus! {

/// serde_json's value tree, carried through unopened.
#[verifier::external_type_specification]
#[verifier::external_body]
pub struct ExValue(serde_json::Value);

/// serde_json's error, carried through unopened.
#[verifier::external_type_specification]
#[verifier::external_body]
pub struct ExError(serde_json::Error);

/// What `serde_json::from_str` makes of a text: a value, or the error it reports.
pub uninterp spec fn parsed(text: Seq<char>) -> Result<serde_json::Value, serde_json::Error>;

/// The compact text that `serde_json::to_string` writes for a value, or its error.
pub uninterp spec fn compact(v: serde_json::Value) -> Result<Seq<char>, serde_json::Error>;

/// The indented text that `serde_json::to_string_pretty` writes for a value, or
/// its error.
pub uninterp spec fn pretty(v: serde_json::Value) -> Result<Seq<char>, serde_json::Error>;

/// The compact text that the `Display` of `serde_json::Value` writes.
pub uninterp spec fn shown(v: serde_json::Value) -> Seq<char>;

/// The message that the `Display` of `serde_json::Error` writes.
pub uninterp spec fn error_message(e: serde_json::Error) -> Seq<char>;

/// The member that `serde_json::Value::get` finds under a key: `None` where the
/// value is not an object or has no such key.
pub uninterp spec fn member(v: serde_json::Value, key: Seq<char>) -> Option<serde_json::Value>;

/// Relies on `serde_json::from_str`, read into a `serde_json::Value`.
#[verifier::external_body]
fn from_str(text: &str) -> (r: Result<serde_json::Value, serde_json::Error>)
    ensures
        r == parsed(text@),
{
    serde_json::from_str(text)
}

/// Relies on `serde_json::to_string`.
#[verifier::external_body]
fn to_compact(v: &serde_json::Value) -> (r: Result<String, serde_json::Error>)
    ensures
        match r {
            Ok(s) => compact(*v) == Ok::<Seq<char>, serde_json::Error>(s@),
            Err(e) => compact(*v) == Err::<Seq<char>, serde_json::Error>(e),
        },
{
    serde_json::to_string(v)
}

/// Relies on `serde_json::to_string_pretty`.
#[verifier::external_body]
fn to_pretty(v: &serde_json::Value) -> (r: Result<String, serde_json::Error>)
    ensures
        match r {
            Ok(s) => pretty(*v) == Ok::<Seq<char>, serde_json::Error>(s@),
            Err(e) => pretty(*v) == Err::<Seq<char>, serde_json::Error>(e),
        },
{
    serde_json::to_string_pretty(v)
}

/// Relies on the `Display` of `serde_json::Value`, which writes compact JSON.
#[verifier::external_body]
pub(crate) fn value_text(v: &serde_json::Value) -> (r: String)
    ensures
        r@ == shown(*v),
{
    v.to_string()
}

/// Relies on the `Display` of `serde_json::Error`.
#[verifier::external_body]
fn error_text(e: &serde_json::Error) -> (r: String)
    ensures
        r@ == error_message(*e),
{
    e.to_string()
}

/// Relies on `serde_json::Value::get` with a string key.
#[verifier::external_body]
pub(crate) fn value_get<'a>(v: &'a serde_json::Value, key: &str) -> (r: Option<
    &'a serde_json::Value,
>)
    ensures
        match r {
            Some(found) => member(*v, key@) == Some(*found),
            None => member(*v, key@) is None,
        },
{
    v.get(key)
}

/// A text that is not JSON, with the parser's message.
#[derive(Debug)]
pub struct ParseError {
    pub message: String,
}

/// A value that the serializer refused, with its message.
#[derive(Debug)]
pub struct SerializeError {
    pub message: String,
}

/// The JSON text codec.
pub struct RsJson;

impl RsJson {
    /// Parses a JSON text; on failure the parser's message is kept.
    pub fn parse(input: &str) -> (r: Result<serde_json::Value, ParseError>)
        ensures
            match (r, parsed(input@)) {
                (Ok(v), Ok(w)) => v == w,
                (Err(p), Err(e)) => p.message@ == error_message(e),
                _ => false,
            },
    {
        match from_str(input) {
            Ok(v) => Ok(v),
            Err(e) => Err(ParseError { message: error_text(&e) }),
        }
    }

    /// Writes a value as compact JSON text.
    pub fn stringify(value: &serde_json::Value) -> (r: Result<String, SerializeError>)
        ensures
            match (r, compact(*value)) {
                (Ok(s), Ok(t)) => s@ == t,
                (Err(p), Err(e)) => p.message@ == error_message(e),
                _ => false,
            },
    {
        match to_compact(value) {
            Ok(s) => Ok(s),
            Err(e) => Err(SerializeError { message: error_text(&e) }),
        }
    }

    /// Writes a value as indented JSON text.
    pub fn stringify_pretty(value: &serde_json::Value) -> (r: Result<String, SerializeError>)
        ensures
            match (r, pretty(*value)) {
                (Ok(s), Ok(t)) => s@ == t,
                (Err(p), Err(e)) => p.message@ == error_message(e),
                _ => false,
            },
    {
        match to_pretty(value) {
            Ok(s) => Ok(s),
            Err(e) => Err(SerializeError { message: error_text(&e) }),
        }
    }
}

} // verus!
