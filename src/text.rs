use vstd::prelude::*;
use vstd::string::*;
use vstd::utf8::*;
use crate::codec::{error_message, member, parsed, shown, value_get, value_text, RsJson};
use crate::convert::text_from_bytes;

verus! {

/// Reads bytes as UTF-8 text; the error names the failure.
pub fn c_str_to_string(input: &[u8]) -> (r: Result<String, String>)
    ensures
        match r {
            Ok(s) => valid_utf8(input@) && s@ == decode_utf8(input@),
            Err(m) => !valid_utf8(input@) && m@ == "Invalid UTF-8 string"@,
        },
{
    match text_from_bytes(input) {
        Some(s) => Ok(s),
        None => Err(String::from_str("Invalid UTF-8 string")),
    }
}

/// A message: `prefix` followed by `rest`.
fn joined(prefix: &str, rest: &str) -> (r: String)
    ensures
        r@ == prefix@ + rest@,
{
    let mut r = String::from_str(prefix);
    r.append(rest);
    r
}

/// Reads a JSON text and writes it back compactly, or says why it could not.
pub fn encode(input: &[u8]) -> (r: String)
    ensures
        !valid_utf8(input@) ==> r@ == "Invalid UTF-8 string"@,
        valid_utf8(input@) ==> match parsed(decode_utf8(input@)) {
            Ok(v) => r@ == shown(v),
            Err(e) => r@ == "Failed to encode JSON: "@ + error_message(e),
        },
{
    match c_str_to_string(input) {
        Err(m) => m,
        Ok(text) => match RsJson::parse(text.as_str()) {
            Ok(v) => value_text(&v),
            Err(e) => joined("Failed to encode JSON: ", e.message.as_str()),
        },
    }
}

/// Says whether a text is JSON: `Valid JSON`, or `Invalid JSON: ` with the
/// parser's message.
pub fn validate(input: &[u8]) -> (r: String)
    ensures
        !valid_utf8(input@) ==> r@ == "Invalid UTF-8 string"@,
        valid_utf8(input@) ==> match parsed(decode_utf8(input@)) {
            Ok(_) => r@ == "Valid JSON"@,
            Err(e) => r@ == "Invalid JSON: "@ + error_message(e),
        },
{
    match c_str_to_string(input) {
        Err(m) => m,
        Ok(text) => match RsJson::parse(text.as_str()) {
            Ok(_) => String::from_str("Valid JSON"),
            Err(e) => joined("Invalid JSON: ", e.message.as_str()),
        },
    }
}

/// The compact text of the member of a JSON object under `key`, or what went
/// wrong: a text or key that is not UTF-8, a text that is not JSON, a key that
/// is not there.
pub fn get_value(json_str: &[u8], key: &[u8]) -> (r: String)
    ensures
        !valid_utf8(json_str@) || !valid_utf8(key@) ==> r@ == "Invalid UTF-8 string"@,
        valid_utf8(json_str@) && valid_utf8(key@) ==> match parsed(decode_utf8(json_str@)) {
            Err(e) => r@ == "Failed to parse JSON: "@ + error_message(e),
            Ok(v) => match member(v, decode_utf8(key@)) {
                Some(found) => r@ == shown(found),
                None => r@ == "Key '"@ + decode_utf8(key@) + "' not found"@,
            },
        },
{
    let json = match c_str_to_string(json_str) {
        Ok(s) => s,
        Err(m) => {
            return m;
        },
    };
    let key = match c_str_to_string(key) {
        Ok(s) => s,
        Err(m) => {
            return m;
        },
    };
    let value = match RsJson::parse(json.as_str()) {
        Ok(v) => v,
        Err(e) => {
            return joined("Failed to parse JSON: ", e.message.as_str());
        },
    };
    match value_get(&value, key.as_str()) {
        Some(found) => value_text(found),
        None => {
            let mut r = joined("Key '", key.as_str());
            r.append("' not found");
            r
        },
    }
}

} // verus!
