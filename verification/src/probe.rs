//! Extraction of a reading from a probe's status payload.
//!
//! The status probe answers with a text payload, conceptually a JSON
//! object holding a string under the key `value`. A payload that is not
//! JSON, or whose `value` is missing or not a string, degrades to the
//! monitor's default reading instead of propagating an error.

use vstd::prelude::*;

verus! {

/// The string stored under the key `value` of the payload, read as a
/// JSON document, or `None` where the payload is not JSON or holds no
/// string there. The result depends on the payload text alone.
pub uninterp spec fn json_string_value(payload: Seq<char>) -> Option<Seq<char>>;

/// Relies on serde_json::from_str, Value::get and Value::as_str: the
/// string under the key `value` of a JSON document, where the payload
/// parses as one and the key holds a string, is a function of the
/// payload text alone.
#[verifier::external_body]
fn parse_value_field(payload: &str) -> (r: Option<String>)
    ensures
        (match r {
            Some(s) => Some(s@),
            None => None,
        }) == json_string_value(payload@),
{
    match serde_json::from_str::<serde_json::Value>(payload) {
        Ok(doc) => match doc.get("value") {
            Some(field) => match field.as_str() {
                Some(s) => Some(s.to_owned()),
                None => None,
            },
            None => None,
        },
        Err(_) => None,
    }
}

/// The digital monitor's reading of a payload: the `value` string, or
/// the empty string where the payload yields none, so that a malformed
/// payload is never read as the high signal.
pub open spec fn spec_digital_reading(payload: Seq<char>) -> Seq<char> {
    match json_string_value(payload) {
        Some(s) => s,
        None => Seq::empty(),
    }
}

/// The analog monitor's reading of a payload: the `value` string, or
/// `"0"` where the payload yields none.
pub open spec fn spec_analog_reading(payload: Seq<char>) -> Seq<char> {
    match json_string_value(payload) {
        Some(s) => s,
        None => "0"@,
    }
}

/// Extract the digital monitor's reading from a status payload.
pub fn digital_reading(payload: &str) -> (r: String)
    ensures
        r@ == spec_digital_reading(payload@),
{
    match parse_value_field(payload) {
        Some(s) => s,
        None => String::new(),
    }
}

/// Extract the analog monitor's reading from a status payload.
pub fn analog_reading(payload: &str) -> (r: String)
    ensures
        r@ == spec_analog_reading(payload@),
{
    match parse_value_field(payload) {
        Some(s) => s,
        None => "0".to_owned(),
    }
}

} // verus!
