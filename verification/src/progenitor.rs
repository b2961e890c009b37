//! The progenitor: the agent named in the DNA's `progenitor` property, which is
//! an administrator from the start.
use vstd::prelude::*;

use crate::owned;

verus! {

/// What `serde_json` reads from `text` as a JSON string: its value, or `None`
/// when `text` is not one JSON string.
pub uninterp spec fn json_string_value(text: Seq<char>) -> Option<Seq<char>>;

/// Calls `serde_json::from_str::<String>` on `text`.
///
/// Trusted: the value read is `json_string_value` of the text, and the call fails
/// exactly where that name is `None`. What the name is on given texts (the JSON
/// grammar of strings and escapes) is left to `serde_json` and not stated here.
#[verifier::external_body]
fn parse_json_string(text: &str) -> (value: Option<String>)
    ensures
        match value {
            Some(s) => json_string_value(text@) == Some(s@),
            None => json_string_value(text@) is None,
        },
{
    serde_json::from_str::<String>(text).ok()
}

/// Message of the error when the progenitor property is not an address.
pub const PROGENITOR_ERROR: &'static str = "Could not get the progenitor address";

/// The progenitor address as the `progenitor` property gives it: the property's
/// text, read as a JSON string.
pub open spec fn progenitor_of(progenitor_property: Seq<char>) -> Result<Seq<char>, Seq<char>> {
    match json_string_value(progenitor_property) {
        Some(a) => Ok(a),
        None => Err(PROGENITOR_ERROR@),
    }
}

pub open spec fn result_view(r: Result<String, String>) -> Result<Seq<char>, Seq<char>> {
    match r {
        Ok(s) => Ok(s@),
        Err(e) => Err(e@),
    }
}

/// The progenitor address from the JSON string that the property read to
/// (`None` where it did not read as one).
pub fn progenitor_address_from(parsed: Option<String>) -> (address: Result<String, String>)
    ensures
        match parsed {
            Some(a) => address is Ok && address->Ok_0@ == a@,
            None => address is Err && address->Err_0@ == PROGENITOR_ERROR@,
        },
{
    match parsed {
        Some(progenitor_address) => Ok(progenitor_address),
        None => Err(owned(PROGENITOR_ERROR)),
    }
}

/// Reads the progenitor address from the text of the DNA's `progenitor` property.
pub fn get_progenitor_address(progenitor_property: &str) -> (address: Result<String, String>)
    ensures
        result_view(address) == progenitor_of(progenitor_property@),
{
    progenitor_address_from(parse_json_string(progenitor_property))
}

} // verus!
