//! The JSON value type of `serde_json`, carried through the library as is.

use vstd::prelude::*;

verus! {

/// `serde_json::Value`, declared so that messages can hold JSON payloads.
/// The library never looks inside a value.
#[verifier::external_type_specification]
#[verifier::external_body]
pub struct ExValue(serde_json::Value);

} // verus!
