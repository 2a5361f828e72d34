//! Declarations for the outside crates the ledger leans on: the opaque
//! JSON payload type, random identifiers, and the wall clock.
//!
//! Everything here is taken on trust; each item names the outside
//! function it relies on.

use vstd::prelude::*;

verus! {

#[verifier::external_type_specification]
#[verifier::external_body]
pub struct ExValue(serde_json::Value);

/// Relies on the `Clone` impl that serde_json derives for `Value`: a
/// structural copy, equal to the original.
pub assume_specification[ <serde_json::Value as Clone>::clone ](v: &serde_json::Value) -> (res:
    serde_json::Value)
    ensures
        res == *v,
;

/// Relies on uuid::Uuid::new_v4 and Uuid::as_u128. The identifier is
/// random, so nothing is promised about the value.
#[verifier::external_body]
pub fn fresh_id() -> u128 {
    uuid::Uuid::new_v4().as_u128()
}

/// Relies on std::time::SystemTime::now, read as milliseconds since the
/// Unix epoch. The clock is environment state, so nothing is promised
/// about the value.
#[verifier::external_body]
pub fn now_millis() -> u64 {
    match std::time::SystemTime::now().duration_since(std::time::UNIX_EPOCH) {
        Ok(d) => d.as_millis() as u64,
        Err(_) => 0,
    }
}

} // verus!
