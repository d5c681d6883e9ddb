//! The wall clock, behind a trusted boundary: the one value in the
//! pipeline that depends on the machine rather than on the inputs.

use vstd::prelude::*;
use std::time::{SystemTime, UNIX_EPOCH};

verus! {

/// Relies on std::time::SystemTime::now: the milliseconds since the
/// Unix epoch, or zero for a clock set before it.  Nothing can be
/// promised of the value; callers state what holds whatever comes back.
#[verifier::external_body]
pub fn current_timestamp_millis() -> u64 {
    match SystemTime::now().duration_since(UNIX_EPOCH) {
        Ok(d) => d.as_millis() as u64,
        Err(_) => 0,
    }
}

} // verus!
