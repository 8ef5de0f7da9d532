//! The wall clock, read once at the boundary of each operation and
//! passed down as a plain timestamp.

use vstd::prelude::*;

verus! {

/// Relies on std's `SystemTime::now` and `duration_since`: the whole
/// seconds since the Unix epoch, or `None` for a clock set before it
/// (`duration_since` returns its error then). Neither call panics, and
/// nothing is assumed of the clock's value.
#[verifier::external_body]
fn unix_timestamp() -> (r: Option<u64>) {
    match std::time::SystemTime::now().duration_since(std::time::UNIX_EPOCH) {
        Ok(d) => Some(d.as_secs()),
        Err(_) => None,
    }
}

/// The current time in whole seconds since the epoch, clamped at zero
/// for clocks set before it.
pub fn now_seconds() -> (r: u64) {
    match unix_timestamp() {
        Some(t) => t,
        None => 0,
    }
}

} // verus!
