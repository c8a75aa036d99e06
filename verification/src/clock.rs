//! The one place the library reads the clock.

use vstd::prelude::*;

verus! {

/// Relies on std::time::SystemTime::now and duration_since(UNIX_EPOCH):
/// the Unix time now, in milliseconds.  Nothing is promised of the value;
/// every caller states what holds whatever the clock returned.
#[verifier::external_body]
pub fn now_millis() -> u64 {
    std::time::SystemTime::now().duration_since(std::time::SystemTime::UNIX_EPOCH).map(
        |d| d.as_millis() as u64,
    ).unwrap_or(0)
}

} // verus!
