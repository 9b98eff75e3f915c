//! Wall-clock access for timestamps on space metadata.

use vstd::prelude::*;

verus! {

/// Relies on `chrono::Utc::now().timestamp_millis()`: the current time
/// in milliseconds since the Unix epoch. Nothing is assumed of the
/// value: it depends on the machine's clock.
#[verifier::external_body]
pub fn now_millis() -> i64 {
    chrono::Utc::now().timestamp_millis()
}

} // verus!
