//! Readings of the system clock.

use vstd::prelude::*;

verus! {

/// Relies on chrono's `Utc::now` and the `Display` of `DateTime<Utc>`: the
/// current time as text. It reads the system clock, so no text is promised.
#[verifier::external_body]
pub(crate) fn now_text() -> String {
    chrono::Utc::now().to_string()
}

/// Relies on chrono's `Utc::now` and `DateTime::timestamp_micros`: the current
/// time in microseconds since the Unix epoch. It reads the system clock, so no
/// value is promised.
#[verifier::external_body]
pub(crate) fn now_micros() -> i64 {
    chrono::Utc::now().timestamp_micros()
}

} // verus!
