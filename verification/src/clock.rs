//! The wall clock.
//!
//! Timestamps stamped onto pending entries and notifications come from the
//! system clock; nothing can be promised of them, so the contracts of the
//! callers leave them open.

use vstd::prelude::*;

verus! {

/// Relies on `chrono::Utc::now` / `to_rfc3339`: an RFC 3339 rendering of
/// the time now. The result depends on the clock, so nothing is promised
/// of it.
#[verifier::external_body]
pub fn now_iso() -> String {
    chrono::Utc::now().to_rfc3339()
}

/// Relies on `chrono::Utc::now` / `timestamp_millis`: the time now in
/// milliseconds since the Unix epoch. Nothing is promised of it.
#[verifier::external_body]
pub fn now_timestamp_millis() -> i64 {
    chrono::Utc::now().timestamp_millis()
}

} // verus!
