//! The current time, behind trusted wrappers.

use vstd::prelude::*;

verus! {

/// Relies on chrono's Utc::now and RFC 3339 formatting: the current UTC
/// time as text. The result depends on the clock, so nothing is promised
/// of it.
#[verifier::external_body]
pub fn utc_now_rfc3339() -> String {
    chrono::Utc::now().to_rfc3339_opts(chrono::SecondsFormat::Micros, true)
}

/// Relies on chrono's Utc::now and date formatting: the current UTC time
/// in compact `YYYYMMDDThhmmssZ` form. The result depends on the clock, so
/// nothing is promised of it.
#[verifier::external_body]
pub fn utc_now_compact() -> String {
    chrono::Utc::now().format("%Y%m%dT%H%M%SZ").to_string()
}

} // verus!
