//! Calls whose results come from the machine: the clock, the random number
//! generator and the host name.

use vstd::prelude::*;
use std::time::SystemTime;
use rand::Rng;

verus! {

/// Milliseconds since the Unix epoch by `SystemTime::now`, or 0 when the clock
/// reads before the epoch. The value is the clock's: nothing is promised of it.
#[verifier::external_body]
pub(crate) fn unix_millis_now() -> i64 {
    SystemTime::now()
        .duration_since(SystemTime::UNIX_EPOCH)
        .map(|d| d.as_millis() as i64)
        .unwrap_or(0)
}

/// The current UTC time as `chrono::Utc::now().to_rfc3339()` writes it. The value
/// is the clock's: nothing is promised of it.
#[verifier::external_body]
pub(crate) fn utc_now_rfc3339() -> String {
    chrono::Utc::now().to_rfc3339()
}

/// The current local time as `chrono::Local::now().format("%Y%m%d_%H%M%S")`
/// writes it. The value is the clock's and the time zone's: nothing is
/// promised of it.
#[verifier::external_body]
pub(crate) fn local_file_stamp() -> String {
    chrono::Local::now().format("%Y%m%d_%H%M%S").to_string()
}

/// The current UTC time as `chrono::Utc::now().format("%Y%m%d_%H%M%S")`
/// writes it. The value is the clock's: nothing is promised of it.
#[verifier::external_body]
pub(crate) fn utc_file_stamp() -> String {
    chrono::Utc::now().format("%Y%m%d_%H%M%S").to_string()
}

/// The current time in milliseconds since the Unix epoch by
/// `chrono::Utc::now().timestamp_millis()`. The value is the clock's.
#[verifier::external_body]
pub(crate) fn utc_now_millis() -> i64 {
    chrono::Utc::now().timestamp_millis()
}

/// A random `u32` from `rand::random`. Any value may come back.
#[verifier::external_body]
pub(crate) fn random_u32() -> u32 {
    rand::random::<u32>()
}

/// A random port in `low..high` from `rand::thread_rng().gen_range`, which
/// panics on an empty range and otherwise returns a value of the range.
#[verifier::external_body]
pub(crate) fn random_port_in(low: u16, high: u16) -> (p: u16)
    requires
        low < high,
    ensures
        low <= p < high,
{
    rand::thread_rng().gen_range(low..high)
}

/// The machine's host name by `hostname::get`, converted lossily to UTF-8;
/// `None` when the call fails. What the name is depends on the machine.
#[verifier::external_body]
pub(crate) fn host_name() -> Option<String> {
    hostname::get().ok().map(|h| h.to_string_lossy().to_string())
}

} // verus!
