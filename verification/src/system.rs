//! What the program reads off the machine that it runs on.

use vstd::prelude::*;

use crate::state::{is_clock_time, Timestamp};

verus! {

/// Calls `chrono::Utc::now`. The time counts from 1970, with less than a second in nanoseconds
/// behind the seconds; which time it is depends on the clock. `chrono` stops the program on a
/// clock that shows a time before 1970.
#[verifier::external_body]
pub(crate) fn utc_now() -> (now: Timestamp)
    ensures
        is_clock_time(now),
{
    let now = chrono::Utc::now();
    Timestamp { secs: now.timestamp(), nanos: now.timestamp_subsec_nanos() }
}

/// Calls `dirs::home_dir`. Which directory it is, and whether there is one, depends on the user and
/// the environment, so nothing is promised. The path comes as its bytes.
#[verifier::external_body]
pub(crate) fn home_dir() -> (home: Option<Vec<u8>>) {
    match dirs::home_dir() {
        Some(path) => Some(path.into_os_string().into_encoded_bytes()),
        None => None,
    }
}

} // verus!
