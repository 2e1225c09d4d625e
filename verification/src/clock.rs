//! The wall clock, behind trusted wrappers. Nothing can be promised about
//! what time it is, so callers receive the reading as a plain value and
//! everything downstream is verified for every possible reading.

use chrono::{Datelike, Timelike};
use vstd::prelude::*;

verus! {

/// Relies on chrono's `Local::now` and `timestamp`: seconds since the
/// epoch, truncated. The value depends on the clock, so nothing is promised
/// of it. On a system clock set before the epoch `Local::now` itself does
/// not return; there is no input to exclude for that.
#[verifier::external_body]
pub fn now_timestamp() -> i64 {
    chrono::Local::now().timestamp()
}

/// Relies on chrono's `Local::now` and its calendar accessors: the fields
/// lie in their calendar ranges, whatever the time is. On a system clock
/// set before the epoch `Local::now` itself does not return.
#[verifier::external_body]
pub fn now_datetime() -> (r: crate::rpc::DateTime)
    ensures
        r.valid(),
{
    let now = chrono::Local::now();
    crate::rpc::DateTime {
        year: now.year() as u32,
        month: now.month(),
        day: now.day(),
        hour: now.hour(),
        minute: now.minute(),
        second: now.second(),
    }
}

} // verus!
