//! Verified core of an XDCC download manager: pack locator parsing, the
//! IRC/DCC protocol session as a state machine, and the transfer
//! orchestrator with retry policy, bot statistics, bounded history and
//! analytics.

pub mod api;
pub mod chars;
pub mod config;
pub mod db;
pub mod dcc;
pub mod locator;
pub mod postprocess;
pub mod search;
pub mod session;
pub mod strings;
pub mod transfer;
pub mod trusted;

use vstd::prelude::*;

verus! {

/// Number of seconds in one day, used when turning timestamps into ages.
pub const SECS_PER_DAY: u64 = 86400;

/// Whole days between two timestamps; zero when the clock appears to
/// have gone backwards.
pub open spec fn spec_days_between(earlier: int, now: int) -> int {
    if now >= earlier {
        (now - earlier) / 86400
    } else {
        0
    }
}

/// Days elapsed between two timestamps, clamped to zero when the clock
/// appears to have gone backwards.
pub fn days_between(earlier: i64, now: i64) -> (d: u64)
    ensures
        d == spec_days_between(earlier as int, now as int),
{
    if now >= earlier {
        let gap: u64 = (now as i128 - earlier as i128) as u64;
        gap / SECS_PER_DAY
    } else {
        0
    }
}

} // verus!
