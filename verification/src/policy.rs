//! Fixed protocol parameters and the clock arithmetic built on them.
//!
//! Time is a reading of a monotonic clock in nanoseconds. The distance from
//! an earlier reading to a later one saturates at zero, so a reading that
//! lies in the future counts as "just now".

use vstd::prelude::*;

verus! {

/// TCP port on which the control connection is opened.
pub const CONTROL_PORT: u16 = 62078;

/// The synthetic gateway address 10.7.0.1, as a big-endian number.
pub const GATEWAY_ADDR: u32 = 0x0a07_0001;

/// IPv4 protocol number of TCP.
pub const PROTOCOL_TCP: u8 = 6;

/// Nanoseconds in one second.
pub const NANOS_PER_SEC: u64 = 1_000_000_000;

/// How long after a control handshake a data pair may be opened.
pub const PAIR_OPEN_WINDOW_AFTER_CONTROL: u64 = 5_000_000_000;

/// How long a control handshake record is kept.
pub const CONTROL_EVENT_TTL: u64 = 30_000_000_000;

/// How long a data pair may stay idle before it is retired.
pub const DATA_PAIR_IDLE_TIMEOUT: u64 = 30_000_000_000;

/// Least distance between two sweeps of the tracker.
pub const CLEANUP_INTERVAL: u64 = 5_000_000_000;

/// Largest datagram the interface hands over.
pub const MAX_DATAGRAM: usize = 1504;

/// Time elapsed from `then` to `now`, zero where `then` is the later one.
pub open spec fn elapsed(now: u64, then: u64) -> int {
    if now >= then {
        now - then
    } else {
        0
    }
}

/// Whether at most `limit` nanoseconds lie between `then` and `now`.
pub fn within(now: u64, then: u64, limit: u64) -> (r: bool)
    ensures
        r == (elapsed(now, then) <= limit),
{
    if now >= then {
        now - then <= limit
    } else {
        true
    }
}

} // verus!
