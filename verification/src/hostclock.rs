//! The host's clocks, in nanoseconds.

use vstd::prelude::*;

verus! {

/// `n`, or the largest machine integer where `n` is larger.
pub open spec fn clamped(n: int) -> u64 {
    if n <= u64::MAX {
        n as u64
    } else {
        u64::MAX
    }
}

/// `n`, or the largest machine integer where `n` is larger.
pub(crate) fn clamp(n: u128) -> (r: u64)
    ensures
        r == clamped(n as int),
{
    if n <= u64::MAX as u128 {
        n as u64
    } else {
        u64::MAX
    }
}

/// A clock reading of seconds and nanoseconds as nanoseconds.
pub open spec fn mono_value(sec: i64, nsec: i64) -> u64 {
    clamped((sec as u64) as int * 1_000_000_000 + (nsec as u64) as int)
}

/// A clock reading of seconds and nanoseconds as nanoseconds, up to the largest
/// machine integer.
pub fn mono_ns(sec: i64, nsec: i64) -> (r: u64)
    ensures
        r == mono_value(sec, nsec),
        0 <= sec && 0 <= nsec && sec * 1_000_000_000 + nsec <= u64::MAX ==> r == sec
            * 1_000_000_000 + nsec,
{
    clamp((sec as u64) as u128 * 1_000_000_000 + (nsec as u64) as u128)
}

/// Nanoseconds since the epoch; a clock before the epoch reads as the epoch.
pub open spec fn wall_value(since: Option<u128>) -> u64 {
    match since {
        Some(n) => clamped(n as int),
        None => 0,
    }
}

/// Nanoseconds since the epoch, up to the largest machine integer; zero for a
/// clock that stands before the epoch.
pub fn wall_ns(since: Option<u128>) -> (r: u64)
    ensures
        r == wall_value(since),
{
    match since {
        Some(n) => clamp(n),
        None => 0,
    }
}

/// `rustix::time::clock_gettime` of `CLOCK_MONOTONIC`: seconds and nanoseconds.
/// Nothing is claimed of the reading: it is the machine's.
#[verifier::external_body]
pub fn read_monotonic() -> (i64, i64) {
    let ts = rustix::time::clock_gettime(rustix::time::ClockId::Monotonic);
    (ts.tv_sec, ts.tv_nsec as i64)
}

/// `SystemTime::elapsed` of the epoch, in nanoseconds; absent when the clock
/// stands before the epoch. Nothing is claimed of the reading.
#[verifier::external_body]
pub fn read_wall() -> Option<u128> {
    std::time::UNIX_EPOCH.elapsed().ok().map(|d| d.as_nanos())
}

/// The monotonic clock, in nanoseconds: what `mono_ns` makes of a reading of it.
pub fn now_mono_ns() -> (r: u64)
    ensures
        exists|ts: (i64, i64)| #[trigger]
            call_ensures(read_monotonic, (), ts) && r == mono_value(ts.0, ts.1),
{
    let ts = read_monotonic();
    mono_ns(ts.0, ts.1)
}

/// The wall clock, in nanoseconds since the epoch: what `wall_ns` makes of a
/// reading of it.
pub fn now_wall_ns() -> (r: u64)
    ensures
        exists|since: Option<u128>| #[trigger]
            call_ensures(read_wall, (), since) && r == wall_value(since),
{
    let since = read_wall();
    wall_ns(since)
}

} // verus!
