//! The clocks.

use plrd::hostclock::{mono_ns, now_mono_ns, now_wall_ns, wall_ns};

#[test]
fn monotonic_clock_is_nonzero_and_monotone() {
    let a = now_mono_ns();
    let b = now_mono_ns();
    assert!(a > 0);
    assert!(b >= a);
}

#[test]
fn wall_clock_is_after_2020() {
    // 2020-01-01 in ns since the epoch.
    assert!(now_wall_ns() > 1_577_836_800_000_000_000);
}

#[test]
fn clock_readings_become_nanoseconds() {
    assert_eq!(mono_ns(3, 250), 3_000_000_250);
    assert_eq!(mono_ns(i64::MAX, 0), u64::MAX);
    assert_eq!(wall_ns(Some(17)), 17);
    assert_eq!(wall_ns(Some(u128::MAX)), u64::MAX);
    assert_eq!(wall_ns(None), 0);
}
