use vstd::prelude::*;

verus! {

/// Reads `CLOCK_MONOTONIC` with `nix::time::clock_gettime` and hands back the
/// seconds and nanoseconds of the reading, or `None` when the system call fails.
/// Nothing is stated of the reading: it depends on when the call is made.
#[verifier::external_body]
fn read_monotonic_clock() -> (r: Option<(i64, i64)>) {
    match nix::time::clock_gettime(nix::time::ClockId::CLOCK_MONOTONIC) {
        Ok(ts) => Some((ts.tv_sec(), ts.tv_nsec())),
        Err(_) => None,
    }
}

/// Nanoseconds in a second.
pub open spec fn nanos_per_second() -> int {
    1_000_000_000
}

/// Nanoseconds in a millisecond.
pub open spec fn nanos_per_milli() -> int {
    1_000_000
}

/// The timestamp in nanoseconds of a clock reading: zero for a reading that
/// is negative, saturated at `u64::MAX`.
pub open spec fn reading_to_nanos(sec: i64, nsec: i64) -> int {
    if sec < 0 || nsec < 0 {
        0
    } else if sec * nanos_per_second() + nsec > u64::MAX {
        u64::MAX as int
    } else {
        sec * nanos_per_second() + nsec
    }
}

/// Converts a clock reading to nanoseconds.
pub fn to_nanos(sec: i64, nsec: i64) -> (r: u64)
    ensures
        r == reading_to_nanos(sec, nsec),
{
    if sec < 0 || nsec < 0 {
        return 0;
    }
    let s: u128 = sec as u128;
    let n: u128 = nsec as u128;
    assert(s * 1_000_000_000 <= 0x7fff_ffff_ffff_ffff * 1_000_000_000) by (nonlinear_arith)
        requires
            s <= 0x7fff_ffff_ffff_ffff,
    ;
    let total: u128 = s * 1_000_000_000 + n;
    if total > 0xffff_ffff_ffff_ffff {
        u64::MAX
    } else {
        total as u64
    }
}

/// The current time of the monotonic clock in nanoseconds (0 when the clock
/// cannot be read).
pub fn now_nanos() -> (r: u64) {
    match read_monotonic_clock() {
        Some((sec, nsec)) => to_nanos(sec, nsec),
        None => 0,
    }
}

/// Time passed from `start` to `now`; zero when `now` is not after `start`.
pub open spec fn elapsed_nanos(start: u64, now: u64) -> int {
    if now >= start {
        now - start
    } else {
        0
    }
}

/// The time passed from `start` to `now` is at most `timeout_ms` milliseconds.
pub open spec fn within_timeout(start: u64, now: u64, timeout_ms: u64) -> bool {
    elapsed_nanos(start, now) <= timeout_ms * nanos_per_milli()
}

/// Whether no more than `timeout_ms` milliseconds passed from `start` to `now`.
pub fn is_within_timeout(start: u64, now: u64, timeout_ms: u64) -> (r: bool)
    ensures
        r == within_timeout(start, now, timeout_ms),
{
    let elapsed: u64 = if now >= start { now - start } else { 0 };
    let limit: u128 = (timeout_ms as u128) * 1_000_000;
    (elapsed as u128) <= limit
}

} // verus!
