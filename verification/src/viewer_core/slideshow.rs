//! Slideshow timing: the interval between slides and its adjustment.
use std::time::Duration;
use vstd::prelude::*;

verus! {

/// Shortest interval between slides, in seconds.
pub const MIN_INTERVAL_SECS: u64 = 1;

/// Longest interval between slides, in seconds.
pub const MAX_INTERVAL_SECS: u64 = 60;

/// Default interval between slides, in seconds.
pub const DEFAULT_INTERVAL_SECS: u64 = 5;

/// Nanoseconds in a second.
pub const NANOS_PER_SEC: u128 = 1_000_000_000;

/// The largest duration, in nanoseconds (`Duration::MAX`).
pub open spec fn max_duration_nanos() -> int {
    u64::MAX * 1_000_000_000 + 999_999_999
}

/// The length of a duration in nanoseconds.
pub uninterp spec fn duration_nanos(d: Duration) -> u128;

/// `Duration::as_nanos`: the whole duration in nanoseconds, which is at most
/// that of `Duration::MAX` (`u64::MAX` seconds and 999 999 999 ns).
#[verifier::external_body]
fn as_nanos(d: Duration) -> (r: u128)
    ensures
        r == duration_nanos(d),
        r <= max_duration_nanos(),
{
    d.as_nanos()
}

/// `Duration::new(secs, nanos)` with `nanos` below one second: a duration
/// of `secs` seconds and `nanos` nanoseconds.
#[verifier::external_body]
fn duration_new(secs: u64, nanos: u32) -> (r: Duration)
    requires
        nanos < 1_000_000_000,
    ensures
        duration_nanos(r) == secs * 1_000_000_000 + nanos,
{
    Duration::new(secs, nanos)
}

/// The duration of `n` nanoseconds.
fn from_nanos_total(n: u128) -> (r: Duration)
    requires
        n <= max_duration_nanos(),
    ensures
        duration_nanos(r) == n,
{
    let secs = n / NANOS_PER_SEC;
    let sub = n % NANOS_PER_SEC;
    assert(secs <= u64::MAX) by (nonlinear_arith)
        requires
            n <= u64::MAX * 1_000_000_000 + 999_999_999,
            secs == n / 1_000_000_000,
    ;
    assert(secs * 1_000_000_000 + sub == n) by (nonlinear_arith)
        requires
            secs == n / 1_000_000_000,
            sub == n % 1_000_000_000,
    ;
    duration_new(secs as u64, sub as u32)
}

/// The slideshow's default interval: five seconds.
pub fn default_interval() -> (r: Duration)
    ensures
        duration_nanos(r) == DEFAULT_INTERVAL_SECS * 1_000_000_000,
{
    duration_new(DEFAULT_INTERVAL_SECS, 0)
}

/// Half the interval, but at least one second.
pub open spec fn faster_spec(n: int) -> int {
    if n / 2 < MIN_INTERVAL_SECS * 1_000_000_000 {
        MIN_INTERVAL_SECS * 1_000_000_000
    } else {
        n / 2
    }
}

/// Twice the interval, but at most sixty seconds.
pub open spec fn slower_spec(n: int) -> int {
    if n * 2 > MAX_INTERVAL_SECS * 1_000_000_000 {
        MAX_INTERVAL_SECS * 1_000_000_000
    } else {
        n * 2
    }
}

/// Halves the interval (rounding down to the nanosecond), keeping it at one
/// second or more.
pub fn faster(interval: Duration) -> (r: Duration)
    ensures
        duration_nanos(r) == faster_spec(duration_nanos(interval) as int),
{
    let half = as_nanos(interval) / 2;
    if half < MIN_INTERVAL_SECS as u128 * NANOS_PER_SEC {
        duration_new(MIN_INTERVAL_SECS, 0)
    } else {
        from_nanos_total(half)
    }
}

/// `true` when `interval` can be doubled without leaving the range of a
/// `Duration`, as `slower` requires.
pub fn can_double(interval: Duration) -> (r: bool)
    ensures
        r == (duration_nanos(interval) * 2 <= max_duration_nanos()),
{
    let n = as_nanos(interval);
    n <= (u64::MAX as u128 * NANOS_PER_SEC + 999_999_999) / 2
}

/// Doubles the interval, keeping it at sixty seconds or less. Doubling must
/// not overflow a `Duration`.
pub fn slower(interval: Duration) -> (r: Duration)
    requires
        duration_nanos(interval) * 2 <= max_duration_nanos(),
    ensures
        duration_nanos(r) == slower_spec(duration_nanos(interval) as int),
{
    let double = as_nanos(interval) * 2;
    if double > MAX_INTERVAL_SECS as u128 * NANOS_PER_SEC {
        duration_new(MAX_INTERVAL_SECS, 0)
    } else {
        from_nanos_total(double)
    }
}

/// `true` once `elapsed` has reached `interval`.
pub fn elapsed_reached(elapsed: Duration, interval: Duration) -> (r: bool)
    ensures
        r == (duration_nanos(elapsed) >= duration_nanos(interval)),
{
    as_nanos(elapsed) >= as_nanos(interval)
}

/// The interval's whole seconds (`Duration::as_secs`), at least 1: what the
/// settings keep of the slideshow interval.
pub open spec fn interval_setting_spec(n: int) -> int {
    if n / 1_000_000_000 < 1 {
        1
    } else {
        n / 1_000_000_000
    }
}

/// The whole seconds of `interval`, at least 1.
pub fn interval_setting(interval: Duration) -> (r: u64)
    ensures
        r == interval_setting_spec(duration_nanos(interval) as int),
{
    let secs = as_nanos(interval) / NANOS_PER_SEC;
    assert(secs <= u64::MAX) by (nonlinear_arith)
        requires
            secs * 1_000_000_000 <= u64::MAX * 1_000_000_000 + 999_999_999,
    {
    }
    if secs < 1 {
        1
    } else {
        secs as u64
    }
}

/// The slideshow interval that the setting `secs` asks for: that many
/// seconds, at least one.
pub fn interval_from_setting(secs: u64) -> (r: Duration)
    ensures
        duration_nanos(r) == (if secs < 1 {
            1
        } else {
            secs
        }) * 1_000_000_000,
{
    if secs < 1 {
        duration_new(1, 0)
    } else {
        duration_new(secs, 0)
    }
}

/// Law: the interval that `faster` and `slower` give always lies between
/// one and sixty seconds when it started there, and `faster` never gives less
/// than one second.
pub proof fn law_interval_stays_in_range(n: int)
    requires
        MIN_INTERVAL_SECS * 1_000_000_000 <= n <= MAX_INTERVAL_SECS * 1_000_000_000,
    ensures
        MIN_INTERVAL_SECS * 1_000_000_000 <= faster_spec(n) <= MAX_INTERVAL_SECS * 1_000_000_000,
        MIN_INTERVAL_SECS * 1_000_000_000 <= slower_spec(n) <= MAX_INTERVAL_SECS * 1_000_000_000,
{
}

/// Law: `faster` halves the interval (to the nanosecond) whenever half of
/// it is still a second or more, and gives one second otherwise; `slower`
/// doubles it whenever the double is sixty seconds or less, and gives sixty
/// seconds otherwise. Between one and thirty seconds, slowing down and
/// then speeding up gives the interval back.
pub proof fn law_faster_halves_slower_doubles(n: int)
    requires
        n >= 0,
    ensures
        n / 2 >= 1_000_000_000 ==> faster_spec(n) == n / 2,
        n / 2 < 1_000_000_000 ==> faster_spec(n) == 1_000_000_000,
        2 * faster_spec(n) <= n || faster_spec(n) == 1_000_000_000,
        2 * n <= 60_000_000_000 ==> slower_spec(n) == 2 * n,
        2 * n > 60_000_000_000 ==> slower_spec(n) == 60_000_000_000,
        1_000_000_000 <= n <= 30_000_000_000 ==> faster_spec(slower_spec(n)) == n,
{
}

/// Law: the seconds kept in the settings are the interval's whole seconds
/// (rounded down), and one for an interval shorter than a second.
pub proof fn law_setting_keeps_whole_seconds(n: int)
    requires
        n >= 0,
    ensures
        n >= 1_000_000_000 ==> interval_setting_spec(n) * 1_000_000_000 <= n < (
        interval_setting_spec(n) + 1) * 1_000_000_000,
        n < 1_000_000_000 ==> interval_setting_spec(n) == 1,
{
}

} // verus!
