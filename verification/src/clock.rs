//! Timestamps: signed microseconds since 1970-01-01T00:00:00Z, the representation
//! that `nexcore_chrono::DateTime` uses internally.

use vstd::prelude::*;

verus! {

/// `i64::saturating_sub` on mathematical integers.
pub open spec fn saturating_diff(later: int, earlier: int) -> int {
    let d = later - earlier;
    if d > i64::MAX {
        i64::MAX as int
    } else if d < i64::MIN {
        i64::MIN as int
    } else {
        d
    }
}

/// Integer division rounding toward zero (Rust's `/` on signed integers), for `b > 0`.
pub open spec fn trunc_div(a: int, b: int) -> int {
    if a >= 0 {
        a / b
    } else {
        -((-a) / b)
    }
}

/// Whole days in a span of microseconds, truncated toward zero.
pub open spec fn span_days(micros: int) -> int {
    trunc_div(trunc_div(micros, 1_000_000), 86_400)
}

/// The current time in microseconds since the epoch, read by
/// `nexcore_chrono::DateTime::now` and taken out with `timestamp_micros`.
/// `now` reads the system clock as a non-negative span since the epoch (zero
/// when the clock is earlier) and combines its parts with saturating arithmetic,
/// so the reading is never negative; which instant it is depends on the clock.
#[verifier::external_body]
pub fn now_micros() -> (t: i64)
    ensures
        t >= 0,
{
    nexcore_chrono::DateTime::now().timestamp_micros()
}

/// `DateTime::signed_duration_since` of `nexcore_chrono`, on timestamps given in
/// microseconds: the source computes `later - earlier` with `i64::saturating_sub`.
#[verifier::external_body]
pub fn signed_duration_since(later: i64, earlier: i64) -> (d: i64)
    ensures
        d == saturating_diff(later as int, earlier as int),
{
    nexcore_chrono::DateTime::from_timestamp_micros(later).signed_duration_since(
        nexcore_chrono::DateTime::from_timestamp_micros(earlier),
    ).num_microseconds()
}

/// `Duration::num_days` of `nexcore_chrono`, on a duration given in microseconds:
/// the source divides by a million and then by 86 400, each time truncating
/// toward zero.
#[verifier::external_body]
pub fn num_days(micros: i64) -> (days: i64)
    ensures
        days == span_days(micros as int),
{
    nexcore_chrono::Duration::microseconds(micros).num_days()
}

} // verus!
