//! Window-time normalization: the deterministic map from a window kind and a
//! raw event timestamp to the bucket-start timestamp.
//!
//! Hour, day and week starts are plain floor arithmetic on seconds since the
//! epoch (a week starts on Monday 00:00:00 UTC). A month start depends on the
//! civil calendar, which chrono computes behind two trusted wrappers. The
//! all-time window collapses every timestamp to the sentinel `-1`.
use vstd::arithmetic::div_mod::lemma_fundamental_div_mod;
use vstd::arithmetic::div_mod::lemma_mod_bound;
use vstd::arithmetic::div_mod::lemma_mod_multiples_vanish;
use vstd::arithmetic::div_mod::lemma_small_mod;
use vstd::prelude::*;

use crate::models::WindowType;

verus! {

/// The greatest multiple of `w` that is at most `t`.
pub open spec fn floor_to(t: int, w: int) -> int
    recommends
        w > 0,
{
    t - t % w
}

/// The UTC year and month containing a timestamp; what chrono's calendar
/// computes from seconds since the epoch.
pub uninterp spec fn year_month_of_timestamp(t: int) -> (int, int);

/// The timestamp of 00:00:00 UTC on the first day of a month; what chrono's
/// calendar computes from a year and month number.
pub uninterp spec fn month_start_seconds(y: int, m: int) -> int;

/// Seconds from Monday 00:00:00 to Thursday 00:00:00, the weekday of the
/// epoch: shifting by it aligns week floors to Monday.
pub open spec fn week_shift() -> int {
    259200
}

/// The bucket-start timestamp for a window containing a raw timestamp.
pub open spec fn window_start(w: WindowType, t: int) -> int {
    match w {
        WindowType::Hour => floor_to(t, 3600),
        WindowType::Day => floor_to(t, 86400),
        WindowType::Week => floor_to(t + week_shift(), 604800) - week_shift(),
        WindowType::Month => month_start_seconds(
            year_month_of_timestamp(t).0,
            year_month_of_timestamp(t).1,
        ),
        WindowType::AllTime => -1,
    }
}

/// Relies on chrono's DateTime::<Utc>::from_timestamp and the Datelike
/// accessors year and month: for a timestamp within the i32 range the
/// conversion to a UTC date succeeds, the month lies in 1..=12, and the year
/// lies in 1901..=2038 (i32 seconds span 1901-12-13 through 2038-01-19).
#[verifier::external_body]
fn year_month_of(t: i64) -> (r: (i32, u32))
    requires
        -2147483648 <= t <= 2147483647,
    ensures
        (r.0 as int, r.1 as int) == year_month_of_timestamp(t as int),
        1901 <= r.0 <= 2038,
        1 <= r.1 <= 12,
{
    let dt = chrono::DateTime::from_timestamp(t, 0).unwrap();
    (chrono::Datelike::year(&dt), chrono::Datelike::month(&dt))
}

/// Relies on chrono's NaiveDate::from_ymd_opt, NaiveDate::and_hms_opt and
/// DateTime::timestamp: for a year well inside chrono's supported range
/// (about ±262000 years) and a month in 1..=12, the first day of the month
/// exists and its UTC midnight timestamp lies within chrono's range of under
/// 9e12 seconds in magnitude.
#[verifier::external_body]
fn month_start_ts(y: i32, m: u32) -> (r: i64)
    requires
        -200000 <= y <= 200000,
        1 <= m <= 12,
    ensures
        r == month_start_seconds(y as int, m as int),
        -9_000_000_000_000 <= r <= 9_000_000_000_000,
{
    let date = chrono::NaiveDate::from_ymd_opt(y, m, 1).unwrap();
    let dt = date.and_hms_opt(0, 0, 0).unwrap();
    dt.and_utc().timestamp()
}

/// Floor `t` to a multiple of an hour.
fn floor_hour(t: i64) -> (r: i64)
    requires
        -4_000_000_000 <= t <= 4_000_000_000,
    ensures
        r == floor_to(t as int, 3600),
{
    let q = t % 3600;
    let m = if q < 0 {
        q + 3600
    } else {
        q
    };
    t - m
}

/// Floor `t` to a multiple of a day.
fn floor_day(t: i64) -> (r: i64)
    requires
        -4_000_000_000 <= t <= 4_000_000_000,
    ensures
        r == floor_to(t as int, 86400),
{
    let q = t % 86400;
    let m = if q < 0 {
        q + 86400
    } else {
        q
    };
    t - m
}

/// Floor `t` to a multiple of a week.
fn floor_week(t: i64) -> (r: i64)
    requires
        -4_000_000_000 <= t <= 4_000_000_000,
    ensures
        r == floor_to(t as int, 604800),
{
    let q = t % 604800;
    let m = if q < 0 {
        q + 604800
    } else {
        q
    };
    t - m
}

/// The bucket-start timestamp for `window` containing `timestamp`.
///
/// Every input is accepted; the all-time window yields the sentinel `-1`.
pub fn get_timestamp_start(window: &WindowType, timestamp: i32) -> (r: i64)
    ensures
        r == window_start(*window, timestamp as int),
        -9_000_000_000_000 <= r <= 9_000_000_000_000,
{
    let t = timestamp as i64;
    match *window {
        WindowType::Hour => {
            proof {
                lemma_mod_bound(t as int, 3600);
            }
            floor_hour(t)
        },
        WindowType::Day => {
            proof {
                lemma_mod_bound(t as int, 86400);
            }
            floor_day(t)
        },
        WindowType::Week => {
            proof {
                lemma_mod_bound(t + week_shift(), 604800);
            }
            floor_week(t + 259200) - 259200
        },
        WindowType::Month => {
            let (y, m) = year_month_of(t);
            month_start_ts(y, m)
        },
        WindowType::AllTime => -1,
    }
}

/// Any timestamp lies inside the fixed-length window that starts at its own
/// bucket start.
pub proof fn lemma_window_start_in_window(w: WindowType, t: int)
    requires
        w == WindowType::Hour || w == WindowType::Day || w == WindowType::Week,
    ensures
        window_start(w, t) <= t < window_start(w, t) + window_span(w),
{
    match w {
        WindowType::Hour => {
            lemma_mod_bound(t, 3600);
        },
        WindowType::Day => {
            lemma_mod_bound(t, 86400);
        },
        WindowType::Week => {
            lemma_mod_bound(t + week_shift(), 604800);
        },
        _ => {
        },
    }
}

/// The length in seconds of a fixed-length window.
pub open spec fn window_span(w: WindowType) -> int {
    match w {
        WindowType::Hour => 3600,
        WindowType::Day => 86400,
        WindowType::Week => 604800,
        _ => 0,
    }
}

proof fn lemma_floor_to_stable(t: int, u: int, w: int)
    requires
        w > 0,
        floor_to(t, w) <= u < floor_to(t, w) + w,
    ensures
        floor_to(u, w) == floor_to(t, w),
{
    lemma_fundamental_div_mod(t, w);
    lemma_mod_bound(t, w);
    let q = t / w;
    let d = u - floor_to(t, w);
    lemma_mod_multiples_vanish(q, d, w);
    lemma_small_mod(d as nat, w as nat);
    assert(u == w * q + d);
    assert(u % w == d);
}

/// WindowNormalizer maps every timestamp within one hour, day or week to the
/// identical bucket start: every `u` inside the window that contains `t`
/// normalizes to the same value as `t`.
pub proof fn lemma_window_normalizer_fixed(w: WindowType, t: int, u: int)
    requires
        w == WindowType::Hour || w == WindowType::Day || w == WindowType::Week,
        window_start(w, t) <= u < window_start(w, t) + window_span(w),
    ensures
        window_start(w, u) == window_start(w, t),
{
    match w {
        WindowType::Hour => {
            lemma_floor_to_stable(t, u, 3600);
        },
        WindowType::Day => {
            lemma_floor_to_stable(t, u, 86400);
        },
        WindowType::Week => {
            lemma_floor_to_stable(t + week_shift(), u + week_shift(), 604800);
        },
        _ => {
        },
    }
}

/// WindowNormalizer maps every timestamp within one UTC month to the
/// identical bucket start.
pub proof fn lemma_window_normalizer_month(t: int, u: int)
    requires
        year_month_of_timestamp(t) == year_month_of_timestamp(u),
    ensures
        window_start(WindowType::Month, t) == window_start(WindowType::Month, u),
{
}

/// The all-time window collapses every timestamp, however large or negative,
/// to the sentinel `-1`.
pub proof fn lemma_window_normalizer_alltime(t: int)
    ensures
        window_start(WindowType::AllTime, t) == -1,
{
}

} // verus!
