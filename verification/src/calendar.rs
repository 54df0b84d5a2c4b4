//! The proleptic Gregorian calendar, and the conversion of Unix time into it.

use vstd::arithmetic::div_mod::{
    lemma_fundamental_div_mod, lemma_fundamental_div_mod_converse,
};
use vstd::prelude::*;

verus! {

/// Leap years of the Gregorian calendar.
pub open spec fn is_leap_year(y: int) -> bool {
    (y % 4 == 0 && y % 100 != 0) || y % 400 == 0
}

/// 1 for a leap year, 0 otherwise.
pub open spec fn leap_day(y: int) -> int {
    if is_leap_year(y) {
        1
    } else {
        0
    }
}

/// Number of days of month `m` (1 = January) of year `y`.
pub open spec fn days_in_month(y: int, m: int) -> int {
    if m == 2 {
        28 + leap_day(y)
    } else if m == 4 || m == 6 || m == 9 || m == 11 {
        30
    } else {
        31
    }
}

/// Days of year `y` that come before the first of month `m`.
pub open spec fn days_before_month(y: int, m: int) -> int
    decreases m,
{
    if m <= 1 {
        0
    } else {
        days_before_month(y, m - 1) + days_in_month(y, m - 1)
    }
}

/// Number of leap days, counted from a fixed origin, in the years before `y`.
pub open spec fn leap_days_before(y: int) -> int {
    (y - 1) / 4 - (y - 1) / 100 + (y - 1) / 400
}

/// Days from 1970-01-01 to January 1st of year `y` (negative before 1970).
pub open spec fn days_before_year(y: int) -> int {
    365 * (y - 1970) + leap_days_before(y) - leap_days_before(1970)
}

/// `(y, m, d)` names a day of the calendar.
pub open spec fn is_valid_date(y: int, m: int, d: int) -> bool {
    1 <= m <= 12 && 1 <= d <= days_in_month(y, m)
}

/// Days from 1970-01-01 to the date `(y, m, d)`.
pub open spec fn days_from_civil(y: int, m: int, d: int) -> int {
    days_before_year(y) + days_before_month(y, m) + d - 1
}

/// `(y, m, d)` is the calendar date of day number `days` (0 = 1970-01-01).
pub open spec fn is_civil_date_of(days: int, y: int, m: int, d: int) -> bool {
    is_valid_date(y, m, d) && days_from_civil(y, m, d) == days
}

/// The `(year, month, day)` whose day number is `days` (unique by
/// `lemma_civil_date_unique`).
pub open spec fn civil_of(days: int) -> (int, int, int) {
    choose|y: int, m: int, d: int| is_civil_date_of(days, y, m, d)
}

/// Day number of a Unix timestamp.
pub open spec fn day_of(secs: int) -> int {
    secs / 86400
}

/// Hour of the day of a Unix timestamp.
pub open spec fn hour_of(secs: int) -> int {
    (secs % 86400) / 3600
}

/// Minute of the hour of a Unix timestamp.
pub open spec fn minute_of(secs: int) -> int {
    (secs % 86400) % 3600 / 60
}

proof fn lemma_div_shift(x: int, q: int, d: int)
    requires
        d > 0,
    ensures
        (x + q * d) / d == x / d + q,
        (x + q * d) % d == x % d,
{
    lemma_fundamental_div_mod(x, d);
    assert(x + q * d == (x / d + q) * d + x % d) by (nonlinear_arith)
        requires
            x == d * (x / d) + x % d,
    ;
    lemma_fundamental_div_mod_converse(x + q * d, d, x / d + q, x % d);
}

proof fn lemma_consecutive_div(y: int, d: int)
    requires
        d > 0,
    ensures
        y / d - (y - 1) / d == (if y % d == 0 { 1int } else { 0int }),
{
    lemma_fundamental_div_mod(y, d);
    lemma_fundamental_div_mod(y - 1, d);
    assert(y % d == 0 ==> y - 1 == (y / d - 1) * d + (d - 1)) by (nonlinear_arith)
        requires
            y == d * (y / d) + y % d,
    ;
    assert(y - 1 == (y / d) * d + (y % d - 1)) by (nonlinear_arith)
        requires
            y == d * (y / d) + y % d,
    ;
    if y % d == 0 {
        lemma_fundamental_div_mod_converse(y - 1, d, y / d - 1, d - 1);
    } else {
        lemma_fundamental_div_mod_converse(y - 1, d, y / d, y % d - 1);
    }
}

/// A year has 365 days, and 366 in a leap year.
pub proof fn lemma_year_length(y: int)
    ensures
        days_before_year(y + 1) == days_before_year(y) + 365 + leap_day(y),
{
    lemma_consecutive_div(y, 4);
    lemma_consecutive_div(y, 100);
    lemma_consecutive_div(y, 400);
    assert(y % 400 == 0 ==> y % 100 == 0 && y % 4 == 0) by {
        lemma_div_shift(0, y / 400, 400);
        lemma_fundamental_div_mod(y, 400);
        lemma_div_shift(0, (y / 400) * 4, 100);
        lemma_div_shift(0, (y / 400) * 100, 4);
        assert(y % 400 == 0 ==> y == (y / 400) * 4 * 100 && y == (y / 400) * 100 * 4)
            by (nonlinear_arith)
            requires
                y == 400 * (y / 400) + y % 400,
        ;
    }
    assert(y % 100 == 0 ==> y % 4 == 0) by {
        lemma_fundamental_div_mod(y, 100);
        lemma_div_shift(0, (y / 100) * 25, 4);
        assert(y % 100 == 0 ==> y == (y / 100) * 25 * 4) by (nonlinear_arith)
            requires
                y == 100 * (y / 100) + y % 100,
        ;
    }
}


/// Position of the day `doe` (0 = March 1st) inside a 400-year cycle: the
/// March-based year of the cycle that contains it, and where that year starts.
proof fn lemma_year_of_cycle(doe: u32)
    requires
        doe < 146097,
    ensures
        ({
            let yoe = (doe - doe / 1460 + doe / 36524 - doe / 146096) / 365;
            &&& yoe < 400
            &&& 365 * yoe + yoe / 4 - yoe / 100 <= doe
            &&& doe - (365 * yoe + yoe / 4 - yoe / 100) < 365 + (if (yoe + 1) % 4 == 0 && ((yoe
                + 1) % 100 != 0 || (yoe + 1) % 400 == 0) {
                1u32
            } else {
                0u32
            })
        }),
{
    assert({
        let yoe = (doe - doe / 1460 + doe / 36524 - doe / 146096) / 365;
        &&& yoe < 400
        &&& 365 * yoe + yoe / 4 - yoe / 100 <= doe
        &&& doe - (365 * yoe + yoe / 4 - yoe / 100) < 365 + (if (yoe + 1) % 4 == 0 && ((yoe + 1)
            % 100 != 0 || (yoe + 1) % 400 == 0) {
            1u32
        } else {
            0u32
        })
    }) by (bit_vector)
        requires
            doe < 146097,
    ;
}

/// Month (counted from March, 0 = March) of the day `doy` of a March-based year.
proof fn lemma_month_of_year(doy: u32)
    requires
        doy < 366,
    ensures
        ({
            let mp = (5 * doy + 2) / 153;
            &&& mp < 12
            &&& (153 * mp + 2) / 5 <= doy
            &&& mp < 11 ==> doy < (153 * (mp + 1) + 2) / 5
        }),
{
    assert({
        let mp = (5 * doy + 2) / 153;
        &&& mp < 12
        &&& (153 * mp + 2) / 5 <= doy
        &&& mp < 11 ==> doy < (153 * (mp + 1) + 2) / 5
    }) by (bit_vector)
        requires
            doy < 366,
    ;
}

/// Leap days before year `yoe` of a cycle, counted as the cycle start formula does.
proof fn lemma_leap_days_in_cycle(yoe: u32)
    requires
        1 <= yoe < 400,
    ensures
        (yoe - 1) / 4 - (yoe - 1) / 100 + (yoe - 1) / 400 + (if (yoe % 4 == 0 && yoe % 100 != 0)
            || yoe % 400 == 0 {
            1int
        } else {
            0int
        }) == yoe / 4 - yoe / 100,
{
    assert((yoe - 1) / 4 - (yoe - 1) / 100 + (yoe - 1) / 400 + (if (yoe % 4 == 0 && yoe % 100
        != 0) || yoe % 400 == 0 {
        1u32
    } else {
        0u32
    }) == yoe / 4 - yoe / 100) by (bit_vector)
        requires
            1 <= yoe < 400,
    ;
}

/// The leap rule only looks at the year modulo 400.
proof fn lemma_leap_periodic(k: int, era: int)
    ensures
        is_leap_year(400 * era + k) == is_leap_year(k),
{
    lemma_div_shift(k, era * 100, 4);
    lemma_div_shift(k, era * 4, 100);
    lemma_div_shift(k, era, 400);
    assert(400 * era + k == k + era * 100 * 4 && 400 * era + k == k + era * 4 * 100);
}

/// March 1st of year `400 * era + yoe` falls on the day the cycle formula gives.
proof fn lemma_march_first(era: int, yoe: int)
    requires
        0 <= yoe < 400,
    ensures
        days_before_year(400 * era + yoe) + 59 + leap_day(400 * era + yoe) == 146097 * era + 365
            * yoe + yoe / 4 - yoe / 100 - 719468,
{
    let y = 400 * era + yoe;
    lemma_div_shift(yoe - 1, era * 100, 4);
    lemma_div_shift(yoe - 1, era * 4, 100);
    lemma_div_shift(yoe - 1, era, 400);
    assert(y - 1 == yoe - 1 + era * 100 * 4 && y - 1 == yoe - 1 + era * 4 * 100);
    assert(leap_days_before(y) == 97 * era + leap_days_before(yoe));
    lemma_leap_periodic(yoe, era);
    assert(leap_days_before(1970) == 477);
    if yoe == 0 {
        assert(leap_days_before(0) == -1);
    } else {
        lemma_leap_days_in_cycle(yoe as u32);
    }
}

/// Where each month of a March-based year starts, and how long it is.
proof fn lemma_march_month(y: int, mp: int)
    requires
        0 <= mp < 12,
    ensures
        mp < 10 ==> days_before_month(y, mp + 3) == 59 + leap_day(y) + (153 * mp + 2) / 5,
        mp < 10 ==> days_in_month(y, mp + 3) == (153 * (mp + 1) + 2) / 5 - (153 * mp + 2) / 5,
        mp == 10 ==> (153 * mp + 2) / 5 == 306 && days_before_month(y + 1, 1) == 0,
        mp == 10 ==> days_in_month(y + 1, 1) == (153 * (mp + 1) + 2) / 5 - (153 * mp + 2) / 5,
        mp == 11 ==> (153 * mp + 2) / 5 == 337 && days_before_month(y + 1, 2) == 31,
{
    reveal_with_fuel(days_before_month, 13);
    if mp == 0 {
    } else if mp == 1 {
    } else if mp == 2 {
    } else if mp == 3 {
    } else if mp == 4 {
    } else if mp == 5 {
    } else if mp == 6 {
    } else if mp == 7 {
    } else if mp == 8 {
    } else if mp == 9 {
    } else if mp == 10 {
    } else {
    }
}

proof fn lemma_month_within_year(y: int, m: int)
    requires
        1 <= m <= 12,
    ensures
        0 <= days_before_month(y, m),
        days_before_month(y, m) + days_in_month(y, m) <= 365 + leap_day(y),
{
    reveal_with_fuel(days_before_month, 13);
    if m == 1 {
    } else if m == 2 {
    } else if m == 3 {
    } else if m == 4 {
    } else if m == 5 {
    } else if m == 6 {
    } else if m == 7 {
    } else if m == 8 {
    } else if m == 9 {
    } else if m == 10 {
    } else if m == 11 {
    } else {
    }
}

proof fn lemma_days_before_month_monotone(y: int, a: int, b: int)
    requires
        1 <= a <= b,
    ensures
        days_before_month(y, a) <= days_before_month(y, b),
    decreases b - a,
{
    if a < b {
        lemma_days_before_month_monotone(y, a, b - 1);
    }
}

proof fn lemma_days_before_year_monotone(a: int, b: int)
    requires
        a <= b,
    ensures
        days_before_year(a) <= days_before_year(b),
    decreases b - a,
{
    if a < b {
        lemma_days_before_year_monotone(a, b - 1);
        lemma_year_length(b - 1);
    }
}

/// Different calendar dates are different days: a day number has at most one
/// calendar date.
pub proof fn lemma_civil_date_unique(days: int, y1: int, m1: int, d1: int, y2: int, m2: int, d2: int)
    requires
        is_civil_date_of(days, y1, m1, d1),
        is_civil_date_of(days, y2, m2, d2),
    ensures
        y1 == y2 && m1 == m2 && d1 == d2,
{
    lemma_month_within_year(y1, m1);
    lemma_month_within_year(y2, m2);
    lemma_year_length(y1);
    lemma_year_length(y2);
    if y1 < y2 {
        lemma_days_before_year_monotone(y1 + 1, y2);
    } else if y2 < y1 {
        lemma_days_before_year_monotone(y2 + 1, y1);
    } else {
        if m1 < m2 {
            lemma_days_before_month_monotone(y1, m1 + 1, m2);
        } else if m2 < m1 {
            lemma_days_before_month_monotone(y1, m2 + 1, m1);
        }
    }
}

/// Splits a Unix timestamp into its calendar date and its time of day:
/// `(year, month, day, hour, minute)`.
pub fn civil_from_epoch(secs: i64) -> (r: (i64, u32, u32, u32, u32))
    ensures
        is_civil_date_of(day_of(secs as int), r.0 as int, r.1 as int, r.2 as int),
        r.3 == hour_of(secs as int),
        r.4 == minute_of(secs as int),
{
    proof {
        lemma_fundamental_div_mod(secs as int, 86400);
    }
    let days = secs.checked_div_euclid(86400).unwrap();
    let rem = secs.checked_rem_euclid(86400).unwrap();
    let rem32 = rem as u32;
    let hour = rem32 / 3600;
    let min = (rem32 % 3600) / 60;

    let z = days + 719468;
    proof {
        lemma_fundamental_div_mod(z as int, 146097);
    }
    let era = z.checked_div_euclid(146097).unwrap();
    let doe = (z - era * 146097) as u32;
    proof {
        lemma_year_of_cycle(doe);
    }
    let yoe = (doe - doe / 1460 + doe / 36524 - doe / 146096) / 365;
    let y = yoe as i64 + era * 400;
    let doy = doe - (365 * yoe + yoe / 4 - yoe / 100);
    proof {
        lemma_month_of_year(doy);
    }
    let mp = (5 * doy + 2) / 153;
    let day = doy - (153 * mp + 2) / 5 + 1;
    let month = if mp < 10 {
        mp + 3
    } else {
        mp - 9
    };
    let year = if month <= 2 {
        y + 1
    } else {
        y
    };
    proof {
        lemma_march_first(era as int, yoe as int);
        lemma_march_month(y as int, mp as int);
        lemma_year_length(y as int);
        lemma_leap_periodic(yoe + 1, era as int);
        assert(400 * era + yoe + 1 == y + 1);
        assert(y == 400 * era + yoe);
    }
    (year, month, day, hour, min)
}

} // verus!
