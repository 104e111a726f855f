use vstd::prelude::*;

use crate::ids::{padded, push_padded};
use vstd::arithmetic::div_mod::{lemma_hoist_over_denominator, lemma_mod_multiples_vanish};

verus! {

/// Proleptic Gregorian leap year rule.
pub open spec fn is_leap_year(y: int) -> bool {
    (y % 4 == 0 && y % 100 != 0) || y % 400 == 0
}

pub open spec fn days_in_month(y: int, m: int) -> int {
    if m == 2 {
        if is_leap_year(y) {
            29
        } else {
            28
        }
    } else if m == 4 || m == 6 || m == 9 || m == 11 {
        30
    } else {
        31
    }
}

/// A real calendar date: month in 1..=12 and day within that month.
pub open spec fn valid_date(y: int, m: int, d: int) -> bool {
    1 <= m <= 12 && 1 <= d <= days_in_month(y, m)
}

/// Days of year `y` that come before the first of month `m`.
pub open spec fn days_before_month(y: int, m: int) -> int {
    let base: int = if m <= 1 {
        0
    } else if m == 2 {
        31
    } else if m == 3 {
        59
    } else if m == 4 {
        90
    } else if m == 5 {
        120
    } else if m == 6 {
        151
    } else if m == 7 {
        181
    } else if m == 8 {
        212
    } else if m == 9 {
        243
    } else if m == 10 {
        273
    } else if m == 11 {
        304
    } else {
        334
    };
    base + if m > 2 && is_leap_year(y) {
        1int
    } else {
        0int
    }
}

/// Days from 0000-01-01 to the first of January of year `y` (negative before year 0):
/// 365 per year plus one per leap year in between.
pub open spec fn days_before_year(y: int) -> int {
    365 * y + (y + 3) / 4 - (y + 99) / 100 + (y + 399) / 400
}

/// Days from 0000-01-01 to the date `y-m-d`.
pub open spec fn day_number(y: int, m: int, d: int) -> int {
    days_before_year(y) + days_before_month(y, m) + d - 1
}

/// Days from 1970-01-01 to the date `y-m-d`.
pub open spec fn epoch_day(y: int, m: int, d: int) -> int {
    day_number(y, m, d) - day_number(1970, 1, 1)
}

/// The UTC day (counted from 1970-01-01) in which the instant `unix_ms` falls.
pub open spec fn utc_day_of_unix_ms(unix_ms: int) -> int {
    unix_ms / 86_400_000
}

/// `YYYYMMDD`: the year with at least four digits (a minus sign counting as
/// one of them), then month and day with two digits each.
pub open spec fn date_text(y: int, m: int, d: int) -> Seq<char> {
    let year = if y >= 0 {
        padded(y as nat, 4)
    } else {
        seq!['-'] + padded((-y) as nat, 3)
    };
    year + padded(m as nat, 2) + padded(d as nat, 2)
}

proof fn lemma_era_shift(k: int, e: int)
    ensures
        days_before_year(k + 400 * e) == days_before_year(k) + 146097 * e,
        is_leap_year(k + 400 * e) == is_leap_year(k),
{
    lemma_hoist_over_denominator(k + 3, 100 * e, 4);
    lemma_hoist_over_denominator(k + 99, 4 * e, 100);
    lemma_hoist_over_denominator(k + 399, e, 400);
    assert(k + 3 + (100 * e) * 4 == k + 400 * e + 3);
    assert(k + 99 + (4 * e) * 100 == k + 400 * e + 99);
    assert(k + 399 + e * 400 == k + 400 * e + 399);
    lemma_mod_multiples_vanish(100 * e, k, 4);
    lemma_mod_multiples_vanish(4 * e, k, 100);
    lemma_mod_multiples_vanish(e, k, 400);
    assert(4 * (100 * e) + k == k + 400 * e);
    assert(100 * (4 * e) + k == k + 400 * e);
    assert(400 * e + k == k + 400 * e);
}

proof fn lemma_year_of_era(doe: int)
    requires
        0 <= doe < 146097,
    ensures
        ({
            let yoe = (doe - doe / 1460 + doe / 36524 - doe / 146096) / 365;
            let base = 365 * yoe + yoe / 4 - yoe / 100;
            &&& 0 <= yoe < 400
            &&& base <= doe
            &&& doe - base <= 365
            &&& doe - base == 365 ==> (yoe % 4 == 3 && (yoe % 100 != 99 || yoe == 399))
        }),
{
}

proof fn lemma_month_of_year(doy: int)
    requires
        0 <= doy <= 365,
    ensures
        0 <= (5 * doy + 2) / 153 <= 11,
        (153 * ((5 * doy + 2) / 153) + 2) / 5 <= doy,
        (5 * doy + 2) / 153 <= 10 ==> doy < (153 * ((5 * doy + 2) / 153) + 155) / 5,
{
}

proof fn lemma_within_era(yoe: int)
    requires
        0 <= yoe < 400,
    ensures
        days_before_year(yoe) + (if is_leap_year(yoe) { 1int } else { 0int }) - 1 == 365 * yoe
            + yoe / 4 - yoe / 100,
        days_before_year(yoe + 1) == days_before_year(yoe) + 365 + (if is_leap_year(yoe) {
            1int
        } else {
            0int
        }),
{
}

proof fn lemma_march_months(mp: int)
    requires
        0 <= mp <= 9,
    ensures
        days_before_month(1, mp + 3) == 59 + (153 * mp + 2) / 5,
        days_in_month(1, mp + 3) == (153 * mp + 155) / 5 - (153 * mp + 2) / 5,
{
}

/// The calendar decomposition of a day count shifted to start at 0000-03-01.
proof fn lemma_civil(shifted: int, era: int, doe: int)
    requires
        shifted == era * 146097 + doe,
        0 <= doe < 146097,
    ensures
        ({
            let yoe = (doe - doe / 1460 + doe / 36524 - doe / 146096) / 365;
            let doy = doe - (365 * yoe + yoe / 4 - yoe / 100);
            let mp = (5 * doy + 2) / 153;
            let d = doy - (153 * mp + 2) / 5 + 1;
            let m = if mp < 10 { mp + 3 } else { mp - 9 };
            let y = yoe + era * 400 + if m <= 2 { 1int } else { 0int };
            &&& valid_date(y, m, d)
            &&& day_number(y, m, d) == shifted + 60
            &&& 0 <= yoe < 400
            &&& 0 <= doy <= 365
            &&& 0 <= mp <= 11
        }),
{
    let yoe = (doe - doe / 1460 + doe / 36524 - doe / 146096) / 365;
    let base = 365 * yoe + yoe / 4 - yoe / 100;
    let doy = doe - base;
    lemma_year_of_era(doe);
    lemma_month_of_year(doy);
    let mp = (5 * doy + 2) / 153;
    let d = doy - (153 * mp + 2) / 5 + 1;
    lemma_within_era(yoe);
    lemma_era_shift(yoe, era);
    lemma_era_shift(yoe + 1, era);
    assert(yoe + 400 * era == yoe + era * 400);
    assert(yoe + 1 + 400 * era == yoe + era * 400 + 1);
    assert(146097 * era == era * 146097);
    if mp < 10 {
        lemma_march_months(mp);
        lemma_era_shift(1, era + 0);
        assert(is_leap_year(yoe + era * 400) == is_leap_year(yoe));
    } else if mp == 10 {
    } else {
        if doy == 365 {
            assert((yoe + 1) % 4 == 0);
            assert(is_leap_year(yoe + 1));
        }
    }
}

/// `x / 86_400_000` rounded toward negative infinity.
fn floor_div_day(x: i64) -> (q: i64)
    ensures
        q as int == x as int / 86_400_000,
{
    if x >= 0 {
        (x as u64 / 86_400_000) as i64
    } else {
        let y: u64 = (-(x + 1)) as u64;
        let q: u64 = y / 86_400_000;
        assert(x as int / 86_400_000 == -(q as int) - 1) by {
            assert(y as int == q * 86_400_000 + y as int % 86_400_000);
            assert(x as int == (-(q as int) - 1) * 86_400_000 + (86_400_000 - 1 - y as int
                % 86_400_000));
        }
        -(q as i64) - 1
    }
}

/// `x / 146_097` rounded toward negative infinity.
fn floor_div_era(x: i64) -> (q: i64)
    requires
        x > i64::MIN,
    ensures
        q as int == x as int / 146_097,
{
    if x >= 0 {
        (x as u64 / 146_097) as i64
    } else {
        let y: u64 = (-(x + 1)) as u64;
        let q: u64 = y / 146_097;
        assert(x as int / 146_097 == -(q as int) - 1) by {
            assert(y as int == q * 146_097 + y as int % 146_097);
            assert(x as int == (-(q as int) - 1) * 146_097 + (146_097 - 1 - y as int % 146_097));
        }
        -(q as i64) - 1
    }
}

/// The calendar date of the UTC day count `days` (days since 1970-01-01).
pub fn civil_from_days(days: i64) -> (r: (i64, u32, u32))
    requires
        -200_000_000_000 <= days <= 200_000_000_000,
    ensures
        valid_date(r.0 as int, r.1 as int, r.2 as int),
        epoch_day(r.0 as int, r.1 as int, r.2 as int) == days,
{
    let shifted = days + 719_468;
    let era = floor_div_era(shifted);
    let doe_i = shifted - era * 146_097;
    assert(0 <= doe_i < 146_097);
    let doe = doe_i as u64;
    let yoe = (doe - doe / 1_460 + doe / 36_524 - doe / 146_096) / 365;
    proof {
        lemma_civil(shifted as int, era as int, doe as int);
    }
    let doy = doe - (365 * yoe + yoe / 4 - yoe / 100);
    let mp = (5 * doy + 2) / 153;
    let day = doy - (153 * mp + 2) / 5 + 1;
    let month = if mp < 10 {
        mp + 3
    } else {
        mp - 9
    };
    let year = yoe as i64 + era * 400 + if month <= 2 {
        1i64
    } else {
        0i64
    };
    assert(day_number(1970, 1, 1) == 719_528);
    (year, month as u32, day as u32)
}

/// The UTC calendar date of the instant `unix_ms` (milliseconds since the
/// Unix epoch), written `YYYYMMDD` without consulting any locale or time zone.
pub fn utc_date_from_unix_ms(unix_ms: i64) -> (r: String)
    ensures
        exists|y: int, m: int, d: int|
            valid_date(y, m, d) && epoch_day(y, m, d) == utc_day_of_unix_ms(unix_ms as int) && r@
                == date_text(y, m, d),
{
    let days = floor_div_day(unix_ms);
    let (y, m, d) = civil_from_days(days);
    let mut out = String::new();
    if y >= 0 {
        push_padded(&mut out, y as u64, 4);
    } else {
        proof { reveal_strlit("-"); }
        out.append("-");
        push_padded(&mut out, (-y) as u64, 3);
    }
    push_padded(&mut out, m as u64, 2);
    push_padded(&mut out, d as u64, 2);
    assert(out@ =~= date_text(y as int, m as int, d as int));
    out
}

proof fn lemma_next_year(y: int)
    ensures
        days_before_year(y + 1) == days_before_year(y) + 365 + if is_leap_year(y) {
            1int
        } else {
            0int
        },
{
}

proof fn lemma_years_ordered(a: int, b: int)
    requires
        a < b,
    ensures
        days_before_year(a + 1) <= days_before_year(b),
    decreases b - a,
{
    lemma_next_year(b - 1);
    if a + 1 < b {
        lemma_years_ordered(a, b - 1);
    }
}

proof fn lemma_within_year(y: int, m: int, d: int)
    requires
        valid_date(y, m, d),
    ensures
        days_before_year(y) <= day_number(y, m, d) < days_before_year(y + 1),
{
    lemma_next_year(y);
}

proof fn lemma_month_ordered(y: int, m1: int, d1: int, m2: int, d2: int)
    requires
        valid_date(y, m1, d1),
        valid_date(y, m2, d2),
        m1 < m2,
    ensures
        days_before_month(y, m1) + d1 < days_before_month(y, m2) + d2,
{
}

/// A day count names exactly one calendar date: two real dates with the same
/// day number (hence the same epoch day) are the same date.
pub proof fn law_day_number_unique(y1: int, m1: int, d1: int, y2: int, m2: int, d2: int)
    requires
        valid_date(y1, m1, d1),
        valid_date(y2, m2, d2),
        day_number(y1, m1, d1) == day_number(y2, m2, d2),
    ensures
        y1 == y2,
        m1 == m2,
        d1 == d2,
{
    lemma_within_year(y1, m1, d1);
    lemma_within_year(y2, m2, d2);
    if y1 < y2 {
        lemma_years_ordered(y1, y2);
    } else if y2 < y1 {
        lemma_years_ordered(y2, y1);
    }
    if m1 < m2 {
        lemma_month_ordered(y1, m1, d1, m2, d2);
    } else if m2 < m1 {
        lemma_month_ordered(y1, m2, d2, m1, d1);
    }
}

} // verus!
