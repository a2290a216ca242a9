//! Dates of the proleptic Gregorian calendar and UTC timestamps.

use vstd::prelude::*;

use crate::text;

verus! {

/// Whether `y` is a leap year.
pub open spec fn is_leap(y: int) -> bool {
    y % 4 == 0 && (y % 100 != 0 || y % 400 == 0)
}

/// How many days month `m` of year `y` has.
pub open spec fn month_len(y: int, m: int) -> int {
    if m == 2 {
        if is_leap(y) {
            29
        } else {
            28
        }
    } else if m == 4 || m == 6 || m == 9 || m == 11 {
        30
    } else {
        31
    }
}

/// Whether `(y, m, d)` is a date.
pub open spec fn is_date(y: int, m: int, d: int) -> bool {
    1 <= m <= 12 && 1 <= d <= month_len(y, m)
}

/// How many leap years there are from year 1 to `y` (negative before).
pub open spec fn leap_years(y: int) -> int {
    y / 4 - y / 100 + y / 400
}

/// Days from 1970-01-01 to the first day of year `y`.
pub open spec fn days_to_year(y: int) -> int {
    365 * (y - 1970) + leap_years(y - 1) - leap_years(1969)
}

/// Days from the first day of year `y` to the first day of month `m`.
pub open spec fn days_to_month(y: int, m: int) -> int
    decreases m,
{
    if m <= 1 {
        0
    } else {
        days_to_month(y, m - 1) + month_len(y, m - 1)
    }
}

/// Days from 1970-01-01 to the date `(y, m, d)`.
pub open spec fn day_number(y: int, m: int, d: int) -> int {
    days_to_year(y) + days_to_month(y, m) + d - 1
}

/// Days since 1970-01-01 to `(year, month, day)`.
pub fn civil_from_days(z: i64) -> (date: (i64, u32, u32))
    requires
        z <= i64::MAX - 719_468,
    ensures
        is_date(date.0 as int, date.1 as int, date.2 as int),
        day_number(date.0 as int, date.1 as int, date.2 as int) == z,
{
    // Count from 0000-03-01, so that a leap day ends its year, in eras of 400
    // years, which all have the same number of days.
    let days: i64 = z + 719_468;
    let era: i64 = if days >= 0 {
        days / 146_097
    } else {
        (days - 146_096) / 146_097
    };
    let doe: u64 = (days - era * 146_097) as u64;
    proof {
        assert(0 <= doe <= 146_096 && days == era * 146_097 + doe);
    }
    let yoe: u64 = (doe - doe / 1460 + doe / 36_524 - doe / 146_096) / 365;
    proof {
        lemma_year_of_era(doe as int, yoe as int);
    }
    let year: i64 = yoe as i64 + era * 400;
    let doy: u64 = doe - (365 * yoe + yoe / 4 - yoe / 100);
    let mp: u64 = (5 * doy + 2) / 153;
    let day: u32 = (doy - (153 * mp + 2) / 5 + 1) as u32;
    let month: u32 = if mp < 10 {
        (mp + 3) as u32
    } else {
        (mp - 9) as u32
    };
    proof {
        lemma_date(era as int, yoe as int, doy as int, mp as int, day as int, month as int);
    }
    if month <= 2 {
        (year + 1, month, day)
    } else {
        (year, month, day)
    }
}

/// The year of an era in which a day falls, counting years from March.
proof fn lemma_year_of_era(doe: int, yoe: int)
    requires
        0 <= doe <= 146_096,
        yoe == (doe - doe / 1460 + doe / 36_524 - doe / 146_096) / 365,
    ensures
        0 <= yoe <= 399,
        0 <= doe - (365 * yoe + yoe / 4 - yoe / 100),
        doe - (365 * yoe + yoe / 4 - yoe / 100) <= 364 + (if is_leap(yoe + 1) {
            1int
        } else {
            0
        }),
{
}

proof fn lemma_days_to_month(y: int)
    ensures
        days_to_month(y, 1) == 0,
        days_to_month(y, 2) == 31,
        ({
            let base = 59 + if is_leap(y) {
                1int
            } else {
                0
            };
            &&& days_to_month(y, 3) == base
            &&& days_to_month(y, 4) == base + 31
            &&& days_to_month(y, 5) == base + 61
            &&& days_to_month(y, 6) == base + 92
            &&& days_to_month(y, 7) == base + 122
            &&& days_to_month(y, 8) == base + 153
            &&& days_to_month(y, 9) == base + 184
            &&& days_to_month(y, 10) == base + 214
            &&& days_to_month(y, 11) == base + 245
            &&& days_to_month(y, 12) == base + 275
            &&& days_to_month(y, 13) == base + 306
        }),
{
    reveal_with_fuel(days_to_month, 14);
}

proof fn lemma_leap_years_step(y: int)
    ensures
        leap_years(y) == leap_years(y - 1) + if is_leap(y) {
            1int
        } else {
            0
        },
{
}

proof fn lemma_leap_years_of_era(era: int, yoe: int)
    requires
        0 <= yoe <= 399,
    ensures
        leap_years(400 * era + yoe) == 97 * era + yoe / 4 - yoe / 100,
        is_leap(400 * era + yoe + 1) == is_leap(yoe + 1),
{
}

proof fn lemma_date(era: int, yoe: int, doy: int, mp: int, day: int, month: int)
    requires
        0 <= yoe <= 399,
        0 <= doy <= 364 + (if is_leap(yoe + 1) {
            1int
        } else {
            0
        }),
        mp == (5 * doy + 2) / 153,
        day == doy - (153 * mp + 2) / 5 + 1,
        month == (if mp < 10 {
            mp + 3
        } else {
            mp - 9
        }),
    ensures
        ({
            let y = yoe + era * 400 + if month <= 2 {
                1int
            } else {
                0
            };
            &&& is_date(y, month, day)
            &&& day_number(y, month, day) == era * 146_097 + 365 * yoe + yoe / 4 - yoe / 100 + doy
                - 719_468
        }),
{
    let ym = 400 * era + yoe;
    lemma_leap_years_of_era(era, yoe);
    lemma_leap_years_step(ym);
    lemma_days_to_month(ym);
    lemma_days_to_month(ym + 1);
    assert(leap_years(1969) == 477);
    assert(0 <= mp <= 11);
}

/// A day has one date only: two dates with the same number are the same.
pub proof fn a_day_has_one_date(y: int, m: int, d: int, y2: int, m2: int, d2: int)
    requires
        is_date(y, m, d),
        is_date(y2, m2, d2),
        day_number(y, m, d) == day_number(y2, m2, d2),
    ensures
        y == y2,
        m == m2,
        d == d2,
{
    lemma_days_to_month(y);
    lemma_days_to_month(y2);
    lemma_within_year(y, m, d);
    lemma_within_year(y2, m2, d2);
    if y < y2 {
        lemma_years_in_order(y + 1, y2);
    } else if y2 < y {
        lemma_years_in_order(y2 + 1, y);
    }
}

proof fn lemma_within_year(y: int, m: int, d: int)
    requires
        is_date(y, m, d),
    ensures
        days_to_year(y) <= day_number(y, m, d) < days_to_year(y + 1),
{
    lemma_days_to_month(y);
    lemma_leap_years_step(y);
}

proof fn lemma_years_in_order(a: int, b: int)
    requires
        a <= b,
    ensures
        days_to_year(a) <= days_to_year(b),
    decreases b - a,
{
    if a < b {
        lemma_leap_years_step(a);
        lemma_years_in_order(a + 1, b);
    }
}

/// A date and time of day as `YYYY-MM-DD HH:MM:SS.mmmZ`.
pub open spec fn stamp(
    date: (nat, nat, nat),
    time: (nat, nat, nat),
    millis: nat,
) -> Seq<char> {
    let t = text::padded(date.0, 4) + seq!['-'];
    let t = t + text::padded(date.1, 2) + seq!['-'];
    let t = t + text::padded(date.2, 2) + seq![' '];
    let t = t + text::padded(time.0, 2) + seq![':'];
    let t = t + text::padded(time.1, 2) + seq![':'];
    let t = t + text::padded(time.2, 2) + seq!['.'];
    t + text::padded(millis, 3) + seq!['Z']
}

/// Whether `out` is the stamp of this moment after 1970-01-01 UTC.
pub open spec fn stamps(out: Seq<char>, secs: int, millis: nat) -> bool {
    let sod = secs % 86_400;
    exists|y: int, m: int, d: int| #[trigger]
        is_date(y, m, d) && day_number(y, m, d) == secs / 86_400 && y >= 0 && out == stamp(
            (y as nat, m as nat, d as nat),
            ((sod / 3600) as nat, (sod % 3600 / 60) as nat, (sod % 60) as nat),
            millis,
        )
}

fn push_part(s: &mut String, n: u128, width: u32, end: char)
    ensures
        final(s)@ == old(s)@ + text::padded(n as nat, width as nat) + seq![end],
{
    let ghost before = s@;
    text::push_padded(s, n, width);
    s.push(end);
    assert(s@ =~= before + text::padded(n as nat, width as nat) + seq![end]);
}

/// The moment `secs` seconds and `millis` milliseconds after 1970-01-01 UTC, as
/// `YYYY-MM-DD HH:MM:SS.mmmZ`.
pub fn utc_timestamp(secs: u64, millis: u32) -> (out: String)
    ensures
        stamps(out@, secs as int, millis as nat),
{
    let days: i64 = (secs / 86_400) as i64;
    let sod: u64 = secs % 86_400;
    let (year, month, day) = civil_from_days(days);
    proof {
        lemma_years_from_1970(year as int, month as int, day as int);
    }
    let mut out = String::new();
    push_part(&mut out, year as u128, 4, '-');
    assert(out@ =~= text::padded(year as nat, 4) + seq!['-']);
    push_part(&mut out, month as u128, 2, '-');
    push_part(&mut out, day as u128, 2, ' ');
    push_part(&mut out, (sod / 3600) as u128, 2, ':');
    push_part(&mut out, (sod % 3600 / 60) as u128, 2, ':');
    push_part(&mut out, (sod % 60) as u128, 2, '.');
    push_part(&mut out, millis as u128, 3, 'Z');
    assert(is_date(year as int, month as int, day as int));
    out
}

proof fn lemma_years_from_1970(y: int, m: int, d: int)
    requires
        is_date(y, m, d),
        day_number(y, m, d) >= 0,
    ensures
        y >= 1970,
{
    lemma_within_year(y, m, d);
    if y < 1970 {
        lemma_years_in_order(y + 1, 1970);
    }
}

/// Days are counted from the first of 1970 on, and follow each other: within a
/// month, from month to month, and from year to year, with a leap day in every
/// fourth year but three of every four centuries.
pub proof fn days_follow_each_other(y: int, m: int, d: int)
    requires
        1 <= m <= 12,
    ensures
        is_date(1970, 1, 1) && day_number(1970, 1, 1) == 0,
        ({
            let last: int = if m == 2 {
                if y % 400 == 0 || (y % 4 == 0 && y % 100 != 0) {
                    29
                } else {
                    28
                }
            } else if set![4int, 6, 9, 11].contains(m) {
                30
            } else {
                31
            };
            &&& is_date(y, m, d) <==> 1 <= d <= last
            &&& day_number(y, m, d + 1) == day_number(y, m, d) + 1
            &&& m < 12 ==> day_number(y, m + 1, 1) == day_number(y, m, last) + 1
            &&& m == 12 ==> day_number(y + 1, 1, 1) == day_number(y, m, last) + 1
        }),
{
    lemma_month_follows(y, m);
    assert(day_number(1970, 1, 1) == 0);
    assert(is_date(1970, 1, 1));
}

proof fn lemma_month_follows(y: int, m: int)
    requires
        1 <= m <= 12,
    ensures
        m < 12 ==> days_to_month(y, m + 1) == days_to_month(y, m) + month_len(y, m),
        m == 12 ==> days_to_year(y + 1) + days_to_month(y + 1, 1) == days_to_year(y)
            + days_to_month(y, 12) + 31,
{
    if m == 12 {
        lemma_days_to_month(y);
        lemma_leap_years_step(y);
    }
}

/// A date has a month from one to twelve.
pub proof fn a_date_has_one_of_twelve_months(y: int, m: int, d: int)
    requires
        is_date(y, m, d),
    ensures
        1 <= m <= 12,
        1 <= d <= 31,
{
}

proof fn lemma_width(n: nat, width: nat)
    requires
        width == 2 && n < 100 || width == 3 && n < 1000 || width == 4 && n < 10_000,
    ensures
        text::padded(n, width).len() == width,
        text::read_digits(text::padded(n, width)) == n,
{
    reveal_with_fuel(text::pow10, 5);
    text::a_small_number_fits_its_width(n, width);
    text::a_padded_number_reads_back(n, width);
}

/// The digits of a stamp from `from` to `to`, as a number.
pub open spec fn digits_at(out: Seq<char>, from: int, to: int) -> int {
    text::read_digits(out.subrange(from, to)) as int
}

proof fn lemma_stamp_parts(
    date: (nat, nat, nat),
    time: (nat, nat, nat),
    millis: nat,
    out: Seq<char>,
)
    requires
        date.0 < 10_000,
        date.1 < 100,
        date.2 < 100,
        time.0 < 100,
        time.1 < 100,
        time.2 < 100,
        millis < 1000,
        out == stamp(date, time, millis),
    ensures
        out.len() == 24,
        digits_at(out, 0, 4) == date.0,
        digits_at(out, 5, 7) == date.1,
        digits_at(out, 8, 10) == date.2,
        digits_at(out, 11, 13) == time.0,
        digits_at(out, 14, 16) == time.1,
        digits_at(out, 17, 19) == time.2,
        digits_at(out, 20, 23) == millis,
        out[4] == '-' && out[7] == '-' && out[10] == ' ' && out[13] == ':',
        out[16] == ':' && out[19] == '.' && out[23] == 'Z',
{
    lemma_width(date.0, 4);
    lemma_width(date.1, 2);
    lemma_width(date.2, 2);
    lemma_width(time.0, 2);
    lemma_width(time.1, 2);
    lemma_width(time.2, 2);
    lemma_width(millis, 3);
    assert(out.subrange(0, 4) =~= text::padded(date.0, 4));
    assert(out.subrange(5, 7) =~= text::padded(date.1, 2));
    assert(out.subrange(8, 10) =~= text::padded(date.2, 2));
    assert(out.subrange(11, 13) =~= text::padded(time.0, 2));
    assert(out.subrange(14, 16) =~= text::padded(time.1, 2));
    assert(out.subrange(17, 19) =~= text::padded(time.2, 2));
    assert(out.subrange(20, 23) =~= text::padded(millis, 3));
}

/// A stamp reads back as the moment it was made of: the day of its date, and its
/// hours, minutes and seconds, make up the seconds since the first of 1970. Up to
/// the end of the year 9999 it has the shape `YYYY-MM-DD HH:MM:SS.mmmZ`.
pub proof fn a_stamp_reads_back(out: Seq<char>, secs: int, millis: nat)
    requires
        0 <= secs < 253_402_300_800,
        millis < 1000,
        stamps(out, secs, millis),
    ensures
        out.len() == 24,
        is_date(digits_at(out, 0, 4), digits_at(out, 5, 7), digits_at(out, 8, 10)),
        digits_at(out, 11, 13) < 24,
        digits_at(out, 14, 16) < 60,
        digits_at(out, 17, 19) < 60,
        secs == 86_400 * day_number(
            digits_at(out, 0, 4),
            digits_at(out, 5, 7),
            digits_at(out, 8, 10),
        ) + 3600 * digits_at(out, 11, 13) + 60 * digits_at(out, 14, 16) + digits_at(out, 17, 19),
        digits_at(out, 20, 23) == millis,
        out[4] == '-' && out[7] == '-' && out[10] == ' ' && out[13] == ':',
        out[16] == ':' && out[19] == '.' && out[23] == 'Z',
{
    let sod = secs % 86_400;
    let (y, m, d) = choose|y: int, m: int, d: int| #[trigger]
        is_date(y, m, d) && day_number(y, m, d) == secs / 86_400 && y >= 0 && out == stamp(
            (y as nat, m as nat, d as nat),
            ((sod / 3600) as nat, (sod % 3600 / 60) as nat, (sod % 60) as nat),
            millis,
        );
    lemma_within_year(y, m, d);
    if y >= 10_000 {
        lemma_years_in_order(10_000, y);
        assert(leap_years(9999) == 2424);
        assert(leap_years(1969) == 477);
    }
    lemma_stamp_parts(
        (y as nat, m as nat, d as nat),
        ((sod / 3600) as nat, (sod % 3600 / 60) as nat, (sod % 60) as nat),
        millis,
        out,
    );
}

} // verus!
