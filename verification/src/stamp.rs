//! The time stamp of a build, from seconds since 1970.

use vstd::prelude::*;

use crate::number;
use crate::text;

verus! {

/// Whether a year has a leap day.
pub open spec fn is_leap(y: int) -> bool {
    y % 4 == 0 && (y % 100 != 0 || y % 400 == 0)
}

/// The days of a year.
pub open spec fn year_days(y: int) -> int {
    if is_leap(y) {
        366
    } else {
        365
    }
}

/// The days of a month.
pub open spec fn month_days(y: int, m: int) -> int {
    if m == 2 {
        if is_leap(y) {
            29
        } else {
            28
        }
    } else if m == 4 || m == 6 || m == 9 || m == 11 {
        30
    } else {
        31
    }
}

/// The days from the start of 1970 to the start of a year.
pub open spec fn days_before_year(y: int) -> int
    decreases y,
{
    if y <= 1970 {
        0
    } else {
        days_before_year(y - 1) + year_days(y - 1)
    }
}

/// The days from the start of a year to the start of a month.
pub open spec fn days_before_month(y: int, m: int) -> int
    decreases m,
{
    if m <= 1 {
        0
    } else {
        days_before_month(y, m - 1) + month_days(y, m - 1)
    }
}

/// A day of the calendar.
pub struct Date {
    pub year: u64,
    pub month: u64,
    pub day: u64,
}

/// Whether a date is the day with this number, counted from the start of 1970.
pub open spec fn is_date(n: int, d: Date) -> bool {
    &&& d.year >= 1970
    &&& 1 <= d.month <= 12
    &&& 1 <= d.day <= month_days(d.year as int, d.month as int)
    &&& days_before_year(d.year as int) + days_before_month(d.year as int, d.month as int) + d.day
        - 1 == n
}

proof fn lemma_closed_form(y: int)
    requires
        y >= 1970,
    ensures
        days_before_year(y) == 365 * (y - 1970) + (y - 1) / 4 - (y - 1) / 100 + (y - 1) / 400 - 477,
    decreases y,
{
    if y > 1970 {
        lemma_closed_form(y - 1);
    }
}

/// The calendar repeats after 400 years.
proof fn lemma_period(y: int, k: int)
    requires
        y >= 1970,
        k >= 0,
    ensures
        days_before_year(y + 400 * k) == days_before_year(y) + 146097 * k,
{
    lemma_closed_form(y);
    lemma_closed_form(y + 400 * k);
}

proof fn lemma_year_order(a: int, b: int)
    requires
        1970 <= a < b,
    ensures
        days_before_year(a) + year_days(a) <= days_before_year(b),
    decreases b - a,
{
    if a + 1 < b {
        lemma_year_order(a, b - 1);
    }
}

proof fn lemma_month_order(y: int, a: int, b: int)
    requires
        1 <= a < b,
    ensures
        days_before_month(y, a) + month_days(y, a) <= days_before_month(y, b),
    decreases b - a,
{
    if a + 1 < b {
        lemma_month_order(y, a, b - 1);
    }
}

proof fn lemma_months_fill_year(y: int)
    ensures
        days_before_month(y, 13) == year_days(y),
{
    reveal_with_fuel(days_before_month, 13);
}

/// A day has one date.
pub proof fn law_date_is_unique(n: int, a: Date, b: Date)
    requires
        is_date(n, a),
        is_date(n, b),
    ensures
        a == b,
{
    lemma_date_in_year(a);
    lemma_date_in_year(b);
    if a.year < b.year {
        lemma_year_order(a.year as int, b.year as int);
    }
    if b.year < a.year {
        lemma_year_order(b.year as int, a.year as int);
    }
    if a.month < b.month {
        lemma_month_order(a.year as int, a.month as int, b.month as int);
    }
    if b.month < a.month {
        lemma_month_order(a.year as int, b.month as int, a.month as int);
    }
}

proof fn lemma_date_in_year(a: Date)
    requires
        1 <= a.month <= 12,
        1 <= a.day <= month_days(a.year as int, a.month as int),
    ensures
        0 <= days_before_month(a.year as int, a.month as int) + a.day - 1 < year_days(
            a.year as int,
        ),
{
    let y = a.year as int;
    let m = a.month as int;
    lemma_months_fill_year(y);
    lemma_month_order(y, m, 13);
    if m > 1 {
        lemma_month_order(y, 1, m);
    }
}

fn leap(y: u64) -> (r: bool)
    ensures
        r == is_leap(y as int),
{
    y % 4 == 0 && (y % 100 != 0 || y % 400 == 0)
}

fn length_of_month(y: u64, m: u64) -> (r: u64)
    ensures
        r == month_days(y as int, m as int),
{
    if m == 2 {
        if leap(y) {
            29
        } else {
            28
        }
    } else if m == 4 || m == 6 || m == 9 || m == 11 {
        30
    } else {
        31
    }
}

/// The date of the day with a number, counted from the start of 1970.
pub fn date_of(n: u64) -> (r: Date)
    requires
        n <= 0xffff_ffff_ffff,
    ensures
        is_date(n as int, r),
{
    let era: u64 = n / 146097;
    let ghost start = 1970 + 400 * era;
    let mut year: u64 = 1970 + 400 * era;
    let mut left: u64 = n % 146097;
    proof {
        lemma_period(1970, era as int);
        lemma_period(1970, era + 1);
    }
    loop
        invariant
            start == 1970 + 400 * (n / 146097),
            n <= 0xffff_ffff_ffff,
            start <= year <= start + 400,
            days_before_year(year as int) + left == n,
            days_before_year(start + 400) > n,
        ensures
            1970 <= year <= 1970 + 400 * (n / 146097) + 400,
            days_before_year(year as int) + left == n,
            left < year_days(year as int),
        decreases start + 400 - year,
    {
        let days: u64 = if leap(year) {
            366
        } else {
            365
        };
        if left < days {
            break;
        }
        left = left - days;
        year = year + 1;
    }
    let mut month: u64 = 1;
    loop
        invariant
            1 <= month <= 12,
            days_before_year(year as int) + days_before_month(year as int, month as int) + left
                == n,
            days_before_month(year as int, month as int) + left < year_days(year as int),
        ensures
            1 <= month <= 12,
            days_before_year(year as int) + days_before_month(year as int, month as int) + left
                == n,
            left < month_days(year as int, month as int),
        decreases 12 - month,
    {
        let days: u64 = length_of_month(year, month);
        if left < days {
            break;
        }
        proof {
            lemma_months_fill_year(year as int);
            if month < 12 {
                lemma_month_order(year as int, month + 1, 13);
            }
        }
        left = left - days;
        month = month + 1;
    }
    Date { year, month, day: left + 1 }
}

/// A number with at least two digits.
pub open spec fn two(n: int) -> Seq<char> {
    number::padded_left(number::decimal(n as nat), 2, '0')
}

/// The stamp of a second on a date: `YYYYMMDD-HHMMSS`.
pub open spec fn stamp_text(d: Date, sec_of_day: int) -> Seq<char> {
    number::padded_left(number::decimal(d.year as nat), 4, '0') + two(d.month as int) + two(
        d.day as int,
    ) + seq!['-'] + two(sec_of_day / 3600) + two(sec_of_day % 3600 / 60) + two(sec_of_day % 60)
}

fn push_two(out: &mut Vec<char>, n: u64)
    ensures
        final(out)@ == old(out)@ + two(n as int),
{
    text::extend(out, number::pad_left(number::to_decimal(n).as_slice(), 2, '0').as_slice());
}

/// Writes seconds since 1970 as a stamp in universal time.
pub fn format_utc_stamp(secs: u64) -> (r: String)
    ensures
        exists|d: Date| #[trigger]
            is_date(secs as int / 86400, d) && r@ == stamp_text(d, secs as int % 86400),
{
    let d = date_of(secs / 86400);
    let sec_of_day: u64 = secs % 86400;
    let mut out = number::pad_left(number::to_decimal(d.year).as_slice(), 4, '0');
    push_two(&mut out, d.month);
    push_two(&mut out, d.day);
    let ghost head = out@;
    out.push('-');
    assert(out@ =~= head + seq!['-']);
    push_two(&mut out, sec_of_day / 3600);
    push_two(&mut out, sec_of_day % 3600 / 60);
    push_two(&mut out, sec_of_day % 60);
    assert(is_date(secs as int / 86400, d));
    text::string_of(out.as_slice())
}

} // verus!
