//! What written numbers and dates promise: digits that have their value, a length
//! that goes with it, and a calendar that goes on day by day.

use vstd::arithmetic::power;
use vstd::prelude::*;

use crate::number;
use crate::stamp::{self, Date};

verus! {

/// A number below a power of ten has at most so many digits.
pub proof fn lemma_decimal_len(n: nat, digits: nat)
    requires
        digits > 0,
        n < power::pow(10, digits),
    ensures
        number::decimal(n).len() <= digits,
    decreases digits,
{
    if n >= 10 {
        power::lemma_pow1(10);
        if digits == 1 {
            assert(false);
        }
        reveal(power::pow);
        assert(power::pow(10, digits) == 10 * power::pow(10, (digits - 1) as nat));
        assert(n / 10 < power::pow(10, (digits - 1) as nat));
        lemma_decimal_len(n / 10, (digits - 1) as nat);
    }
}

/// Zeros before the digits of a number leave its value.
pub proof fn lemma_padded_value(n: nat, width: nat)
    ensures
        number::all_digits(number::padded_left(number::decimal(n), width, '0')),
        number::digits_value(number::padded_left(number::decimal(n), width, '0')) == n,
{
    number::lemma_decimal(n);
    let d = number::decimal(n);
    let z = number::repeat('0', width - d.len());
    lemma_zeros_first(z, d);
    assert forall|i: int| 0 <= i < (z + d).len() implies number::is_digit(#[trigger] (z + d)[i]) by {
        if i >= z.len() {
            assert(number::is_digit(d[i - z.len()]));
        }
    }
}

proof fn lemma_zeros_first(z: Seq<char>, d: Seq<char>)
    requires
        forall|i: int| 0 <= i < z.len() ==> #[trigger] z[i] == '0',
    ensures
        number::digits_value(z + d) == number::digits_value(d),
    decreases z.len() + d.len(),
{
    if d.len() > 0 {
        assert((z + d).drop_last() =~= z + d.drop_last());
        assert((z + d).last() == d.last());
        lemma_zeros_first(z, d.drop_last());
    } else if z.len() > 0 {
        assert(z + d =~= z);
        let y = z.drop_last();
        assert forall|i: int| 0 <= i < y.len() implies #[trigger] y[i] == '0' by {
            assert(y[i] == z[i]);
        }
        lemma_zeros_first(y, Seq::empty());
        assert(y + Seq::<char>::empty() =~= y);
        assert(z.last() == z[z.len() - 1]);
    } else {
        assert(z + d =~= d);
    }
}

/// A number is written in digits that have its value, with no zero before them
/// unless it is zero.
pub proof fn law_decimal_is_shortest(n: nat)
    ensures
        number::all_digits(number::decimal(n)),
        number::digits_value(number::decimal(n)) == n,
        n > 0 ==> number::decimal(n)[0] != '0',
        n == 0 ==> number::decimal(n) == seq!['0'],
    decreases n,
{
    number::lemma_decimal(n);
    if n >= 10 {
        law_decimal_is_shortest(n / 10);
        number::lemma_decimal(n / 10);
        assert(number::decimal(n)[0] == number::decimal(n / 10)[0]);
    }
}

/// The value of a row of hexadecimal digits, the most significant first.
pub open spec fn hex_value(s: Seq<char>) -> nat
    decreases s.len(),
{
    if s.len() == 0 {
        0
    } else {
        let c = s.last();
        16 * hex_value(s.drop_last()) + (if '0' <= c && c <= '9' {
            (c as nat - '0' as nat) as nat
        } else {
            (c as nat - 'a' as nat + 10) as nat
        })
    }
}

/// A number in hexadecimal has its value, in the digits 0 to 9 and a to f.
pub proof fn law_hex_has_its_value(n: nat)
    ensures
        hex_value(number::hex(n)) == n,
        forall|i: int|
            0 <= i < number::hex(n).len() ==> ('0' <= #[trigger] number::hex(n)[i] <= '9' || 'a'
                <= number::hex(n)[i] <= 'f'),
    decreases n,
{
    if n >= 16 {
        law_hex_has_its_value(n / 16);
        assert(number::hex(n).drop_last() =~= number::hex(n / 16));
    } else {
        assert(number::hex(n).drop_last() =~= Seq::<char>::empty());
        assert(hex_value(Seq::empty()) == 0);
    }
}

/// A text that was filled up keeps its characters at its end, or at its beginning,
/// has at least the width that was asked for, and is left alone where it has it.
pub proof fn law_padding(s: Seq<char>, width: nat, c: char)
    ensures
        ({
            let l = number::padded_left(s, width, c);
            let r = number::padded_right(s, width);
            &&& l.len() >= width && r.len() >= width
            &&& s.len() >= width ==> l == s && r == s
            &&& s.len() < width ==> l.len() == width && r.len() == width
            &&& l.skip(l.len() - s.len()) == s
            &&& r.take(s.len() as int) == s
            &&& forall|i: int| 0 <= i < l.len() - s.len() ==> #[trigger] l[i] == c
            &&& forall|i: int| s.len() <= i < r.len() ==> #[trigger] r[i] == ' '
        }),
{
    let l = number::padded_left(s, width, c);
    let r = number::padded_right(s, width);
    assert(l.skip(l.len() - s.len()) =~= s);
    assert(r.take(s.len() as int) =~= s);
    if s.len() >= width {
        assert(l =~= s);
        assert(r =~= s);
    }
}

/// What is no number: an empty text, a sign alone, or one with a character in it
/// that is no digit.
pub proof fn law_no_number(s: Seq<char>, i: int)
    requires
        s.len() == 0 || (s.len() == 1 && s[0] == '+') || (0 < i < s.len() && !number::is_digit(s[i]))
            || !(number::is_digit(s[0]) || s[0] == '+'),
    ensures
        number::number(s) is None,
{
    if s.len() > 0 {
        let d = number::unsigned_digits(s);
        if 0 < i < s.len() && !number::is_digit(s[i]) {
            if s[0] == '+' {
                assert(d[i - 1] == s[i]);
            } else {
                assert(d[i] == s[i]);
            }
        } else if !(number::is_digit(s[0]) || s[0] == '+') {
            assert(d[0] == s[0]);
        }
    }
}

/// One digit more makes ten times the number and the digit, and a plus sign before
/// the digits changes nothing.
pub proof fn law_digits_count_in_tens(s: Seq<char>, c: char)
    requires
        s.len() > 0,
        number::all_digits(s),
        number::is_digit(c),
    ensures
        number::number(s) matches Some(n) && number::number(s.push(c)) == Some(
            (10 * n + (c as nat - '0' as nat)) as nat,
        ),
        number::number(seq!['+'] + s) == number::number(s),
{
    assert(number::is_digit(s[0]));
    let t = s.push(c);
    assert(t[0] == s[0]);
    assert(t.drop_last() =~= s);
    assert(number::all_digits(t));
    let p = seq!['+'] + s;
    assert(p[0] == '+');
    assert(p.drop_first() =~= s);
}

/// Every fourth year is a leap year, but of the hundreds only every fourth.
pub proof fn law_leap_years(k: int)
    ensures
        stamp::is_leap(400 * k),
        !stamp::is_leap(400 * k + 100),
        !stamp::is_leap(400 * k + 200),
        !stamp::is_leap(400 * k + 300),
        k % 25 != 0 ==> stamp::is_leap(4 * k),
        !stamp::is_leap(4 * k + 1),
        !stamp::is_leap(4 * k + 2),
        !stamp::is_leap(4 * k + 3),
{
}

/// The months have their days, and the year 365 or 366.
pub proof fn law_month_lengths(y: int)
    ensures
        stamp::month_days(y, 1) == 31,
        stamp::month_days(y, 2) == (if stamp::is_leap(y) {
            29int
        } else {
            28
        }),
        stamp::month_days(y, 3) == 31 && stamp::month_days(y, 4) == 30,
        stamp::month_days(y, 5) == 31 && stamp::month_days(y, 6) == 30,
        stamp::month_days(y, 7) == 31 && stamp::month_days(y, 8) == 31,
        stamp::month_days(y, 9) == 30 && stamp::month_days(y, 10) == 31,
        stamp::month_days(y, 11) == 30 && stamp::month_days(y, 12) == 31,
        stamp::year_days(y) == (if stamp::is_leap(y) {
            366int
        } else {
            365
        }),
        stamp::days_before_month(y, 13) == stamp::year_days(y),
{
    reveal_with_fuel(stamp::days_before_month, 14);
}

/// Counting begins with the first of January 1970, and the day after a date is the
/// next of its month, or the first of the next month, or of the next year.
pub proof fn law_days_follow(n: int, d: Date)
    requires
        stamp::is_date(n, d),
        d.year < 0xffff_ffff,
    ensures
        stamp::is_date(0, (Date { year: 1970, month: 1, day: 1 })),
        d.day < stamp::month_days(d.year as int, d.month as int) ==> stamp::is_date(
            n + 1,
            (Date { day: (d.day + 1) as u64, ..d }),
        ),
        d.day == stamp::month_days(d.year as int, d.month as int) && d.month < 12 ==> stamp::is_date(
            n + 1,
            (Date { month: (d.month + 1) as u64, day: 1, ..d }),
        ),
        d.day == 31 && d.month == 12 ==> stamp::is_date(
            n + 1,
            (Date { year: (d.year + 1) as u64, month: 1, day: 1 }),
        ),
{
    let y = d.year as int;
    let m = d.month as int;
    assert(stamp::days_before_month(1970, 1) == 0);
    assert(stamp::days_before_month(y, m + 1) == stamp::days_before_month(y, m)
        + stamp::month_days(y, m));
    assert(stamp::days_before_year(y + 1) == stamp::days_before_year(y) + stamp::year_days(y));
    assert(stamp::days_before_month(y + 1, 1) == 0);
    law_month_lengths(y);
}

/// A stamp reads `YYYYMMDD-HHMMSS`: the two parts have their digits and hold year,
/// month and day, and the hours, minutes and seconds of the day.
pub proof fn law_stamp_reads(d: Date, sec_of_day: int)
    requires
        d.year < 10000,
        d.month < 100,
        d.day < 100,
        0 <= sec_of_day < 86400,
    ensures
        ({
            let t = stamp::stamp_text(d, sec_of_day);
            let h = number::digits_value(t.subrange(9, 11));
            let m = number::digits_value(t.subrange(11, 13));
            let s = number::digits_value(t.subrange(13, 15));
            &&& t.len() == 15
            &&& t[8] == '-'
            &&& number::digits_value(t.subrange(0, 4)) == d.year
            &&& number::digits_value(t.subrange(4, 6)) == d.month
            &&& number::digits_value(t.subrange(6, 8)) == d.day
            &&& 3600 * h + 60 * m + s == sec_of_day
            &&& m < 60 && s < 60
        }),
{
    let t = stamp::stamp_text(d, sec_of_day);
    let y = number::padded_left(number::decimal(d.year as nat), 4, '0');
    assert(power::pow(10, 4) == 10000 && power::pow(10, 2) == 100) by {
        reveal(power::pow);
        assert(power::pow(10, 0) == 1);
        assert(power::pow(10, 1) == 10);
        assert(power::pow(10, 2) == 100);
        assert(power::pow(10, 3) == 1000);
    }
    lemma_padded_value(d.year as nat, 4);
    lemma_decimal_len(d.year as nat, 4);
    lemma_two(d.month as int);
    lemma_two(d.day as int);
    lemma_two(sec_of_day / 3600);
    lemma_two(sec_of_day % 3600 / 60);
    lemma_two(sec_of_day % 60);
    assert(y.len() == 4);
    assert(t.subrange(0, 4) =~= y);
    assert(t.subrange(4, 6) =~= stamp::two(d.month as int));
    assert(t.subrange(6, 8) =~= stamp::two(d.day as int));
    assert(t.subrange(9, 11) =~= stamp::two(sec_of_day / 3600));
    assert(t.subrange(11, 13) =~= stamp::two(sec_of_day % 3600 / 60));
    assert(t.subrange(13, 15) =~= stamp::two(sec_of_day % 60));
}

proof fn lemma_two(n: int)
    requires
        0 <= n < 100,
    ensures
        stamp::two(n).len() == 2,
        number::digits_value(stamp::two(n)) == n,
{
    assert(power::pow(10, 2) == 100) by {
        reveal(power::pow);
        assert(power::pow(10, 0) == 1);
        assert(power::pow(10, 1) == 10);
    }
    lemma_padded_value(n as nat, 2);
    lemma_decimal_len(n as nat, 2);
}

} // verus!
