//! Numbers as text: reading decimal numbers and writing decimal and
//! hexadecimal ones.

use vstd::prelude::*;

verus! {

/// The decimal digits.
pub open spec fn is_digit(c: char) -> bool {
    '0' <= c <= '9'
}

/// The value of a digit.
pub open spec fn digit_value(c: char) -> nat {
    (c as nat - '0' as nat) as nat
}

/// Whether every character is a decimal digit.
pub open spec fn all_digits(s: Seq<char>) -> bool {
    forall|i: int| 0 <= i < s.len() ==> is_digit(#[trigger] s[i])
}

/// The value of a row of digits, the most significant first.
pub open spec fn digits_value(s: Seq<char>) -> nat
    decreases s.len(),
{
    if s.len() == 0 {
        0
    } else {
        10 * digits_value(s.drop_last()) + digit_value(s.last())
    }
}

/// A text without the one plus sign that may stand before the digits.
pub open spec fn unsigned_digits(s: Seq<char>) -> Seq<char> {
    if s.len() > 0 && s[0] == '+' {
        s.drop_first()
    } else {
        s
    }
}

/// The number that a text spells: one digit or more, with or without a plus
/// sign before them, and nothing else.
pub open spec fn number(s: Seq<char>) -> Option<nat> {
    let d = unsigned_digits(s);
    if d.len() > 0 && all_digits(d) {
        Some(digits_value(d))
    } else {
        None
    }
}

/// The number that a text spells, where it is not above `max`.
pub open spec fn number_up_to(s: Seq<char>, max: nat) -> Option<nat> {
    match number(s) {
        Some(n) => if n <= max {
            Some(n)
        } else {
            None
        },
        None => None,
    }
}

proof fn lemma_prefix_value(s: Seq<char>, i: int)
    requires
        0 <= i <= s.len(),
    ensures
        digits_value(s.take(i)) <= digits_value(s),
    decreases s.len() - i,
{
    if i < s.len() {
        lemma_prefix_value(s, i + 1);
        assert(s.take(i + 1).drop_last() =~= s.take(i));
    } else {
        assert(s.take(i) =~= s);
    }
}

/// Reads a number that is at most `max`.
pub fn parse_up_to(s: &[char], max: u64) -> (r: Option<u64>)
    ensures
        match r {
            Some(n) => number_up_to(s@, max as nat) == Some(n as nat),
            None => number_up_to(s@, max as nat) is None,
        },
{
    let start: usize = if s.len() > 0 && s[0] == '+' {
        1
    } else {
        0
    };
    let ghost d = unsigned_digits(s@);
    assert(d =~= s@.skip(start as int));
    if start == s.len() {
        return None;
    }
    let mut v: u128 = 0;
    let mut i: usize = start;
    assert(d.take(0) =~= Seq::<char>::empty());
    while i < s.len()
        invariant
            start <= i <= s@.len(),
            d == s@.skip(start as int),
            d == unsigned_digits(s@),
            v <= max,
            v == digits_value(d.take(i - start)),
            forall|j: int| 0 <= j < i - start ==> is_digit(#[trigger] d[j]),
        decreases s@.len() - i,
    {
        let c = s[i];
        assert(d[i - start] == c);
        if c < '0' || c > '9' {
            return None;
        }
        let digit: u128 = (c as u8 - '0' as u8) as u128;
        assert(digit == digit_value(c));
        assert(d.take(i - start + 1).drop_last() =~= d.take(i - start));
        v = 10 * v + digit;
        i += 1;
        if v > max as u128 {
            proof {
                lemma_prefix_value(d, i - start);
            }
            return None;
        }
    }
    assert(d.take(i - start) =~= d);
    Some(v as u64)
}

/// Reads a `u8`.
pub fn parse_u8(s: &[char]) -> (r: Option<u8>)
    ensures
        match r {
            Some(n) => number_up_to(s@, u8::MAX as nat) == Some(n as nat),
            None => number_up_to(s@, u8::MAX as nat) is None,
        },
{
    match parse_up_to(s, u8::MAX as u64) {
        Some(n) => Some(n as u8),
        None => None,
    }
}

/// Reads a `u16`.
pub fn parse_u16(s: &[char]) -> (r: Option<u16>)
    ensures
        match r {
            Some(n) => number_up_to(s@, u16::MAX as nat) == Some(n as nat),
            None => number_up_to(s@, u16::MAX as nat) is None,
        },
{
    match parse_up_to(s, u16::MAX as u64) {
        Some(n) => Some(n as u16),
        None => None,
    }
}

/// Reads a `u32`.
pub fn parse_u32(s: &[char]) -> (r: Option<u32>)
    ensures
        match r {
            Some(n) => number_up_to(s@, u32::MAX as nat) == Some(n as nat),
            None => number_up_to(s@, u32::MAX as nat) is None,
        },
{
    match parse_up_to(s, u32::MAX as u64) {
        Some(n) => Some(n as u32),
        None => None,
    }
}

/// Reads a `usize`.
pub fn parse_usize(s: &[char]) -> (r: Option<usize>)
    ensures
        match r {
            Some(n) => number_up_to(s@, usize::MAX as nat) == Some(n as nat),
            None => number_up_to(s@, usize::MAX as nat) is None,
        },
{
    match parse_up_to(s, usize::MAX as u64) {
        Some(n) => Some(n as usize),
        None => None,
    }
}

/// The digit of a value below ten.
pub open spec fn digit_char(n: nat) -> char {
    (n + '0' as nat) as char
}

/// A number written in decimal, without leading zeros.
pub open spec fn decimal(n: nat) -> Seq<char>
    decreases n,
{
    if n < 10 {
        seq![digit_char(n)]
    } else {
        decimal(n / 10).push(digit_char(n % 10))
    }
}

/// Writes a number in decimal.
pub fn to_decimal(n: u64) -> (r: Vec<char>)
    ensures
        r@ == decimal(n as nat),
    decreases n,
{
    if n < 10 {
        let mut out: Vec<char> = Vec::new();
        out.push((n as u8 + 48) as char);
        assert(out@ =~= decimal(n as nat));
        out
    } else {
        let mut out = to_decimal(n / 10);
        out.push(((n % 10) as u8 + 48) as char);
        out
    }
}

/// Reading a number back after writing it gives the number.
pub proof fn law_decimal_reads_back(n: nat)
    ensures
        number(decimal(n)) == Some(n),
{
    lemma_decimal(n);
    assert(decimal(n)[0] != '+');
}

/// What `decimal` writes is digits alone, and they have the number's value.
pub proof fn lemma_decimal(n: nat)
    ensures
        decimal(n).len() > 0,
        all_digits(decimal(n)),
        digits_value(decimal(n)) == n,
    decreases n,
{
    if n < 10 {
        let d = decimal(n);
        assert(d.drop_last() =~= Seq::<char>::empty());
        assert(digits_value(d.drop_last()) == 0);
    } else {
        lemma_decimal(n / 10);
        let d = decimal(n);
        assert(d.drop_last() =~= decimal(n / 10));
        assert(digit_value(d.last()) == n % 10);
        assert forall|i: int| 0 <= i < d.len() implies is_digit(#[trigger] d[i]) by {
            if i < d.len() - 1 {
                assert(d[i] == decimal(n / 10)[i]);
            }
        }
    }
}

/// `n` copies of one character.
pub open spec fn repeat(c: char, n: int) -> Seq<char> {
    Seq::new(if n > 0 { n as nat } else { 0 }, |i: int| c)
}

/// A text filled up on its left to at least `width` characters.
pub open spec fn padded_left(s: Seq<char>, width: nat, c: char) -> Seq<char> {
    repeat(c, width - s.len()) + s
}

/// A text filled up on its right with blanks to at least `width` characters.
pub open spec fn padded_right(s: Seq<char>, width: nat) -> Seq<char> {
    s + repeat(' ', width - s.len())
}

/// Fills a text up on its left.
pub fn pad_left(s: &[char], width: usize, c: char) -> (r: Vec<char>)
    ensures
        r@ == padded_left(s@, width as nat, c),
{
    let mut out: Vec<char> = Vec::new();
    let n: usize = s.len();
    let mut i: usize = n;
    while i < width
        invariant
            n == s@.len(),
            n <= i,
            n >= width ==> i == n,
            n < width ==> i <= width,
            out@ == repeat(c, i - n),
        decreases width - i,
    {
        out.push(c);
        i += 1;
        assert(out@ =~= repeat(c, i - n));
    }
    assert(out@ =~= repeat(c, width - n));
    crate::text::extend(&mut out, s);
    out
}

/// Fills a text up on its right with blanks.
pub fn pad_right(s: &[char], width: usize) -> (r: Vec<char>)
    ensures
        r@ == padded_right(s@, width as nat),
{
    let mut out: Vec<char> = vstd::slice::slice_to_vec(s);
    let n: usize = s.len();
    let mut i: usize = n;
    while i < width
        invariant
            n == s@.len(),
            n <= i,
            n >= width ==> i == n,
            n < width ==> i <= width,
            out@ == s@ + repeat(' ', i - n),
        decreases width - i,
    {
        out.push(' ');
        i += 1;
        assert(out@ =~= s@ + repeat(' ', i - n));
    }
    assert(out@ =~= padded_right(s@, width as nat));
    out
}

/// The lower-case hexadecimal digit of a value below sixteen.
pub open spec fn hex_char(n: nat) -> char {
    if n < 10 {
        (n + '0' as nat) as char
    } else {
        (n - 10 + 'a' as nat) as char
    }
}

/// A number written in lower-case hexadecimal, without leading zeros.
pub open spec fn hex(n: nat) -> Seq<char>
    decreases n,
{
    if n < 16 {
        seq![hex_char(n)]
    } else {
        hex(n / 16).push(hex_char(n % 16))
    }
}

/// Writes a number in hexadecimal.
pub fn to_hex(n: u32) -> (r: Vec<char>)
    ensures
        r@ == hex(n as nat),
    decreases n,
{
    let d: u8 = (n % 16) as u8;
    let c: char = if d < 10 {
        (d + 48) as char
    } else {
        (d - 10 + 97) as char
    };
    if n < 16 {
        let mut out: Vec<char> = Vec::new();
        out.push(c);
        assert(out@ =~= hex(n as nat));
        out
    } else {
        let mut out = to_hex(n / 16);
        out.push(c);
        out
    }
}

} // verus!
