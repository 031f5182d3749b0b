//! A baseline JPEG encoder: tables, entropy coding and markers. All three
//! components are sampled alike. The tables are the customary ones.
//!
//! Colour conversion, cosine transform and quantization are the caller's: the
//! encoder takes quantized coefficients and gives the file.

use vstd::arithmetic::div_mod;
use vstd::arithmetic::power2;
use vstd::prelude::*;

use crate::bits::{self, BitWriter};

verus! {

/// Where in a block, row by row, the coefficient of each step of the zigzag scan
/// stands.
pub const ZIGZAG: [u8; 64] = [
    0, 1, 8, 16, 9, 2, 3, 10, 17, 24, 32, 25, 18, 11, 4, 5, 12, 19, 26, 33, 40, 48, 41, 34, 27, 20,
    13, 6, 7, 14, 21, 28, 35, 42, 49, 56, 57, 50, 43, 36, 29, 22, 15, 23, 30, 37, 44, 51, 58, 59,
    52, 45, 38, 31, 39, 46, 53, 60, 61, 54, 47, 55, 62, 63,
];

/// The standard quantization table of luminance.
pub const STD_LUM_QUANT: [u8; 64] = [
    16, 11, 10, 16, 24, 40, 51, 61, 12, 12, 14, 19, 26, 58, 60, 55, 14, 13, 16, 24, 40, 57, 69, 56,
    14, 17, 22, 29, 51, 87, 80, 62, 18, 22, 37, 56, 68, 109, 103, 77, 24, 35, 55, 64, 81, 104, 113,
    92, 49, 64, 78, 87, 103, 121, 120, 101, 72, 92, 95, 98, 112, 100, 103, 99,
];

/// The standard quantization table of chrominance.
pub const STD_CHR_QUANT: [u8; 64] = [
    17, 18, 24, 47, 99, 99, 99, 99, 18, 21, 26, 66, 99, 99, 99, 99, 24, 26, 56, 99, 99, 99, 99, 99,
    47, 66, 99, 99, 99, 99, 99, 99, 99, 99, 99, 99, 99, 99, 99, 99, 99, 99, 99, 99, 99, 99, 99, 99,
    99, 99, 99, 99, 99, 99, 99, 99, 99, 99, 99, 99, 99, 99, 99, 99,
];

/// How many codes of each length luminance DC has.
pub const DC_LUM_BITS: [u8; 16] = [
    0, 1, 5, 1, 1, 1, 1, 1, 1, 0, 0, 0, 0, 0, 0, 0,
];

/// The symbols of luminance DC, in the order of their codes.
pub const DC_LUM_VALS: [u8; 12] = [
    0, 1, 2, 3, 4, 5, 6, 7, 8, 9, 10, 11,
];

/// How many codes of each length chrominance DC has.
pub const DC_CHR_BITS: [u8; 16] = [
    0, 3, 1, 1, 1, 1, 1, 1, 1, 1, 1, 0, 0, 0, 0, 0,
];

/// The symbols of chrominance DC, in the order of their codes.
pub const DC_CHR_VALS: [u8; 12] = [
    0, 1, 2, 3, 4, 5, 6, 7, 8, 9, 10, 11,
];

/// How many codes of each length luminance AC has.
pub const AC_LUM_BITS: [u8; 16] = [
    0, 2, 1, 3, 3, 2, 4, 3, 5, 5, 4, 4, 0, 0, 1, 0x7d,
];

/// The symbols of luminance AC, in the order of their codes.
pub const AC_LUM_VALS: [u8; 162] = [
    0x01, 0x02, 0x03, 0x00, 0x04, 0x11, 0x05, 0x12, 0x21, 0x31, 0x41, 0x06, 0x13, 0x51, 0x61, 0x07,
    0x22, 0x71, 0x14, 0x32, 0x81, 0x91, 0xa1, 0x08, 0x23, 0x42, 0xb1, 0xc1, 0x15, 0x52, 0xd1, 0xf0,
    0x24, 0x33, 0x62, 0x72, 0x82, 0x09, 0x0a, 0x16, 0x17, 0x18, 0x19, 0x1a, 0x25, 0x26, 0x27, 0x28,
    0x29, 0x2a, 0x34, 0x35, 0x36, 0x37, 0x38, 0x39, 0x3a, 0x43, 0x44, 0x45, 0x46, 0x47, 0x48, 0x49,
    0x4a, 0x53, 0x54, 0x55, 0x56, 0x57, 0x58, 0x59, 0x5a, 0x63, 0x64, 0x65, 0x66, 0x67, 0x68, 0x69,
    0x6a, 0x73, 0x74, 0x75, 0x76, 0x77, 0x78, 0x79, 0x7a, 0x83, 0x84, 0x85, 0x86, 0x87, 0x88, 0x89,
    0x8a, 0x92, 0x93, 0x94, 0x95, 0x96, 0x97, 0x98, 0x99, 0x9a, 0xa2, 0xa3, 0xa4, 0xa5, 0xa6, 0xa7,
    0xa8, 0xa9, 0xaa, 0xb2, 0xb3, 0xb4, 0xb5, 0xb6, 0xb7, 0xb8, 0xb9, 0xba, 0xc2, 0xc3, 0xc4, 0xc5,
    0xc6, 0xc7, 0xc8, 0xc9, 0xca, 0xd2, 0xd3, 0xd4, 0xd5, 0xd6, 0xd7, 0xd8, 0xd9, 0xda, 0xe1, 0xe2,
    0xe3, 0xe4, 0xe5, 0xe6, 0xe7, 0xe8, 0xe9, 0xea, 0xf1, 0xf2, 0xf3, 0xf4, 0xf5, 0xf6, 0xf7, 0xf8,
    0xf9, 0xfa,
];

/// How many codes of each length chrominance AC has.
pub const AC_CHR_BITS: [u8; 16] = [
    0, 2, 1, 2, 4, 4, 3, 4, 7, 5, 4, 4, 0, 1, 2, 0x77,
];

/// The symbols of chrominance AC, in the order of their codes.
pub const AC_CHR_VALS: [u8; 162] = [
    0x00, 0x01, 0x02, 0x03, 0x11, 0x04, 0x05, 0x21, 0x31, 0x06, 0x12, 0x41, 0x51, 0x07, 0x61, 0x71,
    0x13, 0x22, 0x32, 0x81, 0x08, 0x14, 0x42, 0x91, 0xa1, 0xb1, 0xc1, 0x09, 0x23, 0x33, 0x52, 0xf0,
    0x15, 0x62, 0x72, 0xd1, 0x0a, 0x16, 0x24, 0x34, 0xe1, 0x25, 0xf1, 0x17, 0x18, 0x19, 0x1a, 0x26,
    0x27, 0x28, 0x29, 0x2a, 0x35, 0x36, 0x37, 0x38, 0x39, 0x3a, 0x43, 0x44, 0x45, 0x46, 0x47, 0x48,
    0x49, 0x4a, 0x53, 0x54, 0x55, 0x56, 0x57, 0x58, 0x59, 0x5a, 0x63, 0x64, 0x65, 0x66, 0x67, 0x68,
    0x69, 0x6a, 0x73, 0x74, 0x75, 0x76, 0x77, 0x78, 0x79, 0x7a, 0x82, 0x83, 0x84, 0x85, 0x86, 0x87,
    0x88, 0x89, 0x8a, 0x92, 0x93, 0x94, 0x95, 0x96, 0x97, 0x98, 0x99, 0x9a, 0xa2, 0xa3, 0xa4, 0xa5,
    0xa6, 0xa7, 0xa8, 0xa9, 0xaa, 0xb2, 0xb3, 0xb4, 0xb5, 0xb6, 0xb7, 0xb8, 0xb9, 0xba, 0xc2, 0xc3,
    0xc4, 0xc5, 0xc6, 0xc7, 0xc8, 0xc9, 0xca, 0xd2, 0xd3, 0xd4, 0xd5, 0xd6, 0xd7, 0xd8, 0xd9, 0xda,
    0xe2, 0xe3, 0xe4, 0xe5, 0xe6, 0xe7, 0xe8, 0xe9, 0xea, 0xf2, 0xf3, 0xf4, 0xf5, 0xf6, 0xf7, 0xf8,
    0xf9, 0xfa,
];

/// Codes of a Huffman table by symbol; a symbol without a code has length 0.
pub struct HuffTable {
    pub code: [u16; 256],
    pub size: [u8; 256],
}

/// How many codes are shorter than `len + 1` bits.
pub open spec fn codes_before(counts: Seq<u8>, len: int) -> nat
    decreases len,
{
    if len <= 0 {
        0
    } else {
        codes_before(counts, len - 1) + counts[len - 1] as nat
    }
}

/// The first code of `len + 1` bits: codes of one length follow each other, and
/// the first of a length is one more than the last of the length before, with a
/// zero behind it.
pub open spec fn first_code(counts: Seq<u8>, len: int) -> nat
    decreases len,
{
    if len <= 0 {
        0
    } else {
        2 * (first_code(counts, len - 1) + counts[len - 1] as nat)
    }
}

/// Whether the codes of each length can be written in that length.
pub open spec fn codes_fit(counts: Seq<u8>) -> bool {
    &&& counts.len() == 16
    &&& forall|len: int|
        0 <= len < 16 ==> #[trigger] first_code(counts, len) + counts[len] <= power2::pow2(
            (len + 1) as nat,
        )
}

/// The length, less one, of the code at place `k`, looked for from `len` on.
pub open spec fn length_from(counts: Seq<u8>, k: int, len: int) -> int
    decreases 16 - len,
{
    if len >= 16 || k < codes_before(counts, len + 1) {
        len
    } else {
        length_from(counts, k, len + 1)
    }
}

/// The length of the code at place `k`.
pub open spec fn size_at(counts: Seq<u8>, k: int) -> int {
    length_from(counts, k, 0) + 1
}

/// The code at place `k`.
pub open spec fn code_at(counts: Seq<u8>, k: int) -> int {
    let len = length_from(counts, k, 0);
    first_code(counts, len) + k - codes_before(counts, len)
}

/// The last of the first `n` places that holds symbol `s`.
pub open spec fn place(vals: Seq<u8>, n: int, s: int) -> Option<int>
    decreases n,
{
    if n <= 0 {
        None
    } else if vals[n - 1] == s {
        Some(n - 1)
    } else {
        place(vals, n - 1, s)
    }
}

/// Whether a table holds the codes of the first `n` places and no others.
pub open spec fn holds_codes(t: HuffTable, counts: Seq<u8>, vals: Seq<u8>, n: int) -> bool {
    forall|s: int|
        0 <= s < 256 ==> match place(vals, n, s) {
            Some(k) => #[trigger] t.size@[s] == size_at(counts, k) && t.code@[s] == code_at(
                counts,
                k,
            ),
            None => t.size@[s] == 0 && t.code@[s] == 0,
        }
}

/// Whether every code of a table can be written in its length.
pub open spec fn table_wf(t: HuffTable) -> bool {
    forall|s: int|
        0 <= s < 256 ==> #[trigger] t.size@[s] <= 16 && t.code@[s] < power2::pow2(
            t.size@[s] as nat,
        )
}

proof fn lemma_codes_before_grows(counts: Seq<u8>, a: int, b: int)
    requires
        a <= b,
    ensures
        codes_before(counts, a) <= codes_before(counts, b),
    decreases b - a,
{
    if a < b {
        lemma_codes_before_grows(counts, a, b - 1);
    }
}

proof fn lemma_length_from(counts: Seq<u8>, k: int, from: int, len: int)
    requires
        0 <= from <= len < 16,
        codes_before(counts, len) <= k < codes_before(counts, len + 1),
    ensures
        length_from(counts, k, from) == len,
    decreases len - from,
{
    if from < len {
        lemma_codes_before_grows(counts, from + 1, len);
        lemma_length_from(counts, k, from + 1, len);
    }
}

/// Builds the codes of a table from how many there are of each length and from
/// their symbols.
pub fn build_huff(counts: &[u8; 16], vals: &[u8]) -> (t: HuffTable)
    requires
        codes_fit(counts@),
        codes_before(counts@, 16) <= vals@.len(),
    ensures
        holds_codes(t, counts@, vals@, codes_before(counts@, 16) as int),
        table_wf(t),
{
    proof {
        power2::lemma2_to64();
    }
    let mut t = HuffTable { code: [0;256], size: [0;256] };
    let mut code: u32 = 0;
    let mut k: usize = 0;
    let mut len: usize = 0;
    while len < 16
        invariant
            len <= 16,
            codes_fit(counts@),
            codes_before(counts@, 16) <= vals@.len(),
            k == codes_before(counts@, len as int),
            code == first_code(counts@, len as int),
            holds_codes(t, counts@, vals@, k as int),
            table_wf(t),
        decreases 16 - len,
    {
        let ghost c0 = first_code(counts@, len as int);
        let ghost k0 = codes_before(counts@, len as int) as int;
        let mut j: u8 = 0;
        proof {
            power2::lemma2_to64();
            bits::lemma_pow2_monotonic((len + 1) as nat, 16);
            lemma_codes_before_grows(counts@, len + 1, 16);
        }
        while j < counts[len]
            invariant
                len < 16,
                j <= counts@[len as int],
                codes_fit(counts@),
                codes_before(counts@, len + 1) <= vals@.len(),
                c0 == first_code(counts@, len as int),
                k0 == codes_before(counts@, len as int),
                k == k0 + j,
                code == c0 + j,
                power2::pow2((len + 1) as nat) <= 65536,
                holds_codes(t, counts@, vals@, k as int),
                table_wf(t),
            decreases counts@[len as int] - j,
        {
            let s: usize = vals[k] as usize;
            let ghost before = t;
            assert(first_code(counts@, len as int) + counts@[len as int] <= power2::pow2(
                (len + 1) as nat,
            ));
            t.code[s] = code as u16;
            t.size[s] = (len + 1) as u8;
            proof {
                lemma_length_from(counts@, k as int, 0, len as int);
                assert forall|q: int| 0 <= q < 256 implies match place(vals@, k + 1, q) {
                    Some(p) => #[trigger] t.size@[q] == size_at(counts@, p) && t.code@[q]
                        == code_at(counts@, p),
                    None => t.size@[q] == 0 && t.code@[q] == 0,
                } by {
                    if q != s {
                        assert(t.size@[q] == before.size@[q]);
                        assert(place(vals@, k + 1, q) == place(vals@, k as int, q));
                    } else {
                        assert(place(vals@, k + 1, q) == Some(k as int));
                    }
                }
                assert(holds_codes(t, counts@, vals@, k + 1));
                assert forall|q: int| 0 <= q < 256 implies #[trigger] t.size@[q] <= 16 && t.code@[q]
                    < power2::pow2(t.size@[q] as nat) by {
                    if q != s {
                        assert(t.size@[q] == before.size@[q]);
                    }
                }
            }
            code = code + 1;
            k = k + 1;
            j = j + 1;
        }
        code = 2 * code;
        len = len + 1;
    }
    t
}

proof fn lemma_first_code_room(counts: Seq<u8>, a: int, b: int)
    requires
        0 <= a < b,
    ensures
        first_code(counts, b) >= (first_code(counts, a) + counts[a]) * power2::pow2(
            (b - a) as nat,
        ),
    decreases b - a,
{
    power2::lemma2_to64();
    power2::lemma_pow2_unfold((b - a) as nat);
    let x = (first_code(counts, a) + counts[a]) as int;
    let q = power2::pow2((b - a) as nat) as int;
    if a + 1 < b {
        lemma_first_code_room(counts, a, b - 1);
        let p = power2::pow2((b - 1 - a) as nat) as int;
        assert(q == 2 * p);
        assert(x * q == 2 * (x * p)) by (nonlinear_arith)
            requires
                q == 2 * p,
        ;
    } else {
        assert(x * q == 2 * x) by (nonlinear_arith)
            requires
                q == 2,
        ;
    }
}

/// No code of a table begins another: cut to the length of a shorter or equal
/// code at an earlier place, a code differs from it.
pub proof fn law_codes_prefix_free(counts: Seq<u8>, k: int, j: int)
    requires
        codes_fit(counts),
        0 <= k < j < codes_before(counts, 16),
    ensures
        size_at(counts, k) <= size_at(counts, j) <= 16,
        code_at(counts, j) / power2::pow2(
            (size_at(counts, j) - size_at(counts, k)) as nat,
        ) as int != code_at(counts, k),
{
    lemma_length_bounds(counts, k, 0);
    lemma_length_bounds(counts, j, 0);
    let a = length_from(counts, k, 0);
    let b = length_from(counts, j, 0);
    if b < a {
        lemma_codes_before_grows(counts, b + 1, a);
    }
    power2::lemma2_to64();
    if a < b {
        lemma_first_code_room(counts, a, b);
        let p = power2::pow2((b - a) as nat) as int;
        power2::lemma_pow2_pos((b - a) as nat);
        let x = (first_code(counts, a) + counts[a]) as int;
        let c = code_at(counts, j);
        assert(c / p >= x) by (nonlinear_arith)
            requires
                c >= x * p,
                p > 0,
        ;
        assert(code_at(counts, k) < x);
    } else {
        assert(code_at(counts, j) / 1 == code_at(counts, j));
    }
}

proof fn lemma_length_bounds(counts: Seq<u8>, k: int, from: int)
    requires
        0 <= from <= 16,
        codes_before(counts, from) <= k < codes_before(counts, 16),
    ensures
        from <= length_from(counts, k, from) < 16,
        codes_before(counts, length_from(counts, k, from)) <= k < codes_before(
            counts,
            length_from(counts, k, from) + 1,
        ),
    decreases 16 - from,
{
    if from < 16 && k >= codes_before(counts, from + 1) {
        lemma_length_bounds(counts, k, from + 1);
    }
}

/// The four standard lists of lengths fit their lengths and name as many codes
/// as there are symbols.
pub proof fn lemma_standard_tables()
    ensures
        codes_fit(DC_LUM_BITS@),
        codes_fit(DC_CHR_BITS@),
        codes_fit(AC_LUM_BITS@),
        codes_fit(AC_CHR_BITS@),
        codes_before(DC_LUM_BITS@, 16) == DC_LUM_VALS@.len(),
        codes_before(DC_CHR_BITS@, 16) == DC_CHR_VALS@.len(),
        codes_before(AC_LUM_BITS@, 16) == AC_LUM_VALS@.len(),
        codes_before(AC_CHR_BITS@, 16) == AC_CHR_VALS@.len(),
{
    lemma_dc_lum_table();
    lemma_dc_chr_table();
    lemma_ac_lum_table();
    lemma_ac_chr_table();
}

proof fn lemma_dc_lum_table()
    ensures
        codes_fit(DC_LUM_BITS@),
        codes_before(DC_LUM_BITS@, 16) == DC_LUM_VALS@.len(),
{
    power2::lemma2_to64();
    let c = DC_LUM_BITS@;
    assert(first_code(c, 0) == 0 && codes_before(c, 0) == 0);
    assert(first_code(c, 1) == 0 && codes_before(c, 1) == 0);
    assert(first_code(c, 2) == 2 && codes_before(c, 2) == 1);
    assert(first_code(c, 3) == 14 && codes_before(c, 3) == 6);
    assert(first_code(c, 4) == 30 && codes_before(c, 4) == 7);
    assert(first_code(c, 5) == 62 && codes_before(c, 5) == 8);
    assert(first_code(c, 6) == 126 && codes_before(c, 6) == 9);
    assert(first_code(c, 7) == 254 && codes_before(c, 7) == 10);
    assert(first_code(c, 8) == 510 && codes_before(c, 8) == 11);
    assert(first_code(c, 9) == 1022 && codes_before(c, 9) == 12);
    assert(first_code(c, 10) == 2044 && codes_before(c, 10) == 12);
    assert(first_code(c, 11) == 4088 && codes_before(c, 11) == 12);
    assert(first_code(c, 12) == 8176 && codes_before(c, 12) == 12);
    assert(first_code(c, 13) == 16352 && codes_before(c, 13) == 12);
    assert(first_code(c, 14) == 32704 && codes_before(c, 14) == 12);
    assert(first_code(c, 15) == 65408 && codes_before(c, 15) == 12);
    assert(first_code(c, 16) == 130816 && codes_before(c, 16) == 12);
}

proof fn lemma_dc_chr_table()
    ensures
        codes_fit(DC_CHR_BITS@),
        codes_before(DC_CHR_BITS@, 16) == DC_CHR_VALS@.len(),
{
    power2::lemma2_to64();
    let c = DC_CHR_BITS@;
    assert(first_code(c, 0) == 0 && codes_before(c, 0) == 0);
    assert(first_code(c, 1) == 0 && codes_before(c, 1) == 0);
    assert(first_code(c, 2) == 6 && codes_before(c, 2) == 3);
    assert(first_code(c, 3) == 14 && codes_before(c, 3) == 4);
    assert(first_code(c, 4) == 30 && codes_before(c, 4) == 5);
    assert(first_code(c, 5) == 62 && codes_before(c, 5) == 6);
    assert(first_code(c, 6) == 126 && codes_before(c, 6) == 7);
    assert(first_code(c, 7) == 254 && codes_before(c, 7) == 8);
    assert(first_code(c, 8) == 510 && codes_before(c, 8) == 9);
    assert(first_code(c, 9) == 1022 && codes_before(c, 9) == 10);
    assert(first_code(c, 10) == 2046 && codes_before(c, 10) == 11);
    assert(first_code(c, 11) == 4094 && codes_before(c, 11) == 12);
    assert(first_code(c, 12) == 8188 && codes_before(c, 12) == 12);
    assert(first_code(c, 13) == 16376 && codes_before(c, 13) == 12);
    assert(first_code(c, 14) == 32752 && codes_before(c, 14) == 12);
    assert(first_code(c, 15) == 65504 && codes_before(c, 15) == 12);
    assert(first_code(c, 16) == 131008 && codes_before(c, 16) == 12);
}

proof fn lemma_ac_lum_table()
    ensures
        codes_fit(AC_LUM_BITS@),
        codes_before(AC_LUM_BITS@, 16) == AC_LUM_VALS@.len(),
{
    power2::lemma2_to64();
    let c = AC_LUM_BITS@;
    assert(first_code(c, 0) == 0 && codes_before(c, 0) == 0);
    assert(first_code(c, 1) == 0 && codes_before(c, 1) == 0);
    assert(first_code(c, 2) == 4 && codes_before(c, 2) == 2);
    assert(first_code(c, 3) == 10 && codes_before(c, 3) == 3);
    assert(first_code(c, 4) == 26 && codes_before(c, 4) == 6);
    assert(first_code(c, 5) == 58 && codes_before(c, 5) == 9);
    assert(first_code(c, 6) == 120 && codes_before(c, 6) == 11);
    assert(first_code(c, 7) == 248 && codes_before(c, 7) == 15);
    assert(first_code(c, 8) == 502 && codes_before(c, 8) == 18);
    assert(first_code(c, 9) == 1014 && codes_before(c, 9) == 23);
    assert(first_code(c, 10) == 2038 && codes_before(c, 10) == 28);
    assert(first_code(c, 11) == 4084 && codes_before(c, 11) == 32);
    assert(first_code(c, 12) == 8176 && codes_before(c, 12) == 36);
    assert(first_code(c, 13) == 16352 && codes_before(c, 13) == 36);
    assert(first_code(c, 14) == 32704 && codes_before(c, 14) == 36);
    assert(first_code(c, 15) == 65410 && codes_before(c, 15) == 37);
    assert(first_code(c, 16) == 131070 && codes_before(c, 16) == 162);
}

proof fn lemma_ac_chr_table()
    ensures
        codes_fit(AC_CHR_BITS@),
        codes_before(AC_CHR_BITS@, 16) == AC_CHR_VALS@.len(),
{
    power2::lemma2_to64();
    let c = AC_CHR_BITS@;
    assert(first_code(c, 0) == 0 && codes_before(c, 0) == 0);
    assert(first_code(c, 1) == 0 && codes_before(c, 1) == 0);
    assert(first_code(c, 2) == 4 && codes_before(c, 2) == 2);
    assert(first_code(c, 3) == 10 && codes_before(c, 3) == 3);
    assert(first_code(c, 4) == 24 && codes_before(c, 4) == 5);
    assert(first_code(c, 5) == 56 && codes_before(c, 5) == 9);
    assert(first_code(c, 6) == 120 && codes_before(c, 6) == 13);
    assert(first_code(c, 7) == 246 && codes_before(c, 7) == 16);
    assert(first_code(c, 8) == 500 && codes_before(c, 8) == 20);
    assert(first_code(c, 9) == 1014 && codes_before(c, 9) == 27);
    assert(first_code(c, 10) == 2038 && codes_before(c, 10) == 32);
    assert(first_code(c, 11) == 4084 && codes_before(c, 11) == 36);
    assert(first_code(c, 12) == 8176 && codes_before(c, 12) == 40);
    assert(first_code(c, 13) == 16352 && codes_before(c, 13) == 40);
    assert(first_code(c, 14) == 32706 && codes_before(c, 14) == 41);
    assert(first_code(c, 15) == 65416 && codes_before(c, 15) == 43);
    assert(first_code(c, 16) == 131070 && codes_before(c, 16) == 162);
}

/// The percentage by which a quality from 1 to 100 scales the standard tables.
pub open spec fn quality_scale(quality: u32) -> int {
    let q = if quality < 1 {
        1int
    } else if quality > 100 {
        100
    } else {
        quality as int
    };
    if q < 50 {
        5000int / q
    } else {
        200 - 2 * q
    }
}

/// One entry of a scaled table.
pub open spec fn scaled(base: u8, quality: u32) -> int {
    let v = (base * quality_scale(quality) + 50) / 100;
    if v < 1 {
        1
    } else if v > 255 {
        255
    } else {
        v
    }
}

/// Scales a quantization table to a quality.
pub fn scale_table(base: &[u8; 64], quality: u32) -> (r: [u16; 64])
    ensures
        forall|i: int| 0 <= i < 64 ==> #[trigger] r@[i] == scaled(base@[i], quality),
        forall|i: int| 0 <= i < 64 ==> 1 <= #[trigger] r@[i] <= 255,
{
    let q: u32 = if quality < 1 {
        1
    } else if quality > 100 {
        100
    } else {
        quality
    };
    let scale: u32 = if q < 50 {
        5000 / q
    } else {
        200 - 2 * q
    };
    assert(scale <= 5000) by (nonlinear_arith)
        requires
            q >= 1,
            scale == 5000u32 / q || scale <= 200,
    ;
    let mut out: [u16; 64] = [0;64];
    let mut i: usize = 0;
    while i < 64
        invariant
            i <= 64,
            scale == quality_scale(quality),
            scale <= 5000,
            forall|j: int| 0 <= j < i ==> #[trigger] out@[j] == scaled(base@[j], quality),
            forall|j: int| 0 <= j < i ==> 1 <= #[trigger] out@[j] <= 255,
        decreases 64 - i,
    {
        let b: u32 = base[i] as u32;
        assert(b * scale <= 255 * 5000) by (nonlinear_arith)
            requires
                b <= 255,
                scale <= 5000,
        ;
        let v: u32 = (b * scale + 50) / 100;
        let w: u32 = if v < 1 {
            1
        } else if v > 255 {
            255
        } else {
            v
        };
        out[i] = w as u16;
        i += 1;
    }
    out
}

/// How many binary digits a number has.
pub open spec fn bit_length(n: nat) -> nat
    decreases n,
{
    if n == 0 {
        0
    } else {
        1 + bit_length(n / 2)
    }
}

/// The category of a coefficient: how many binary digits its size has.
pub open spec fn category(v: int) -> nat {
    bit_length(if v < 0 {
        -v
    } else {
        v
    } as nat)
}

/// The number that tells the coefficients of one category apart: the
/// coefficient itself, or for a negative one what it is above the category's
/// least.
pub open spec fn extra(v: int) -> int {
    if v < 0 {
        v + power2::pow2(category(v)) - 1
    } else {
        v
    }
}

proof fn lemma_bit_length(n: nat)
    ensures
        n < power2::pow2(bit_length(n)),
        n > 0 ==> power2::pow2((bit_length(n) - 1) as nat) <= n,
    decreases n,
{
    power2::lemma2_to64();
    if n > 0 {
        lemma_bit_length(n / 2);
        power2::lemma_pow2_unfold(bit_length(n));
        if n / 2 > 0 {
            power2::lemma_pow2_unfold((bit_length(n) - 1) as nat);
        }
    }
}

proof fn lemma_bit_length_unique(n: nat, k: nat)
    requires
        n > 0,
        k > 0,
        power2::pow2((k - 1) as nat) <= n < power2::pow2(k),
    ensures
        bit_length(n) == k,
{
    lemma_bit_length(n);
    let b = bit_length(n);
    if b < k {
        bits::lemma_pow2_monotonic(b, (k - 1) as nat);
    }
    if k < b {
        bits::lemma_pow2_monotonic(k, (b - 1) as nat);
    }
}

/// The bits of a coefficient fit its category.
pub proof fn lemma_extra(v: int)
    ensures
        0 <= extra(v) < power2::pow2(category(v)),
{
    lemma_bit_length(if v < 0 {
        -v
    } else {
        v
    } as nat);
}

/// Category and bits together give the coefficient back: those with the first
/// bit set are positive, the others negative.
pub proof fn law_category_and_extra_decode(v: int)
    requires
        v != 0,
    ensures
        category(v) > 0,
        v > 0 <==> extra(v) >= power2::pow2((category(v) - 1) as nat),
        v == (if extra(v) >= power2::pow2((category(v) - 1) as nat) {
            extra(v)
        } else {
            extra(v) - power2::pow2(category(v)) + 1
        }),
{
    let n = (if v < 0 {
        -v
    } else {
        v
    }) as nat;
    lemma_bit_length(n);
    power2::lemma_pow2_unfold(category(v));
}

/// Splits a coefficient into its category and its bits.
pub fn categorize(val: i16) -> (r: (u8, u16))
    requires
        val > i16::MIN,
    ensures
        r.0 == category(val as int),
        r.1 == extra(val as int),
        r.0 <= 15,
        r.1 < power2::pow2(r.0 as nat),
{
    proof {
        power2::lemma2_to64();
        lemma_extra(val as int);
    }
    if val == 0 {
        return (0, 0);
    }
    let a: u32 = if val < 0 {
        (-(val as i32)) as u32
    } else {
        val as u32
    };
    let mut cat: u8 = 1;
    let mut p: u32 = 2;
    while p <= a
        invariant
            1 <= cat <= 15,
            0 < a <= 32767,
            p == power2::pow2(cat as nat),
            power2::pow2((cat - 1) as nat) <= a,
        decreases 16 - cat,
    {
        proof {
            power2::lemma2_to64();
            power2::lemma_pow2_unfold((cat + 1) as nat);
            if cat == 15 {
                assert(p == 32768);
            }
        }
        p = 2 * p;
        cat = cat + 1;
    }
    proof {
        lemma_bit_length_unique(a as nat, cat as nat);
        bits::lemma_pow2_monotonic(cat as nat, 15);
    }
    let low: u32 = if val > 0 {
        a
    } else {
        p - 1 - a
    };
    (cat, low as u16)
}

/// The bits of a symbol.
pub open spec fn symbol_bits(t: HuffTable, s: int) -> Seq<bool> {
    bits::bits_of(t.code@[s] as nat, t.size@[s] as nat)
}

/// The bits of a coefficient behind its symbol.
pub open spec fn extra_bits(v: int) -> Seq<bool> {
    bits::bits_of(extra(v) as nat, category(v))
}

/// The symbol for sixteen zeros, `n` times.
pub open spec fn long_runs(ac: HuffTable, n: int) -> Seq<bool>
    decreases n,
{
    if n <= 0 {
        Seq::empty()
    } else {
        symbol_bits(ac, 0xf0) + long_runs(ac, n - 1)
    }
}

/// The bits of the coefficients from `i` on, with `zeros` zeros before them.
pub open spec fn ac_bits(c: Seq<i16>, ac: HuffTable, i: int, zeros: int) -> Seq<bool>
    decreases 64 - i,
{
    if i >= 64 {
        if zeros > 0 {
            symbol_bits(ac, 0)
        } else {
            Seq::empty()
        }
    } else if c[i] == 0 {
        ac_bits(c, ac, i + 1, zeros + 1)
    } else {
        long_runs(ac, zeros / 16) + symbol_bits(
            ac,
            16 * (zeros % 16) + category(c[i] as int),
        ) + extra_bits(c[i] as int) + ac_bits(c, ac, i + 1, 0)
    }
}

/// The bits of a block: how its first coefficient differs from the one before,
/// then the others.
pub open spec fn block_bits(c: Seq<i16>, prev: int, dc: HuffTable, ac: HuffTable) -> Seq<bool> {
    symbol_bits(dc, category(c[0] - prev) as int) + extra_bits(c[0] - prev) + ac_bits(c, ac, 1, 0)
}

/// Whether every coefficient is small enough for the difference of two to be a
/// coefficient.
pub open spec fn small(c: Seq<i16>) -> bool {
    forall|i: int| 0 <= i < c.len() ==> -0x4000 < #[trigger] c[i] < 0x4000
}

fn put_symbol(bw: &mut BitWriter, t: &HuffTable, s: u8)
    requires
        old(bw).wf(),
        table_wf(*t),
    ensures
        final(bw).wf(),
        final(bw)@ == old(bw)@ + symbol_bits(*t, s as int),
{
    assert(t.size@[s as int] <= 16);
    bw.put(t.code[s as usize], t.size[s as usize]);
}

/// Writes one block of coefficients in zigzag order.
pub fn encode_block(
    bw: &mut BitWriter,
    coeffs: &[i16; 64],
    prev_dc: &mut i16,
    dc_ht: &HuffTable,
    ac_ht: &HuffTable,
)
    requires
        old(bw).wf(),
        table_wf(*dc_ht),
        table_wf(*ac_ht),
        small(coeffs@),
        -0x4000 < *old(prev_dc) < 0x4000,
    ensures
        final(bw).wf(),
        *final(prev_dc) == coeffs@[0],
        final(bw)@ == old(bw)@ + block_bits(coeffs@, *old(prev_dc) as int, *dc_ht, *ac_ht),
{
    let ghost start = bw@;
    let ghost prev = *prev_dc as int;
    assert(-0x4000 < coeffs@[0] < 0x4000);
    let diff: i16 = coeffs[0] - *prev_dc;
    *prev_dc = coeffs[0];
    let (cat, low) = categorize(diff);
    put_symbol(bw, dc_ht, cat);
    bw.put(low, cat);
    let mut zeros: u8 = 0;
    let mut i: usize = 1;
    let ghost head = symbol_bits(*dc_ht, cat as int) + extra_bits(diff as int);
    assert(bw@ =~= start + head);
    let ghost whole = start + block_bits(coeffs@, prev, *dc_ht, *ac_ht);
    assert(whole =~= bw@ + ac_bits(coeffs@, *ac_ht, 1, 0));
    while i < 64
        invariant
            1 <= i <= 64,
            zeros < i,
            bw.wf(),
            table_wf(*ac_ht),
            small(coeffs@),
            whole == bw@ + ac_bits(coeffs@, *ac_ht, i as int, zeros as int),
        decreases 64 - i,
    {
        let c = coeffs[i];
        assert(-0x4000 < coeffs@[i as int] < 0x4000);
        if c == 0 {
            zeros = zeros + 1;
        } else {
            let ghost rest = symbol_bits(*ac_ht, 16 * (zeros % 16) + category(c as int))
                + extra_bits(c as int) + ac_bits(coeffs@, *ac_ht, i + 1, 0);
            let ghost run = zeros as int;
            assert(bw@ + ac_bits(coeffs@, *ac_ht, i as int, run) =~= bw@ + long_runs(
                *ac_ht,
                run / 16,
            ) + rest);
            while zeros >= 16
                invariant
                    bw.wf(),
                    table_wf(*ac_ht),
                    run % 16 == zeros % 16,
                    whole == bw@ + long_runs(*ac_ht, zeros as int / 16) + rest,
                decreases zeros,
            {
                let ghost b0 = bw@;
                put_symbol(bw, ac_ht, 0xf0);
                assert(b0 + long_runs(*ac_ht, zeros as int / 16) =~= bw@ + long_runs(
                    *ac_ht,
                    zeros as int / 16 - 1,
                ));
                zeros = zeros - 16;
            }
            assert(long_runs(*ac_ht, zeros as int / 16) =~= Seq::<bool>::empty());
            let ghost b1 = bw@;
            assert(whole =~= b1 + rest);
            let (cat, low) = categorize(c);
            put_symbol(bw, ac_ht, 16 * zeros + cat);
            bw.put(low, cat);
            assert(b1 + rest =~= bw@ + ac_bits(coeffs@, *ac_ht, i + 1, 0));
            zeros = 0;
        }
        i += 1;
    }
    if zeros > 0 {
        put_symbol(bw, ac_ht, 0);
    }
    assert(bw@ =~= whole);
}

/// A number as two bytes, the more significant first.
pub open spec fn be16(v: int) -> Seq<u8> {
    seq![(v / 256 % 256) as u8, (v % 256) as u8]
}

fn append(out: &mut Vec<u8>, s: &[u8])
    ensures
        final(out)@ == old(out)@ + s@,
{
    let mut i: usize = 0;
    while i < s.len()
        invariant
            i <= s@.len(),
            out@ == old(out)@ + s@.take(i as int),
        decreases s@.len() - i,
    {
        out.push(s[i]);
        i += 1;
        assert(out@ =~= old(out)@ + s@.take(i as int));
    }
    assert(s@.take(i as int) =~= s@);
}

fn append_be16(out: &mut Vec<u8>, v: u16)
    ensures
        final(out)@ == old(out)@ + be16(v as int),
{
    out.push((v / 256) as u8);
    out.push((v % 256) as u8);
    assert(out@ =~= old(out)@ + be16(v as int));
}

/// The segment that defines a quantization table.
pub open spec fn dqt(id: u8, table: Seq<u16>) -> Seq<u8> {
    seq![0xffu8, 0xdb] + be16(67) + seq![id] + Seq::new(
        64,
        |i: int| table[ZIGZAG@[i] as int] as u8,
    )
}

/// The segment that defines a Huffman table.
pub open spec fn dht(class_id: u8, counts: Seq<u8>, vals: Seq<u8>) -> Seq<u8> {
    seq![0xffu8, 0xc4] + be16(19 + vals.len() as int) + seq![class_id] + counts + vals
}

/// Writes a quantization table.
pub fn write_dqt(out: &mut Vec<u8>, id: u8, table: &[u16; 64])
    ensures
        final(out)@ == old(out)@ + dqt(id, table@),
{
    let ghost start = out@;
    append(out, &[0xff, 0xdb]);
    append_be16(out, 67);
    out.push(id);
    let ghost head = seq![0xffu8, 0xdb] + be16(67) + seq![id];
    assert(out@ =~= start + head);
    let mut i: usize = 0;
    while i < 64
        invariant
            i <= 64,
            out@ == start + head + Seq::new(
                i as nat,
                |j: int| table@[ZIGZAG@[j] as int] as u8,
            ),
        decreases 64 - i,
    {
        assert(ZIGZAG@[i as int] < 64);
        #[verifier::truncate]
        let b: u8 = table[ZIGZAG[i] as usize] as u8;
        out.push(b);
        i += 1;
        assert(out@ =~= start + head + Seq::new(
            i as nat,
            |j: int| table@[ZIGZAG@[j] as int] as u8,
        ));
    }
    assert(out@ =~= start + dqt(id, table@));
}

/// Writes a Huffman table.
pub fn write_dht(out: &mut Vec<u8>, class_id: u8, counts: &[u8; 16], vals: &[u8])
    requires
        vals@.len() <= 65516,
    ensures
        final(out)@ == old(out)@ + dht(class_id, counts@, vals@),
{
    let ghost start = out@;
    append(out, &[0xff, 0xc4]);
    append_be16(out, 19 + vals.len() as u16);
    out.push(class_id);
    append(out, counts);
    append(out, vals);
    assert(out@ =~= start + dht(class_id, counts@, vals@));
}

/// The start of a file: its marker and the JFIF header of version 1.1.
pub const START: [u8; 20] = [
    0xff, 0xd8, 0xff, 0xe0, 0, 16, 0x4a, 0x46, 0x49, 0x46, 0, 1, 1, 0, 0, 1, 0, 1, 0, 0,
];

/// The start of the frame header: eight bits a sample.
pub const FRAME: [u8; 5] = [0xff, 0xc0, 0, 17, 8];

/// The three components, none of them reduced, and their quantization tables.
pub const COMPONENTS: [u8; 10] = [3, 1, 0x11, 0, 2, 0x11, 1, 3, 0x11, 1];

/// The scan header: the three components and their Huffman tables.
pub const SCAN: [u8; 14] = [0xff, 0xda, 0, 12, 3, 1, 0x00, 2, 0x11, 3, 0x11, 0x00, 0x3f, 0x00];

/// A table scaled to a quality.
pub open spec fn scaled_table(base: Seq<u8>, quality: u32) -> Seq<u16> {
    Seq::new(64, |i: int| scaled(base[i], quality) as u16)
}

/// All that stands before the scan.
pub open spec fn header(width: u32, height: u32, quality: u32) -> Seq<u8> {
    START@ + dqt(0, scaled_table(STD_LUM_QUANT@, quality)) + dqt(
        1,
        scaled_table(STD_CHR_QUANT@, quality),
    ) + FRAME@ + be16(height as int) + be16(width as int) + COMPONENTS@ + dht(
        0x00,
        DC_LUM_BITS@,
        DC_LUM_VALS@,
    ) + dht(0x10, AC_LUM_BITS@, AC_LUM_VALS@) + dht(0x01, DC_CHR_BITS@, DC_CHR_VALS@) + dht(
        0x11,
        AC_CHR_BITS@,
        AC_CHR_VALS@,
    ) + SCAN@
}

fn write_quant_tables(out: &mut Vec<u8>, quality: u32)
    ensures
        final(out)@ == old(out)@ + dqt(0, scaled_table(STD_LUM_QUANT@, quality)) + dqt(
            1,
            scaled_table(STD_CHR_QUANT@, quality),
        ),
{
    let lum = scale_table(&STD_LUM_QUANT, quality);
    let chr = scale_table(&STD_CHR_QUANT, quality);
    assert(lum@ =~= scaled_table(STD_LUM_QUANT@, quality));
    assert(chr@ =~= scaled_table(STD_CHR_QUANT@, quality));
    write_dqt(out, 0, &lum);
    write_dqt(out, 1, &chr);
}

/// Two bytes hold a number up to a multiple of 65536.
proof fn lemma_be16(v: u32)
    ensures
        be16((v % 65536) as int) == be16(v as int),
{
    assert((v % 65536) / 256 % 256 == v / 256 % 256 && v % 65536 % 256 == v % 256) by (bit_vector);
}

fn write_frame(out: &mut Vec<u8>, width: u32, height: u32)
    ensures
        final(out)@ == old(out)@ + FRAME@ + be16(height as int) + be16(width as int) + COMPONENTS@,
{
    append(out, &FRAME);
    append_be16(out, (height % 65536) as u16);
    append_be16(out, (width % 65536) as u16);
    proof {
        lemma_be16(height);
        lemma_be16(width);
    }
    append(out, &COMPONENTS);
}

fn write_lum_tables(out: &mut Vec<u8>)
    ensures
        final(out)@ == old(out)@ + dht(0x00, DC_LUM_BITS@, DC_LUM_VALS@) + dht(
            0x10,
            AC_LUM_BITS@,
            AC_LUM_VALS@,
        ),
{
    write_dht(out, 0x00, &DC_LUM_BITS, &DC_LUM_VALS);
    write_dht(out, 0x10, &AC_LUM_BITS, &AC_LUM_VALS);
}

fn write_chr_tables(out: &mut Vec<u8>)
    ensures
        final(out)@ == old(out)@ + dht(0x01, DC_CHR_BITS@, DC_CHR_VALS@) + dht(
            0x11,
            AC_CHR_BITS@,
            AC_CHR_VALS@,
        ),
{
    write_dht(out, 0x01, &DC_CHR_BITS, &DC_CHR_VALS);
    write_dht(out, 0x11, &AC_CHR_BITS, &AC_CHR_VALS);
}

fn write_header(width: u32, height: u32, quality: u32) -> (r: Vec<u8>)
    ensures
        r@ == header(width, height, quality),
{
    let mut out: Vec<u8> = Vec::new();
    append(&mut out, &START);
    assert(out@ =~= START@);
    write_quant_tables(&mut out, quality);
    write_frame(&mut out, width, height);
    write_lum_tables(&mut out);
    write_chr_tables(&mut out);
    append(&mut out, &SCAN);
    out
}

/// Eight by eight pixels, row by row, by colour.
pub struct RgbBlock {
    pub r: [u8; 64],
    pub g: [u8; 64],
    pub b: [u8; 64],
}

/// How many blocks cover a number of pixels.
pub open spec fn blocks_across(n: u32) -> int {
    (n + 7) / 8
}

/// Where in a picture the red byte of pixel `i` of a block stands. Pixels
/// beyond the right and lower edge repeat the last ones.
pub open spec fn sample_at(width: u32, height: u32, bx: int, by: int, i: int) -> int {
    let x = if bx * 8 + i % 8 < width {
        bx * 8 + i % 8
    } else {
        width - 1
    };
    let y = if by * 8 + i / 8 < height {
        by * 8 + i / 8
    } else {
        height - 1
    };
    (y * width + x) * 3
}

/// Whether pixel `i` of a block is the picture's.
pub open spec fn sampled(
    rgb: Seq<u8>,
    width: u32,
    height: u32,
    bx: int,
    by: int,
    b: RgbBlock,
    i: int,
) -> bool {
    let at = sample_at(width, height, bx, by, i);
    &&& 0 <= at
    &&& at + 2 < rgb.len()
    &&& b.r@[i] == rgb[at]
    &&& b.g@[i] == rgb[at + 1]
    &&& b.b@[i] == rgb[at + 2]
}

/// Takes one block out of a picture of packed RGB.
pub fn sample_block(rgb: &[u8], width: u32, height: u32, bx: u32, by: u32) -> (r: RgbBlock)
    requires
        rgb@.len() >= 3 * width * height,
        bx < blocks_across(width),
        by < blocks_across(height),
    ensures
        forall|i: int|
            0 <= i < 64 ==> #[trigger] sampled(rgb@, width, height, bx as int, by as int, r, i),
{
    let mut out = RgbBlock { r: [0;64], g: [0;64], b: [0;64] };
    let n: usize = rgb.len();
    let mut i: usize = 0;
    while i < 64
        invariant
            i <= 64,
            n == rgb@.len(),
            rgb@.len() >= 3 * width * height,
            bx < blocks_across(width),
            by < blocks_across(height),
            forall|j: int|
                0 <= j < i ==> #[trigger] sampled(rgb@, width, height, bx as int, by as int, out, j),
        decreases 64 - i,
    {
        let x0: u64 = bx as u64 * 8 + (i % 8) as u64;
        let y0: u64 = by as u64 * 8 + (i / 8) as u64;
        let x: u64 = if x0 < width as u64 {
            x0
        } else {
            width as u64 - 1
        };
        let y: u64 = if y0 < height as u64 {
            y0
        } else {
            height as u64 - 1
        };
        proof {
            assert(y * width + x + 1 <= width * height && 0 <= y * width) by (nonlinear_arith)
                requires
                    0 <= x < width,
                    0 <= y < height,
            ;
            assert(width * height == height * width) by (nonlinear_arith);
            assert(3 * width * height == 3 * (width * height)) by (nonlinear_arith);
        }
        let at: usize = ((y * width as u64 + x) * 3) as usize;
        assert(at == sample_at(width, height, bx as int, by as int, i as int));
        let ghost before = out;
        out.r[i] = rgb[at];
        out.g[i] = rgb[at + 1];
        out.b[i] = rgb[at + 2];
        proof {
            assert forall|j: int| 0 <= j < i + 1 implies #[trigger] sampled(
                rgb@,
                width,
                height,
                bx as int,
                by as int,
                out,
                j,
            ) by {
                if j < i {
                    assert(sampled(rgb@, width, height, bx as int, by as int, before, j));
                }
            }
        }
        i += 1;
    }
    out
}

/// Whether block `n` of a picture, counted row by row from the top left, holds the
/// picture's pixels.
pub open spec fn cut_at(
    rgb: Seq<u8>,
    width: u32,
    height: u32,
    blocks: Seq<RgbBlock>,
    n: int,
) -> bool {
    forall|i: int|
        0 <= i < 64 ==> #[trigger] sampled(
            rgb,
            width,
            height,
            n % blocks_across(width),
            n / blocks_across(width),
            blocks[n],
            i,
        )
}

/// Whether these are the blocks of a picture, row by row from the top left.
pub open spec fn is_cut(rgb: Seq<u8>, width: u32, height: u32, blocks: Seq<RgbBlock>) -> bool {
    &&& blocks.len() == blocks_across(width) * blocks_across(height)
    &&& forall|n: int| 0 <= n < blocks.len() ==> #[trigger] cut_at(rgb, width, height, blocks, n)
}

fn count_across(n: u32) -> (r: u32)
    ensures
        r == blocks_across(n),
{
    if n % 8 == 0 {
        n / 8
    } else {
        n / 8 + 1
    }
}

/// Cuts a picture of packed RGB into its blocks.
pub fn sample_blocks(rgb: &[u8], width: u32, height: u32) -> (r: Vec<RgbBlock>)
    requires
        rgb@.len() >= 3 * width * height,
    ensures
        is_cut(rgb@, width, height, r@),
{
    let across: u32 = count_across(width);
    let down: u32 = count_across(height);
    let mut out: Vec<RgbBlock> = Vec::new();
    let mut by: u32 = 0;
    assert(0 * across == 0);
    while by < down
        invariant
            rgb@.len() >= 3 * width * height,
            across == blocks_across(width),
            down == blocks_across(height),
            by <= down,
            out@.len() == by * across,
            forall|n: int| 0 <= n < out@.len() ==> #[trigger] cut_at(rgb@, width, height, out@, n),
        decreases down - by,
    {
        let mut bx: u32 = 0;
        while bx < across
            invariant
                rgb@.len() >= 3 * width * height,
                across == blocks_across(width),
                down == blocks_across(height),
                by < down,
                bx <= across,
                out@.len() == by * across + bx,
                forall|n: int|
                    0 <= n < out@.len() ==> #[trigger] cut_at(rgb@, width, height, out@, n),
            decreases across - bx,
        {
            let ghost before = out@;
            let block = sample_block(rgb, width, height, bx, by);
            out.push(block);
            proof {
                let n = before.len() as int;
                div_mod::lemma_fundamental_div_mod_converse(n, across as int, by as int, bx as int);
                assert(cut_at(rgb@, width, height, out@, n));
                assert forall|m: int| 0 <= m < out@.len() implies #[trigger] cut_at(
                    rgb@,
                    width,
                    height,
                    out@,
                    m,
                ) by {
                    if m < n {
                        assert(cut_at(rgb@, width, height, before, m));
                        assert(out@[m] == before[m]);
                    }
                }
            }
            bx += 1;
        }
        assert((by + 1) * across == by * across + across) by (nonlinear_arith);
        by += 1;
    }
    assert(down * across == across * down) by (nonlinear_arith);
    out
}

/// The quantized coefficients of one block, in zigzag order, by component.
pub struct Block {
    pub y: [i16; 64],
    pub cb: [i16; 64],
    pub cr: [i16; 64],
}

/// The four Huffman tables of a file.
pub struct Tables {
    pub dc_lum: HuffTable,
    pub ac_lum: HuffTable,
    pub dc_chr: HuffTable,
    pub ac_chr: HuffTable,
}

/// Whether these are the standard tables.
pub open spec fn standard(t: Tables) -> bool {
    &&& holds_codes(t.dc_lum, DC_LUM_BITS@, DC_LUM_VALS@, 12)
    &&& holds_codes(t.ac_lum, AC_LUM_BITS@, AC_LUM_VALS@, 162)
    &&& holds_codes(t.dc_chr, DC_CHR_BITS@, DC_CHR_VALS@, 12)
    &&& holds_codes(t.ac_chr, AC_CHR_BITS@, AC_CHR_VALS@, 162)
}

/// Builds the standard tables.
pub fn standard_tables() -> (t: Tables)
    ensures
        standard(t),
        table_wf(t.dc_lum),
        table_wf(t.ac_lum),
        table_wf(t.dc_chr),
        table_wf(t.ac_chr),
{
    proof {
        lemma_standard_tables();
    }
    Tables {
        dc_lum: build_huff(&DC_LUM_BITS, &DC_LUM_VALS),
        ac_lum: build_huff(&AC_LUM_BITS, &AC_LUM_VALS),
        dc_chr: build_huff(&DC_CHR_BITS, &DC_CHR_VALS),
        ac_chr: build_huff(&AC_CHR_BITS, &AC_CHR_VALS),
    }
}

/// The bits of the first `n` blocks.
pub open spec fn scan_bits(blocks: Seq<Block>, n: int, t: Tables) -> Seq<bool>
    decreases n,
{
    if n <= 0 {
        Seq::empty()
    } else {
        let b = blocks[n - 1];
        let y = if n == 1 {
            0
        } else {
            blocks[n - 2].y@[0] as int
        };
        let cb = if n == 1 {
            0
        } else {
            blocks[n - 2].cb@[0] as int
        };
        let cr = if n == 1 {
            0
        } else {
            blocks[n - 2].cr@[0] as int
        };
        scan_bits(blocks, n - 1, t) + block_bits(b.y@, y, t.dc_lum, t.ac_lum) + block_bits(
            b.cb@,
            cb,
            t.dc_chr,
            t.ac_chr,
        ) + block_bits(b.cr@, cr, t.dc_chr, t.ac_chr)
    }
}

/// The file of a picture whose blocks have these coefficients.
pub open spec fn file_bytes(
    blocks: Seq<Block>,
    width: u32,
    height: u32,
    quality: u32,
    t: Tables,
) -> Seq<u8> {
    header(width, height, quality) + bits::stuffed(
        bits::packed(bits::padded(scan_bits(blocks, blocks.len() as int, t))),
    ) + seq![0xffu8, 0xd9]
}

/// The standard tables.
pub open spec fn the_tables() -> Tables {
    choose|t: Tables| standard(t)
}

/// The file of a picture with the standard tables.
pub open spec fn picture_file(blocks: Seq<Block>, width: u32, height: u32, quality: u32) -> Seq<u8> {
    file_bytes(blocks, width, height, quality, the_tables())
}

/// Whether the coefficients of every block are small.
pub open spec fn all_small(blocks: Seq<Block>) -> bool {
    forall|i: int|
        0 <= i < blocks.len() ==> small((#[trigger] blocks[i]).y@) && small(blocks[i].cb@) && small(
            blocks[i].cr@,
        )
}

fn write_file(blocks: &[Block], width: u32, height: u32, quality: u32, t: &Tables) -> (r: Vec<u8>)
    requires
        all_small(blocks@),
        table_wf(t.dc_lum),
        table_wf(t.ac_lum),
        table_wf(t.dc_chr),
        table_wf(t.ac_chr),
    ensures
        r@ == file_bytes(blocks@, width, height, quality, *t),
{
    let mut out = write_header(width, height, quality);
    let mut bw = BitWriter::new();
    let mut dc_y: i16 = 0;
    let mut dc_cb: i16 = 0;
    let mut dc_cr: i16 = 0;
    let mut i: usize = 0;
    while i < blocks.len()
        invariant
            i <= blocks@.len(),
            all_small(blocks@),
            bw.wf(),
            table_wf(t.dc_lum),
            table_wf(t.ac_lum),
            table_wf(t.dc_chr),
            table_wf(t.ac_chr),
            bw@ == scan_bits(blocks@, i as int, *t),
            -0x4000 < dc_y < 0x4000,
            -0x4000 < dc_cb < 0x4000,
            -0x4000 < dc_cr < 0x4000,
            i == 0 ==> dc_y == 0 && dc_cb == 0 && dc_cr == 0,
            i > 0 ==> dc_y == blocks@[i - 1].y@[0] && dc_cb == blocks@[i - 1].cb@[0] && dc_cr
                == blocks@[i - 1].cr@[0],
        decreases blocks@.len() - i,
    {
        let b = &blocks[i];
        assert(small(b.y@) && small(b.cb@) && small(b.cr@));
        assert(-0x4000 < b.y@[0] < 0x4000);
        assert(-0x4000 < b.cb@[0] < 0x4000);
        assert(-0x4000 < b.cr@[0] < 0x4000);
        encode_block(&mut bw, &b.y, &mut dc_y, &t.dc_lum, &t.ac_lum);
        encode_block(&mut bw, &b.cb, &mut dc_cb, &t.dc_chr, &t.ac_chr);
        encode_block(&mut bw, &b.cr, &mut dc_cr, &t.dc_chr, &t.ac_chr);
        i += 1;
    }
    bw.flush();
    let scan = bw.into_bytes();
    append(&mut out, scan.as_slice());
    append(&mut out, &[0xff, 0xd9]);
    assert(out@ =~= file_bytes(blocks@, width, height, quality, *t));
    out
}

/// Writes the file of a picture from the coefficients of its blocks, row by row
/// from the top left. `quality` is that of the quantization and runs from 1 to
/// 100.
pub fn encode(blocks: &[Block], width: u32, height: u32, quality: u32) -> (r: Vec<u8>)
    requires
        blocks@.len() == blocks_across(width) * blocks_across(height),
        all_small(blocks@),
    ensures
        standard(the_tables()),
        r@ == picture_file(blocks@, width, height, quality),
{
    let t = standard_tables();
    proof {
        law_standard_tables_are_unique(t, the_tables());
    }
    write_file(blocks, width, height, quality, &t)
}

/// There is one set of standard tables.
pub proof fn law_standard_tables_are_unique(t: Tables, u: Tables)
    requires
        standard(t),
        standard(u),
    ensures
        t == u,
{
    lemma_table_unique(t.dc_lum, u.dc_lum, DC_LUM_BITS@, DC_LUM_VALS@, 12);
    lemma_table_unique(t.ac_lum, u.ac_lum, AC_LUM_BITS@, AC_LUM_VALS@, 162);
    lemma_table_unique(t.dc_chr, u.dc_chr, DC_CHR_BITS@, DC_CHR_VALS@, 12);
    lemma_table_unique(t.ac_chr, u.ac_chr, AC_CHR_BITS@, AC_CHR_VALS@, 162);
}

proof fn lemma_table_unique(
    t: HuffTable,
    u: HuffTable,
    counts: Seq<u8>,
    vals: Seq<u8>,
    n: int,
)
    requires
        holds_codes(t, counts, vals, n),
        holds_codes(u, counts, vals, n),
    ensures
        t == u,
{
    assert forall|s: int| 0 <= s < 256 implies t.size@[s] == u.size@[s] && #[trigger] t.code@[s]
        == u.code@[s] by {
        assert(t.size@[s] == t.size@[s]);
        assert(u.size@[s] == u.size@[s]);
    }
    assert(t.code@ =~= u.code@);
    assert forall|s: int| 0 <= s < 256 implies #[trigger] t.size@[s] == u.size@[s] by {
        assert(t.code@[s] == u.code@[s]);
    }
    assert(t.size@ =~= u.size@);
    assert(t.code =~= u.code);
    assert(t.size =~= u.size);
}

} // verus!
