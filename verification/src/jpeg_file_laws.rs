//! What a reader finds in a written JPEG file: the picture's size, tables and
//! components where the format has them, and scan data in the order in which it
//! is read.

use vstd::arithmetic::power2;
use vstd::prelude::*;

use crate::jpeg::{self, Block, HuffTable, RgbBlock, Tables};

verus! {

/// The number that two bytes of a file hold, the high one first.
pub open spec fn word_at(f: Seq<u8>, at: int) -> int {
    256 * f[at] + f[at + 1]
}

/// Whether a file has a segment of a kind and length, which counts its own two
/// bytes, at a place.
pub open spec fn segment_at(f: Seq<u8>, at: int, kind: u8, len: int) -> bool {
    f[at] == 0xff && f[at + 1] == kind && word_at(f, at + 2) == len
}

/// Bytes that follow leave those of the header as they are.
proof fn lemma_begins_with_header(blocks: Seq<Block>, width: u32, height: u32, quality: u32, i: int)
    requires
        0 <= i < 623,
    ensures
        jpeg::header(width, height, quality).len() == 623,
        jpeg::picture_file(blocks, width, height, quality).len() >= 625,
        jpeg::picture_file(blocks, width, height, quality)[i] == jpeg::header(
            width,
            height,
            quality,
        )[i],
{
}

/// The size of the picture stands in its file: behind the eight bits of a sample
/// the frame header states the height, then the width, as far as sixteen bits hold
/// them.
pub proof fn law_file_states_its_size(blocks: Seq<Block>, width: u32, height: u32, quality: u32)
    ensures
        ({
            let f = jpeg::picture_file(blocks, width, height, quality);
            &&& f[158] == 0xff && f[159] == 0xc0
            &&& f[162] == 8
            &&& 256 * f[163] + f[164] == height % 65536
            &&& 256 * f[165] + f[166] == width % 65536
            &&& height < 65536 ==> 256 * f[163] + f[164] == height
            &&& width < 65536 ==> 256 * f[165] + f[166] == width
        }),
{
    assert forall|i: int| 0 <= i < 623 implies #[trigger] jpeg::picture_file(
        blocks,
        width,
        height,
        quality,
    )[i] == jpeg::header(width, height, quality)[i] by {
        lemma_begins_with_header(blocks, width, height, quality, i);
    }
}

/// The segments of a file follow each other without a gap: the JFIF header, two
/// quantization tables, the frame of three components that are not reduced, four
/// Huffman tables and the scan; the file begins and ends with its markers.
pub proof fn law_file_segments(blocks: Seq<Block>, width: u32, height: u32, quality: u32)
    ensures
        ({
            let f = jpeg::picture_file(blocks, width, height, quality);
            &&& f[0] == 0xff && f[1] == 0xd8
            &&& segment_at(f, 2, 0xe0, 16)
            &&& f.subrange(6, 11) == seq![0x4au8, 0x46, 0x49, 0x46, 0]
            &&& segment_at(f, 20, 0xdb, 67) && f[24] == 0
            &&& segment_at(f, 89, 0xdb, 67) && f[93] == 1
            &&& segment_at(f, 158, 0xc0, 17)
            &&& f.subrange(167, 177) == seq![3u8, 1, 0x11, 0, 2, 0x11, 1, 3, 0x11, 1]
            &&& segment_at(f, 177, 0xc4, 31) && f[181] == 0x00
            &&& segment_at(f, 210, 0xc4, 181) && f[214] == 0x10
            &&& segment_at(f, 393, 0xc4, 31) && f[397] == 0x01
            &&& segment_at(f, 426, 0xc4, 181) && f[430] == 0x11
            &&& segment_at(f, 609, 0xda, 12)
            &&& f.subrange(613, 623) == seq![3u8, 1, 0x00, 2, 0x11, 3, 0x11, 0, 63, 0]
            &&& f[f.len() - 2] == 0xff && f[f.len() - 1] == 0xd9
        }),
{
    let f = jpeg::picture_file(blocks, width, height, quality);
    assert forall|i: int| 0 <= i < 623 implies #[trigger] f[i] == jpeg::header(
        width,
        height,
        quality,
    )[i] by {
        lemma_begins_with_header(blocks, width, height, quality, i);
    }
    lemma_begins_with_header(blocks, width, height, quality, 0);
    assert(f.subrange(6, 11) =~= seq![0x4au8, 0x46, 0x49, 0x46, 0]);
    assert(f.subrange(167, 177) =~= seq![3u8, 1, 0x11, 0, 2, 0x11, 1, 3, 0x11, 1]);
    assert(f.subrange(613, 623) =~= seq![3u8, 1, 0x00, 2, 0x11, 3, 0x11, 0, 63, 0]);
}

/// The quantization tables stand in the file in the order of the zigzag scan,
/// luminance first.
pub proof fn law_file_holds_its_tables(
    blocks: Seq<Block>,
    width: u32,
    height: u32,
    quality: u32,
    i: int,
)
    requires
        0 <= i < 64,
    ensures
        jpeg::picture_file(blocks, width, height, quality)[25 + i] == jpeg::scaled(
            jpeg::STD_LUM_QUANT@[jpeg::ZIGZAG@[i] as int],
            quality,
        ),
        jpeg::picture_file(blocks, width, height, quality)[94 + i] == jpeg::scaled(
            jpeg::STD_CHR_QUANT@[jpeg::ZIGZAG@[i] as int],
            quality,
        ),
{
    lemma_begins_with_header(blocks, width, height, quality, 25 + i);
    lemma_begins_with_header(blocks, width, height, quality, 94 + i);
}

/// The file holds the Huffman tables with which its scan is written.
pub proof fn law_file_holds_its_codes(blocks: Seq<Block>, width: u32, height: u32, quality: u32)
    ensures
        ({
            let f = jpeg::picture_file(blocks, width, height, quality);
            &&& f.subrange(182, 210) == jpeg::DC_LUM_BITS@ + jpeg::DC_LUM_VALS@
            &&& f.subrange(215, 393) == jpeg::AC_LUM_BITS@ + jpeg::AC_LUM_VALS@
            &&& f.subrange(398, 426) == jpeg::DC_CHR_BITS@ + jpeg::DC_CHR_VALS@
            &&& f.subrange(431, 609) == jpeg::AC_CHR_BITS@ + jpeg::AC_CHR_VALS@
        }),
{
    let f = jpeg::picture_file(blocks, width, height, quality);
    assert forall|i: int| 0 <= i < 623 implies #[trigger] f[i] == jpeg::header(
        width,
        height,
        quality,
    )[i] by {
        lemma_begins_with_header(blocks, width, height, quality, i);
    }
    lemma_begins_with_header(blocks, width, height, quality, 0);
    assert(f.subrange(182, 210) =~= jpeg::DC_LUM_BITS@ + jpeg::DC_LUM_VALS@);
    assert(f.subrange(215, 393) =~= jpeg::AC_LUM_BITS@ + jpeg::AC_LUM_VALS@);
    assert(f.subrange(398, 426) =~= jpeg::DC_CHR_BITS@ + jpeg::DC_CHR_VALS@);
    assert(f.subrange(431, 609) =~= jpeg::AC_CHR_BITS@ + jpeg::AC_CHR_VALS@);
}

/// The scan walks the diagonals of a block: up and to the right on even ones,
/// down and to the left on odd ones, and along the edge where it meets it.
pub proof fn law_zigzag_walks_diagonals(i: int)
    requires
        0 <= i < 63,
    ensures
        jpeg::ZIGZAG@[0] == 0,
        ({
            let row = jpeg::ZIGZAG@[i] as int / 8;
            let col = jpeg::ZIGZAG@[i] as int % 8;
            let up = (row + col) % 2 == 0;
            jpeg::ZIGZAG@[i + 1] == (if up && col == 7 || !up && col == 0 && row < 7 {
                8 * (row + 1) + col
            } else if up && row == 0 || !up && row == 7 {
                8 * row + col + 1
            } else if up {
                8 * (row - 1) + col + 1
            } else {
                8 * (row + 1) + col - 1
            })
        }),
{
}

/// The tables are the ones that the format recommends: the quantization of luminance
/// and chrominance, and how many codes of each length the Huffman tables have.
pub proof fn law_recommended_tables()
    ensures
        jpeg::STD_LUM_QUANT@ == seq![
            16u8, 11, 10, 16, 24, 40, 51, 61, 12, 12, 14, 19, 26, 58, 60, 55, 14, 13, 16, 24,
            40, 57, 69, 56, 14, 17, 22, 29, 51, 87, 80, 62, 18, 22, 37, 56, 68, 109, 103, 77,
            24, 35, 55, 64, 81, 104, 113, 92, 49, 64, 78, 87, 103, 121, 120, 101, 72, 92, 95,
            98, 112, 100, 103, 99,
        ],
        jpeg::STD_CHR_QUANT@ == seq![
            17u8, 18, 24, 47, 99, 99, 99, 99, 18, 21, 26, 66, 99, 99, 99, 99, 24, 26, 56, 99,
            99, 99, 99, 99, 47, 66, 99, 99, 99, 99, 99, 99, 99, 99, 99, 99, 99, 99, 99, 99, 99,
            99, 99, 99, 99, 99, 99, 99, 99, 99, 99, 99, 99, 99, 99, 99, 99, 99, 99, 99, 99, 99,
            99, 99,
        ],
        jpeg::DC_LUM_BITS@ == seq![
            0u8, 1, 5, 1, 1, 1, 1, 1, 1, 0, 0, 0, 0, 0, 0, 0,
        ],
        jpeg::DC_LUM_VALS@ == seq![
            0u8, 1, 2, 3, 4, 5, 6, 7, 8, 9, 10, 11,
        ],
        jpeg::DC_CHR_BITS@ == seq![
            0u8, 3, 1, 1, 1, 1, 1, 1, 1, 1, 1, 0, 0, 0, 0, 0,
        ],
        jpeg::DC_CHR_VALS@ == seq![
            0u8, 1, 2, 3, 4, 5, 6, 7, 8, 9, 10, 11,
        ],
        jpeg::AC_LUM_BITS@ == seq![
            0u8, 2, 1, 3, 3, 2, 4, 3, 5, 5, 4, 4, 0, 0, 1, 0x7d,
        ],
        jpeg::AC_CHR_BITS@ == seq![
            0u8, 2, 1, 2, 4, 4, 3, 4, 7, 5, 4, 4, 0, 1, 2, 0x77,
        ],
{
    assert(jpeg::STD_LUM_QUANT@ =~= seq![
            16u8, 11, 10, 16, 24, 40, 51, 61, 12, 12, 14, 19, 26, 58, 60, 55, 14, 13, 16, 24,
            40, 57, 69, 56, 14, 17, 22, 29, 51, 87, 80, 62, 18, 22, 37, 56, 68, 109, 103, 77,
            24, 35, 55, 64, 81, 104, 113, 92, 49, 64, 78, 87, 103, 121, 120, 101, 72, 92, 95,
            98, 112, 100, 103, 99,
    ]);
    assert(jpeg::STD_CHR_QUANT@ =~= seq![
            17u8, 18, 24, 47, 99, 99, 99, 99, 18, 21, 26, 66, 99, 99, 99, 99, 24, 26, 56, 99,
            99, 99, 99, 99, 47, 66, 99, 99, 99, 99, 99, 99, 99, 99, 99, 99, 99, 99, 99, 99, 99,
            99, 99, 99, 99, 99, 99, 99, 99, 99, 99, 99, 99, 99, 99, 99, 99, 99, 99, 99, 99, 99,
            99, 99,
    ]);
    assert(jpeg::DC_LUM_BITS@ =~= seq![
            0u8, 1, 5, 1, 1, 1, 1, 1, 1, 0, 0, 0, 0, 0, 0, 0,
    ]);
    assert(jpeg::DC_LUM_VALS@ =~= seq![
            0u8, 1, 2, 3, 4, 5, 6, 7, 8, 9, 10, 11,
    ]);
    assert(jpeg::DC_CHR_BITS@ =~= seq![
            0u8, 3, 1, 1, 1, 1, 1, 1, 1, 1, 1, 0, 0, 0, 0, 0,
    ]);
    assert(jpeg::DC_CHR_VALS@ =~= seq![
            0u8, 1, 2, 3, 4, 5, 6, 7, 8, 9, 10, 11,
    ]);
    assert(jpeg::AC_LUM_BITS@ =~= seq![
            0u8, 2, 1, 3, 3, 2, 4, 3, 5, 5, 4, 4, 0, 0, 1, 0x7d,
    ]);
    assert(jpeg::AC_CHR_BITS@ =~= seq![
            0u8, 2, 1, 2, 4, 4, 3, 4, 7, 5, 4, 4, 0, 1, 2, 0x77,
    ]);
}

/// The symbols of coefficients are a run of at most fifteen zeros and a category from
/// 1 to 10, the end mark, and sixteen zeros; and the end mark is among the first four
/// symbols.
pub proof fn law_coefficient_symbols(i: int)
    requires
        0 <= i < 162,
    ensures
        ({
            let l = jpeg::AC_LUM_VALS@[i];
            let c = jpeg::AC_CHR_VALS@[i];
            &&& 1 <= l % 16 <= 10 || l == 0 || l == 0xf0
            &&& 1 <= c % 16 <= 10 || c == 0 || c == 0xf0
        }),
        jpeg::AC_LUM_VALS@[3] == 0,
        jpeg::AC_CHR_VALS@[0] == 0,
{
}

/// A quality of 50 keeps a table, and one of 100 makes all its entries 1.
pub proof fn law_quality_ends(base: u8)
    requires
        base >= 1,
    ensures
        jpeg::scaled(base, 50) == base,
        jpeg::scaled(base, 100) == 1,
{
    assert(jpeg::quality_scale(50) == 100 && jpeg::quality_scale(100) == 0);
    assert(base * jpeg::quality_scale(100) == 0) by (nonlinear_arith)
        requires
            jpeg::quality_scale(100) == 0,
    ;
}

/// Below 50 a table is scaled by 50 over the quality, from there on it goes down
/// to nothing in even steps: to the nearest whole number that is at least 1 and
/// fits a byte.
pub proof fn law_quality_scales(base: u8, quality: u32)
    requires
        1 <= quality <= 100,
    ensures
        1 <= jpeg::scaled(base, quality) <= 255,
        quality >= 50 && 1 < jpeg::scaled(base, quality) < 255 ==> 100 * jpeg::scaled(base, quality)
            <= 2 * base * (100 - quality) + 50 < 100 * (jpeg::scaled(base, quality) + 1),
        quality < 50 && 1 < jpeg::scaled(base, quality) < 255 ==> {
            let scale = 5000int / quality as int;
            100 * jpeg::scaled(base, quality) <= base * scale + 50 < 100 * (jpeg::scaled(
                base,
                quality,
            ) + 1)
        },
{
    if quality >= 50 {
        assert(2 * base * (100 - quality) == base * (200 - 2 * quality)) by (nonlinear_arith);
    }
}

/// A better quality never coarsens a table.
pub proof fn law_quality_refines(base: u8, worse: u32, better: u32)
    requires
        worse <= better,
    ensures
        jpeg::scaled(base, better) <= jpeg::scaled(base, worse),
{
    let a = jpeg::quality_scale(worse);
    let b = jpeg::quality_scale(better);
    let qa = if worse < 1 {
        1int
    } else if worse > 100 {
        100
    } else {
        worse as int
    };
    let qb = if better < 1 {
        1int
    } else if better > 100 {
        100
    } else {
        better as int
    };
    if qb < 50 {
        assert(5000int / qb <= 5000int / qa) by (nonlinear_arith)
            requires
                1 <= qa <= qb,
        ;
    } else if qa < 50 {
        assert(5000int / qa >= 100) by (nonlinear_arith)
            requires
                1 <= qa < 50,
        ;
    }
    assert(b <= a);
    assert(base * b <= base * a) by (nonlinear_arith)
        requires
            b <= a,
            base >= 0,
    ;
}

/// A block without coefficients behind the first is an end mark; one with a
/// single coefficient is told by how many zeros stand before it, sixteen of them
/// at a time, and ends with the mark unless the coefficient is the last.
pub proof fn law_single_coefficient(c: Seq<i16>, ac: HuffTable, at: int)
    requires
        c.len() == 64,
        1 <= at < 64,
        forall|i: int| 1 <= i < 64 && i != at ==> #[trigger] c[i] == 0,
    ensures
        c[at] == 0 ==> jpeg::ac_bits(c, ac, 1, 0) == jpeg::symbol_bits(ac, 0),
        c[at] != 0 ==> jpeg::ac_bits(c, ac, 1, 0) == jpeg::long_runs(ac, (at - 1) / 16)
            + jpeg::symbol_bits(ac, 16 * ((at - 1) % 16) + jpeg::category(c[at] as int))
            + jpeg::extra_bits(c[at] as int) + (if at == 63 {
            Seq::empty()
        } else {
            jpeg::symbol_bits(ac, 0)
        }),
{
    lemma_zeros(c, ac, 1, at, 0);
    if c[at] == 0 {
        lemma_zeros(c, ac, at, 64, at - 1);
    } else {
        lemma_zeros(c, ac, at + 1, 64, 0);
    }
}

proof fn lemma_zeros(c: Seq<i16>, ac: HuffTable, from: int, to: int, zeros: int)
    requires
        0 <= from <= to <= 64,
        forall|i: int| from <= i < to ==> #[trigger] c[i] == 0,
    ensures
        jpeg::ac_bits(c, ac, from, zeros) == jpeg::ac_bits(c, ac, to, zeros + to - from),
    decreases to - from,
{
    if from < to {
        lemma_zeros(c, ac, from + 1, to, zeros + 1);
    }
}

/// A block is read as luminance, blue and red chrominance, in this order: behind
/// the blocks before it the scan holds the luminance with the tables of
/// luminance, then the two others with those of chrominance, each beginning with
/// how its first coefficient differs from that of the block before.
pub proof fn law_scan_order(blocks: Seq<Block>, n: int, t: Tables)
    requires
        0 < n < blocks.len(),
    ensures
        ({
            let a = blocks[n - 1];
            let b = blocks[n];
            let dy = b.y@[0] - a.y@[0];
            let db = b.cb@[0] - a.cb@[0];
            let dr = b.cr@[0] - a.cr@[0];
            jpeg::scan_bits(blocks, n + 1, t) == jpeg::scan_bits(blocks, n, t) + (
            jpeg::symbol_bits(t.dc_lum, jpeg::category(dy) as int) + jpeg::extra_bits(dy)
                + jpeg::ac_bits(b.y@, t.ac_lum, 1, 0)) + (jpeg::symbol_bits(
                t.dc_chr,
                jpeg::category(db) as int,
            ) + jpeg::extra_bits(db) + jpeg::ac_bits(b.cb@, t.ac_chr, 1, 0)) + (jpeg::symbol_bits(
                t.dc_chr,
                jpeg::category(dr) as int,
            ) + jpeg::extra_bits(dr) + jpeg::ac_bits(b.cr@, t.ac_chr, 1, 0))
        }),
        jpeg::scan_bits(blocks, 0, t).len() == 0,
{
}

/// A picture is cut into blocks of eight by eight pixels, row by row: a pixel stands
/// in the block of its column and row, at its place there, with its three colours.
pub proof fn law_blocks_hold_their_pixels(
    rgb: Seq<u8>,
    width: u32,
    height: u32,
    blocks: Seq<RgbBlock>,
    x: int,
    y: int,
)
    requires
        jpeg::is_cut(rgb, width, height, blocks),
        0 <= x < width,
        0 <= y < height,
    ensures
        ({
            let across = (width + 7) / 8;
            let down = (height + 7) / 8;
            let b = blocks[(y / 8) * across + x / 8];
            let i = 8 * (y % 8) + x % 8;
            let at = 3 * (y * width + x);
            &&& blocks.len() == across * down
            &&& b.r@[i] == rgb[at]
            &&& b.g@[i] == rgb[at + 1]
            &&& b.b@[i] == rgb[at + 2]
        }),
{
    let across = jpeg::blocks_across(width);
    let down = jpeg::blocks_across(height);
    let n = (y / 8) * across + x / 8;
    let i = 8 * (y % 8) + x % 8;
    assert(0 <= x / 8 < across);
    assert(0 <= y / 8 < down);
    assert(0 <= n < across * down) by (nonlinear_arith)
        requires
            0 <= x / 8 < across,
            0 <= y / 8 <= down - 1,
            n == (y / 8) * across + x / 8,
    ;
    vstd::arithmetic::div_mod::lemma_fundamental_div_mod_converse(n, across, y / 8, x / 8);
    assert(jpeg::cut_at(rgb, width, height, blocks, n));
    assert(jpeg::sampled(rgb, width, height, x / 8, y / 8, blocks[n], i));
    assert(i % 8 == x % 8 && i / 8 == y % 8);
    assert((x / 8) * 8 + x % 8 == x && (y / 8) * 8 + y % 8 == y);
}

/// Codes are assigned as a reader of the table does: the first is zeros, codes of one
/// length count up, and the first of a greater length is one more than the last of
/// the length before, with zeros behind it.
pub proof fn law_codes_are_canonical(counts: Seq<u8>, k: int)
    requires
        counts.len() == 16,
        0 <= k,
        k + 1 < jpeg::codes_before(counts, 16),
    ensures
        jpeg::code_at(counts, 0) == 0,
        jpeg::size_at(counts, k) <= jpeg::size_at(counts, k + 1),
        jpeg::code_at(counts, k + 1) == (jpeg::code_at(counts, k) + 1) * power2::pow2(
            (jpeg::size_at(counts, k + 1) - jpeg::size_at(counts, k)) as nat,
        ),
{
    lemma_length(counts, k, 0);
    lemma_length(counts, k + 1, 0);
    lemma_length(counts, 0, 0);
    power2::lemma2_to64();
    let z = jpeg::length_from(counts, 0, 0);
    lemma_no_codes(counts, z);
    let a = jpeg::length_from(counts, k, 0);
    let b = jpeg::length_from(counts, k + 1, 0);
    if b < a {
        lemma_before_grows(counts, b + 1, a);
    }
    if a < b {
        lemma_before_grows(counts, a + 1, b);
        assert(jpeg::codes_before(counts, a + 1) == k + 1);
        lemma_gap(counts, a, b);
    } else {
        let c = jpeg::code_at(counts, k) + 1;
        assert(c * 1 == c);
    }
}

proof fn lemma_before_grows(counts: Seq<u8>, a: int, b: int)
    requires
        a <= b,
    ensures
        jpeg::codes_before(counts, a) <= jpeg::codes_before(counts, b),
    decreases b - a,
{
    if a < b {
        lemma_before_grows(counts, a, b - 1);
    }
}

proof fn lemma_length(counts: Seq<u8>, k: int, from: int)
    requires
        0 <= from <= 16,
        jpeg::codes_before(counts, from) <= k < jpeg::codes_before(counts, 16),
    ensures
        ({
            let l = jpeg::length_from(counts, k, from);
            &&& from <= l < 16
            &&& jpeg::codes_before(counts, l) <= k < jpeg::codes_before(counts, l + 1)
        }),
    decreases 16 - from,
{
    if from < 16 && k >= jpeg::codes_before(counts, from + 1) {
        lemma_length(counts, k, from + 1);
    }
}

/// Without shorter codes the first code is zeros.
proof fn lemma_no_codes(counts: Seq<u8>, len: int)
    requires
        0 <= len,
        jpeg::codes_before(counts, len) == 0,
    ensures
        jpeg::first_code(counts, len) == 0,
    decreases len,
{
    if len > 0 {
        lemma_no_codes(counts, len - 1);
    }
}

/// Where no code has a length between two, a zero is added for each.
proof fn lemma_gap(counts: Seq<u8>, a: int, b: int)
    requires
        0 <= a < b,
        jpeg::codes_before(counts, a + 1) == jpeg::codes_before(counts, b),
    ensures
        jpeg::first_code(counts, b) == (jpeg::first_code(counts, a) + counts[a]) * power2::pow2(
            (b - a) as nat,
        ),
    decreases b - a,
{
    power2::lemma2_to64();
    power2::lemma_pow2_unfold((b - a) as nat);
    let x = (jpeg::first_code(counts, a) + counts[a]) as int;
    let q = power2::pow2((b - a) as nat) as int;
    if a + 1 < b {
        lemma_before_grows(counts, a + 1, b - 1);
        lemma_gap(counts, a, b - 1);
        let p = power2::pow2((b - 1 - a) as nat) as int;
        assert(x * q == 2 * (x * p)) by (nonlinear_arith)
            requires
                q == 2 * p,
        ;
    } else {
        assert(x * q == 2 * x) by (nonlinear_arith)
            requires
                q == 2,
        ;
    }
}

/// A coefficient's category is the number of its binary digits: a category of
/// `k` holds the sizes from half a power of two to below it.
pub proof fn law_categories(v: int)
    ensures
        jpeg::category(0) == 0,
        v == 1 || v == -1 ==> jpeg::category(v) == 1,
        jpeg::category(v) == jpeg::category(-v),
        v > 0 ==> jpeg::category(2 * v) == jpeg::category(v) + 1,
        v > 0 ==> jpeg::category(2 * v + 1) == jpeg::category(v) + 1,
{
    assert(jpeg::bit_length(1) == 1 + jpeg::bit_length(0));
    if v > 0 {
        assert(jpeg::bit_length((2 * v) as nat) == 1 + jpeg::bit_length(((2 * v) as nat) / 2));
        assert(jpeg::bit_length((2 * v + 1) as nat) == 1 + jpeg::bit_length(((2 * v + 1) as nat) / 2));
    }
}

} // verus!
