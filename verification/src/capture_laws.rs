//! What captures and analysis strips promise: rows come without their padding,
//! the format nearest to the wanted one is chosen, driver names end at a zero, and
//! a grid shows frames, lines and nothing else.

use vstd::arithmetic::power;
use vstd::prelude::*;

use crate::analysis_strip::{self, Frame};
use crate::capture::{self, AccessWait, DeviceFormat, FrameInterval};
use crate::convert::Rgb;
use crate::number;
use crate::number_laws;
use crate::text;

verus! {

/// Rows without their padding: byte `col` of row `row` is the byte so far behind
/// the beginning of that row, whose rows are a stride apart.
pub proof fn law_rows_without_padding(
    src: Seq<u8>,
    stride: int,
    row_len: int,
    rows: int,
    row: int,
    col: int,
)
    requires
        0 <= col < row_len <= stride,
        0 <= row < rows,
    ensures
        capture::stripped(src, stride, row_len, rows).len() == row_len * rows,
        capture::stripped(src, stride, row_len, rows)[row * row_len + col] == src[row * stride + col],
{
    let i = row * row_len + col;
    vstd::arithmetic::div_mod::lemma_fundamental_div_mod_converse(i, row_len, row, col);
    assert(0 <= i < row_len * rows) by (nonlinear_arith)
        requires
            0 <= col < row_len,
            0 <= row <= rows - 1,
            i == row * row_len + col,
    ;
}

/// A frame with two bytes a pixel, or with one and a half where it is planar.
pub proof fn law_frame_bytes(w: int, h: int)
    requires
        w >= 0,
        h >= 0,
        (w * h) % 2 == 0,
    ensures
        2 * capture::frame_bytes(true, w, h) == 3 * (w * h),
        capture::frame_bytes(false, w, h) == 2 * (w * h),
{
    assert(w * 2 * h == 2 * (w * h)) by (nonlinear_arith);
}

/// Where the driver's interval is a fraction of a second, so many intervals as the
/// rate says fit into a second and no more; an interval of nothing counts as one
/// of one.
pub proof fn law_driver_rate(i: FrameInterval)
    ensures
        i.numerator > 0 ==> capture::rate_of(i) * i.numerator <= i.denominator < (capture::rate_of(i)
            + 1) * i.numerator,
        i.numerator == 0 ==> capture::rate_of(i) == i.denominator,
{
    if i.numerator > 0 {
        let n = i.numerator as int;
        let d = i.denominator as int;
        vstd::arithmetic::div_mod::lemma_fundamental_div_mod(d, n);
        assert((d / n) * n <= d < (d / n + 1) * n) by (nonlinear_arith)
            requires
                d == n * (d / n) + d % n,
                0 <= d % n < n,
        ;
    }
}

/// A name that the driver gave holds no zero, and the zero that ends it follows it.
pub proof fn law_driver_text_ends_at_zero(b: Seq<u8>, n: int)
    requires
        0 <= n < b.len(),
        b[n] == 0,
        forall|i: int| 0 <= i < n ==> #[trigger] b[i] != 0,
    ensures
        capture::before_zero(b) == Some(b.take(n)),
    decreases n,
{
    if n == 0 {
        assert(b.take(0) =~= Seq::<u8>::empty());
    } else {
        let d = b.drop_first();
        assert forall|i: int| 0 <= i < n - 1 implies #[trigger] d[i] != 0 by {
            assert(d[i] == b[i + 1]);
        }
        law_driver_text_ends_at_zero(d, n - 1);
        assert(b[0] != 0);
        assert(seq![b[0]] + d.take(n - 1) =~= b.take(n));
    }
}

/// Without a zero there is no name.
pub proof fn law_no_zero_no_name(b: Seq<u8>)
    requires
        forall|i: int| 0 <= i < b.len() ==> #[trigger] b[i] != 0,
    ensures
        capture::before_zero(b) is None,
    decreases b.len(),
{
    if b.len() > 0 {
        let d = b.drop_first();
        assert(b[0] != 0);
        assert forall|i: int| 0 <= i < d.len() implies #[trigger] d[i] != 0 by {
            assert(d[i] == b[i + 1]);
        }
        law_no_zero_no_name(d);
    }
}

/// Of two formats of one size the one of the wanted kind wins, of two of one kind
/// the one that is fast enough, and of two that are alike in that the faster, as
/// long as no rate is absurd. Of two that differ in size alone, none of them the
/// wanted one, that wins whose number of pixels is nearer to the wanted one.
pub proof fn law_better_format_wins(a: DeviceFormat, b: DeviceFormat, w: u32, h: u32, subtype: u32)
    requires
        0 <= a.max_fps <= 400_000,
        0 <= b.max_fps <= 400_000,
    ensures
        ({
            let better = capture::score(a, w, h, subtype) > capture::score(b, w, h, subtype);
            let same_size = a.width == b.width && a.height == b.height;
            &&& same_size && a.subtype == subtype && b.subtype != subtype ==> better
            &&& same_size && a.subtype == b.subtype && a.fast_enough && !b.fast_enough ==> better
            &&& same_size && a.subtype == b.subtype && a.fast_enough == b.fast_enough && a.max_fps
                > b.max_fps ==> better
            &&& (b.width != w || b.height != h) && a.subtype == b.subtype && a.fast_enough
                == b.fast_enough && a.max_fps == b.max_fps && off(a, w, h) < off(b, w, h) ==> better
        }),
{
}

/// By how many pixels a format differs from a size.
pub open spec fn off(f: DeviceFormat, w: u32, h: u32) -> int {
    if f.width * f.height >= w * h {
        f.width * f.height - w * h
    } else {
        w * h - f.width * f.height
    }
}

/// An answer about camera access: 1 and 2 are refusals at any time, 0 is waited
/// for 299 times, and anything else is a permission.
pub proof fn law_access_answers(status: i64, tries: int)
    ensures
        capture::access_step(status, tries) == AccessWait::Denied <==> status == 1 || status == 2,
        capture::access_step(status, tries) == AccessWait::Wait <==> status == 0 && tries < 300,
{
}

/// What a driver says of a device: the bits for capturing and for streaming.
pub proof fn law_capability_bits()
    ensures
        capture::V4L2_CAP_VIDEO_CAPTURE == 1,
        capture::V4L2_CAP_STREAMING == 4 * 16777216,
        capture::ACCESS_TRIES == 300,
{
}

/// A device whose name holds the text is found by it, whatever the case of the
/// letters.
pub proof fn law_device_named(name: Seq<char>, needle: Seq<char>, i: int)
    requires
        text::is_ascii_text(name),
        text::is_ascii_text(needle),
        0 <= i <= name.len() - needle.len(),
        forall|k: int|
            0 <= k < needle.len() ==> text::ascii_lower(#[trigger] needle[k]) == text::ascii_lower(
                name[i + k],
            ),
    ensures
        capture::is_named(name, needle),
{
    let a = text::lower(name);
    let b = text::lower(needle);
    assert(a.subrange(i, i + b.len()) =~= b) by {
        assert forall|k: int| 0 <= k < b.len() implies a[i + k] == b[k] by {
            assert(text::ascii_lower(needle[k]) == text::ascii_lower(name[i + k]));
        }
    }
    assert(text::occurs_at(a, b, i));
}

/// The lines of a grid are four pixels wide and grey, and nothing else of a grid
/// is but frames and black: right of the widest frame and below the tallest one
/// there is a line, and a cell without a frame is black.
pub proof fn law_lines_and_empty_cells(
    frames: Seq<Frame>,
    cols: int,
    col: int,
    row: int,
    ox: int,
    oy: int,
)
    requires
        cols > 0,
        0 <= col,
        0 <= row,
        0 <= ox < analysis_strip::max_width(frames) + 4,
        0 <= oy < analysis_strip::max_height(frames) + 4,
    ensures
        ({
            let cw = analysis_strip::max_width(frames);
            let ch = analysis_strip::max_height(frames);
            let c = analysis_strip::grid_pixel(
                frames,
                cols,
                col * (cw + 4) + ox,
                row * (ch + 4) + oy,
            );
            &&& ox >= cw || oy >= ch ==> c == (Rgb { r: 0x33, g: 0x33, b: 0x33 })
            &&& ox < cw && oy < ch && row * cols + col >= frames.len() ==> c == (Rgb {
                r: 0,
                g: 0,
                b: 0,
            })
        }),
{
    let cw = analysis_strip::max_width(frames) + 4;
    let ch = analysis_strip::max_height(frames) + 4;
    vstd::arithmetic::div_mod::lemma_fundamental_div_mod_converse(col * cw + ox, cw, col, ox);
    vstd::arithmetic::div_mod::lemma_fundamental_div_mod_converse(row * ch + oy, ch, row, oy);
}

/// A grid of frames of one size: as many columns as are asked for, or as there are
/// frames, and as many rows as hold them all, with four pixels between two.
pub proof fn law_grid_size(frames: Seq<Frame>, cols: int, w: u32, h: u32)
    requires
        frames.len() > 0,
        cols > 0,
        analysis_strip::max_width(frames) == w,
        analysis_strip::max_height(frames) == h,
    ensures
        frames.len() >= cols ==> analysis_strip::grid_width(frames, cols) == cols * (w + 4) - 4,
        frames.len() < cols ==> analysis_strip::grid_width(frames, cols) == frames.len() * (w + 4) - 4,
        exists|rows: int|
            (rows - 1) * cols < frames.len() <= rows * cols && #[trigger] (rows * (h + 4)) - 4
                == analysis_strip::grid_height(frames, cols),
{
    let n = frames.len() as int;
    let u = analysis_strip::used_cols(frames, cols);
    assert(u * w + (u - 1) * 4 == u * (w + 4) - 4) by (nonlinear_arith);
    let rows = (n + cols - 1) / cols;
    vstd::arithmetic::div_mod::lemma_fundamental_div_mod(n + cols - 1, cols);
    assert((rows - 1) * cols < n <= rows * cols) by (nonlinear_arith)
        requires
            n + cols - 1 == cols * rows + (n + cols - 1) % cols,
            0 <= (n + cols - 1) % cols < cols,
    ;
    assert(rows * h + (rows - 1) * 4 == (rows * (h + 4)) - 4) by (nonlinear_arith);
}

/// The widest frame is one of the frames, and none is wider; so with the tallest.
pub proof fn law_cells_fit_the_largest(frames: Seq<Frame>, i: int)
    requires
        0 <= i < frames.len(),
    ensures
        frames[i].width <= analysis_strip::max_width(frames),
        frames[i].height <= analysis_strip::max_height(frames),
        exists|k: int|
            0 <= k < frames.len() && (#[trigger] frames[k]).width == analysis_strip::max_width(frames),
        exists|k: int|
            0 <= k < frames.len() && (#[trigger] frames[k]).height == analysis_strip::max_height(
                frames,
            ),
    decreases frames.len(),
{
    let d = frames.drop_last();
    let n = frames.len() - 1;
    if d.len() > 0 {
        law_cells_fit_the_largest(
            d,
            if i < n {
                i
            } else {
                0
            },
        );
        let a = choose|k: int|
            0 <= k < d.len() && (#[trigger] d[k]).width == analysis_strip::max_width(d);
        let b = choose|k: int|
            0 <= k < d.len() && (#[trigger] d[k]).height == analysis_strip::max_height(d);
        assert(frames[a] == d[a] && frames[b] == d[b]);
        if i < n {
            assert(d[i] == frames[i]);
        }
    } else {
        assert(analysis_strip::max_width(d) == 0 && analysis_strip::max_height(d) == 0);
        assert(analysis_strip::max_width(frames) == frames[n].width);
        assert(analysis_strip::max_height(frames) == frames[n].height);
    }
    assert(frames[n] == frames.last());
}

/// The names of grids count up from one with at least three digits, and differ.
pub proof fn law_entry_names(a: nat, b: nat)
    requires
        a < 1000,
        b < 1000,
        analysis_strip::entry_name(a) == analysis_strip::entry_name(b),
    ensures
        a == b,
        analysis_strip::entry_name(a).len() == 13,
        number::digits_value(analysis_strip::entry_name(a).subrange(6, 9)) == a,
{
    lemma_three(a);
    lemma_three(b);
    reveal_strlit("strip_");
    reveal_strlit(".jpg");
    let x = analysis_strip::entry_name(a);
    let y = analysis_strip::entry_name(b);
    assert(x.subrange(6, 9) =~= number::padded_left(number::decimal(a), 3, '0'));
    assert(y.subrange(6, 9) =~= number::padded_left(number::decimal(b), 3, '0'));
}

proof fn lemma_three(n: nat)
    requires
        n < 1000,
    ensures
        number::padded_left(number::decimal(n), 3, '0').len() == 3,
        number::digits_value(number::padded_left(number::decimal(n), 3, '0')) == n,
{
    assert(power::pow(10, 3) == 1000) by {
        reveal(power::pow);
        assert(power::pow(10, 0) == 1);
        assert(power::pow(10, 1) == 10);
        assert(power::pow(10, 2) == 100);
    }
    number_laws::lemma_padded_value(n, 3);
    number_laws::lemma_decimal_len(n, 3);
}

} // verus!
