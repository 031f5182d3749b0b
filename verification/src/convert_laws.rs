//! What conversions promise: the formats agree on the colours of their samples,
//! chroma moves red and blue apart, and a part of a picture shows what the
//! picture shows there.

use vstd::prelude::*;

use crate::capture;
use crate::convert::{self, Area, Rgb, Span};

verus! {

/// Without colour the three channels are the luma.
pub proof fn law_grey_is_luma(y: u8)
    ensures
        convert::rgb_of(y, 128, 128) == (Rgb { r: y, g: y, b: y }),
{
}

/// How far each channel lies from the luma, where it does not meet an end of its
/// range: in 1/256, red by 359 of the second chroma, blue by 454 of the first,
/// and green the other way by 88 of the first and 183 of the second, each
/// rounded down before it is added or taken away.
pub proof fn law_chroma_weights(y: u8, u: u8, v: u8)
    ensures
        ({
            let c = convert::rgb_of(y, u, v);
            &&& 0 < c.r < 255 ==> 256 * (c.r - y) <= 359 * (v - 128) < 256 * (c.r - y + 1)
            &&& 0 < c.b < 255 ==> 256 * (c.b - y) <= 454 * (u - 128) < 256 * (c.b - y + 1)
            &&& 0 < c.g < 255 ==> 256 * (y - c.g) <= 88 * (u - 128) + 183 * (v - 128) < 256 * (y - c.g
                + 1)
            &&& c.r == 0 ==> 256 * y + 359 * (v - 128) < 256
            &&& c.r == 255 ==> 256 * y + 359 * (v - 128) >= 256 * 255
            &&& c.b == 0 ==> 256 * y + 454 * (u - 128) < 256
            &&& c.b == 255 ==> 256 * y + 454 * (u - 128) >= 256 * 255
            &&& c.g == 0 ==> 256 * y <= 88 * (u - 128) + 183 * (v - 128) + 255
            &&& c.g == 255 ==> 256 * (y - 254) > 88 * (u - 128) + 183 * (v - 128)
        }),
{
}

/// More of the first chroma never lowers blue nor raises green, and leaves red
/// alone; more of the second never lowers red nor raises green, and leaves blue
/// alone; more luma lowers nothing.
pub proof fn law_chroma_moves_its_channel(y: u8, y2: u8, u: u8, u2: u8, v: u8, v2: u8)
    requires
        y <= y2,
        u <= u2,
        v <= v2,
    ensures
        ({
            let c = convert::rgb_of(y, u, v);
            let bluer = convert::rgb_of(y, u2, v);
            let redder = convert::rgb_of(y, u, v2);
            let lighter = convert::rgb_of(y2, u, v);
            &&& bluer.b >= c.b && bluer.r == c.r && bluer.g <= c.g
            &&& redder.r >= c.r && redder.b == c.b && redder.g <= c.g
            &&& lighter.r >= c.r && lighter.g >= c.g && lighter.b >= c.b
        }),
{
}

/// Where the pair of chroma bytes of a pixel begins among the chroma of an NV12
/// picture: a pair for two by two pixels, a row of pairs for two rows.
pub open spec fn pair_at(w: u32, col: int, row: int) -> int {
    2 * ((row / 2) * ((w / 2) as int) + col / 2)
}

/// The formats agree: pictures of even width whose pixel in column `col` and row
/// `row` has the same luma `y`, first chroma `u` (blue) and second chroma `v`
/// (red) show the same colour there, whatever format holds them. NV12 keeps a
/// plane of luma and one of pairs, P010 the same in words whose high byte
/// counts, YUYV and UYVY four bytes for two pixels.
pub proof fn law_formats_agree(
    nv12: Seq<u8>,
    p010: Seq<u8>,
    yuyv: Seq<u8>,
    uyvy: Seq<u8>,
    w: u32,
    h: u32,
    col: int,
    row: int,
    y: u8,
    u: u8,
    v: u8,
)
    requires
        w % 2 == 0,
        0 <= col < w,
        0 <= row < h,
        p010.len() > 2 * (w * h + pair_at(w, col, row)) + 3,
        nv12[row * w + col] == y,
        nv12[w * h + pair_at(w, col, row)] == u,
        nv12[w * h + pair_at(w, col, row) + 1] == v,
        p010[2 * (row * w + col) + 1] == y,
        p010[2 * (w * h + pair_at(w, col, row)) + 1] == u,
        p010[2 * (w * h + pair_at(w, col, row)) + 3] == v,
        yuyv[2 * (row * w + col)] == y,
        yuyv[2 * (row * w + col - col % 2) + 1] == u,
        yuyv[2 * (row * w + col - col % 2) + 3] == v,
        uyvy[2 * (row * w + col) + 1] == y,
        uyvy[2 * (row * w + col - col % 2)] == u,
        uyvy[2 * (row * w + col - col % 2) + 2] == v,
    ensures
        ({
            let p = row * w + col;
            let c = convert::rgb_of(y, u, v);
            &&& convert::frame_pixel(nv12, w, h, capture::V4L2_PIX_FMT_NV12, p) == c
            &&& convert::frame_pixel(p010, w, h, capture::V4L2_PIX_FMT_P010, p) == c
            &&& convert::frame_pixel(yuyv, w, h, capture::V4L2_PIX_FMT_YUYV, p) == c
            &&& convert::frame_pixel(uyvy, w, h, capture::V4L2_PIX_FMT_UYVY, p) == c
        }),
{
    let p = row * w + col;
    lemma_place(w, h, col, row);
    assert((row / 2) * w == 2 * ((row / 2) * ((w / 2) as int))) by (nonlinear_arith)
        requires
            w % 2 == 0,
    ;
    assert((row * w) % 2 == 0) by (nonlinear_arith)
        requires
            w % 2 == 0,
    {
        assert(row * w == 2 * (row * ((w / 2) as int)));
    }
    assert(p % 2 == col % 2);
    assert(4 * (p / 2) == 2 * (p - col % 2));
}

/// A picture of any width, odd ones too: the luma of a pixel stands in its row of the
/// first plane, and its chroma in pairs, the blue one first, in rows of the second
/// plane that are as far apart as those of the first, one for two rows of pixels.
/// P010 has words in the place of bytes, of which the second byte counts.
pub proof fn law_planar_samples(nv12: Seq<u8>, p010: Seq<u8>, w: u32, h: u32, col: int, row: int)
    requires
        0 <= col < w,
        0 <= row < h,
        p010.len() > 2 * (w * h + (row / 2) * w + 2 * (col / 2)) + 3,
    ensures
        ({
            let p = row * w + col;
            let at = w * h + (row / 2) * w + 2 * (col / 2);
            &&& convert::frame_pixel(nv12, w, h, capture::V4L2_PIX_FMT_NV12, p) == convert::rgb_of(
                nv12[p],
                nv12[at],
                nv12[at + 1],
            )
            &&& convert::frame_pixel(p010, w, h, capture::V4L2_PIX_FMT_P010, p) == convert::rgb_of(
                p010[2 * p + 1],
                p010[2 * at + 1],
                p010[2 * at + 3],
            )
        }),
{
    lemma_place(w, h, col, row);
    assert((row / 2) * w * 2 == 2 * ((row / 2) * w));
}

proof fn lemma_place(w: u32, h: u32, col: int, row: int)
    requires
        0 <= col < w,
        0 <= row < h,
    ensures
        (row * w + col) / (w as int) == row,
        (row * w + col) % (w as int) == col,
        0 <= row * w + col < w * h,
{
    vstd::arithmetic::div_mod::lemma_fundamental_div_mod_converse(
        row * w + col,
        w as int,
        row,
        col,
    );
    assert(row * w + col < w * h) by (nonlinear_arith)
        requires
            col < w,
            row <= h - 1,
    ;
    assert(0 <= row * w) by (nonlinear_arith)
        requires
            0 <= row,
    ;
}

/// Pixels that come as colours keep them: packed RGB holds red first, and four
/// bytes of XRGB hold blue first and red third, with the fourth of no account.
pub proof fn law_colours_are_kept(rgb24: Seq<u8>, xrgb: Seq<u8>, w: u32, h: u32, p: int)
    requires
        rgb24.len() >= 3 * (w * h),
        xrgb.len() >= 4 * (w * h),
        0 <= p < w * h,
    ensures
        ({
            let a = convert::frame_pixel(rgb24, w, h, capture::PIXFMT_RGB24, p);
            let b = convert::frame_pixel(xrgb, w, h, capture::V4L2_PIX_FMT_XRGB32, p);
            &&& a.r == rgb24[3 * p] && a.g == rgb24[3 * p + 1] && a.b == rgb24[3 * p + 2]
            &&& b.b == xrgb[4 * p] && b.g == xrgb[4 * p + 1] && b.r == xrgb[4 * p + 2]
            &&& convert::frame_pixel(
                xrgb.update(4 * p + 3, 0),
                w,
                h,
                capture::V4L2_PIX_FMT_XRGB32,
                p,
            ) == b
        }),
{
    let z = xrgb.update(4 * p + 3, 0);
    assert(z[4 * p] == xrgb[4 * p]);
    assert(z[4 * p + 1] == xrgb[4 * p + 1]);
    assert(z[4 * p + 2] == xrgb[4 * p + 2]);
}

/// How many bytes a whole frame needs, at an even size: for a pixel 3/2 in NV12,
/// two in the packed formats of luma and chroma, three in RGB and four in XRGB.
/// P010 is taken with its luma alone, since missing chroma counts as grey.
pub proof fn law_whole_frames(len: nat, w: u32, h: u32)
    requires
        w > 0,
        h > 0,
        w % 2 == 0,
        h % 2 == 0,
    ensures
        convert::frame_whole(len, w, h, capture::V4L2_PIX_FMT_NV12) <==> 2 * len >= 3 * (w * h),
        convert::frame_whole(len, w, h, capture::V4L2_PIX_FMT_YUYV) <==> len >= 2 * (w * h),
        convert::frame_whole(len, w, h, capture::V4L2_PIX_FMT_UYVY) <==> len >= 2 * (w * h),
        convert::frame_whole(len, w, h, capture::V4L2_PIX_FMT_P010) <==> len >= 2 * (w * h),
        convert::frame_whole(len, w, h, capture::PIXFMT_RGB24) <==> len >= 3 * (w * h),
        convert::frame_whole(len, w, h, capture::V4L2_PIX_FMT_XRGB32) <==> len >= 4 * (w * h),
{
    let half = (h / 2) as int;
    assert((h - 1) / 2 == half - 1);
    assert(((h - 1) / 2) * w + (w - 1) / 2 * 2 + 2 == half * w) by (nonlinear_arith)
        requires
            (h - 1) / 2 == half - 1,
            w % 2 == 0,
            w > 0,
    ;
    assert(2 * (half * w) == w * h) by (nonlinear_arith)
        requires
            2 * half == h,
    ;
}

/// An NV12 frame of any size is whole where it has the chroma of its last pixel, and
/// a frame without pixels always is. The packed formats take even widths alone.
pub proof fn law_whole_frames_of_any_size(len: nat, w: u32, h: u32, pixfmt: u32)
    ensures
        w > 0 && h > 0 ==> (convert::frame_whole(len, w, h, capture::V4L2_PIX_FMT_NV12) <==> len > w
            * h + ((h - 1) / 2) * w + 2 * ((w - 1) / 2) + 1),
        w == 0 || h == 0 ==> convert::frame_whole(len, w, h, capture::V4L2_PIX_FMT_NV12),
        w % 2 == 1 ==> !convert::frame_whole(len, w, h, capture::V4L2_PIX_FMT_YUYV)
            && !convert::frame_whole(len, w, h, capture::V4L2_PIX_FMT_UYVY),
        w % 2 == 0 ==> (convert::frame_whole(len, w, h, capture::V4L2_PIX_FMT_YUYV) <==> len >= 2 * (w
            * h)),
        w % 2 == 0 ==> (convert::frame_whole(len, w, h, capture::V4L2_PIX_FMT_UYVY) <==> len >= 2 * (w
            * h)),
        convert::frame_whole(len, w, h, capture::V4L2_PIX_FMT_P010) <==> len >= 2 * (w * h),
        convert::frame_whole(len, w, h, capture::PIXFMT_RGB24) <==> len >= 3 * (w * h),
        convert::frame_whole(len, w, h, capture::V4L2_PIX_FMT_XRGB32) <==> len >= 4 * (w * h),
        !convert::convertible(pixfmt) ==> convert::frame_whole(len, w, h, pixfmt),
        !convert::convertible(capture::V4L2_PIX_FMT_MJPEG),
{
    if w == 0 || h == 0 {
        assert(w * h == 0) by (nonlinear_arith)
            requires
                w == 0 || h == 0,
        ;
    }
}

/// A picture without light in it is all content.
pub proof fn law_black_picture_is_kept(rgb: Seq<u8>, w: u32, h: u32, a: Area)
    requires
        convert::is_content(rgb, w, h, a),
        forall|p: int|
            0 <= p < w * h ==> #[trigger] rgb[3 * p] <= 18 && rgb[3 * p + 1] <= 18 && rgb[3 * p + 2]
                <= 18,
    ensures
        a == (Area { x: 0, y: 0, w, h }),
{
    assert forall|p: int| 0 <= p < convert::pixels(w, h) implies !#[trigger] convert::is_lit(rgb, p) by {
        assert(rgb[3 * p] <= 18);
    }
}

/// A picture holds its pixels in order, each as red, green and blue.
pub proof fn law_packed_pixels(rgb: Seq<u8>, n: int, c: spec_fn(int) -> Rgb, p: int)
    requires
        convert::is_picture(rgb, n, c),
        0 <= p < n,
    ensures
        rgb.len() == 3 * n,
        rgb[3 * p] == c(p).r,
        rgb[3 * p + 1] == c(p).g,
        rgb[3 * p + 2] == c(p).b,
{
    assert(convert::is_pixel(rgb, p, c(p)));
}

/// A part of a picture shows, at each of its columns and rows, what the picture
/// shows so far right of and below the part's corner.
pub proof fn law_crop_shows_the_picture(
    rgb: Seq<u8>,
    part: Seq<u8>,
    src_width: u32,
    a: Area,
    col: int,
    row: int,
    channel: int,
)
    requires
        convert::is_picture(
            part,
            convert::pixels(a.w, a.h),
            |q: int| convert::cropped_pixel(rgb, src_width, a, q),
        ),
        0 <= col < a.w,
        0 <= row < a.h,
        0 <= channel < 3,
    ensures
        part.len() == 3 * (a.w * a.h),
        part[3 * (row * a.w + col) + channel] == rgb[3 * ((a.y + row) * src_width + a.x + col)
            + channel],
{
    let c = |q: int| convert::cropped_pixel(rgb, src_width, a, q);
    let q = row * a.w + col;
    lemma_place(a.w, a.h, col, row);
    assert(convert::is_pixel(part, q, c(q)));
}

/// The bytes that a table of luma changes: those of the first plane of NV12 and
/// none behind it, the first of each two in YUYV, the second in UYVY, and none
/// in other formats.
pub proof fn law_luma_bytes(w: u32, h: u32, pixfmt: u32, p: int)
    requires
        0 <= p < w * h,
    ensures
        convert::is_luma(w, h, capture::V4L2_PIX_FMT_NV12, p),
        forall|i: int| i >= w * h ==> !#[trigger] convert::is_luma(w, h, capture::V4L2_PIX_FMT_NV12, i),
        convert::is_luma(w, h, capture::V4L2_PIX_FMT_YUYV, 2 * p),
        !convert::is_luma(w, h, capture::V4L2_PIX_FMT_YUYV, 2 * p + 1),
        !convert::is_luma(w, h, capture::V4L2_PIX_FMT_UYVY, 2 * p),
        convert::is_luma(w, h, capture::V4L2_PIX_FMT_UYVY, 2 * p + 1),
        pixfmt != capture::V4L2_PIX_FMT_NV12 && pixfmt != capture::V4L2_PIX_FMT_YUYV && pixfmt
            != capture::V4L2_PIX_FMT_UYVY ==> !convert::is_luma(w, h, pixfmt, p),
{
}

/// The content of a picture with light in it begins five columns and rows before
/// the first that are lit and ends five behind the last, or at the picture's
/// edge: a pixel is lit where a channel is above 18.
pub proof fn law_content_is_close(rgb: Seq<u8>, w: u32, h: u32, a: Area, p: int)
    requires
        convert::is_content(rgb, w, h, a),
        0 <= p < w * h,
        rgb[3 * p] > 18 || rgb[3 * p + 1] > 18 || rgb[3 * p + 2] > 18,
    ensures
        forall|q: int|
            0 <= q < w * h && #[trigger] (q % w as int) < a.x + 5 && a.x > 0 ==> rgb[3 * q] <= 18
                && rgb[3 * q + 1] <= 18 && rgb[3 * q + 2] <= 18,
        forall|q: int|
            0 <= q < w * h && #[trigger] (q % w as int) >= a.x + a.w - 5 && a.x + a.w < w ==> rgb[3
                * q] <= 18 && rgb[3 * q + 1] <= 18 && rgb[3 * q + 2] <= 18,
        forall|q: int|
            0 <= q < w * h && #[trigger] (q / w as int) < a.y + 5 && a.y > 0 ==> rgb[3 * q] <= 18
                && rgb[3 * q + 1] <= 18 && rgb[3 * q + 2] <= 18,
        forall|q: int|
            0 <= q < w * h && #[trigger] (q / w as int) >= a.y + a.h - 5 && a.y + a.h < h ==> rgb[3
                * q] <= 18 && rgb[3 * q + 1] <= 18 && rgb[3 * q + 2] <= 18,
        exists|q: int|
            0 <= q < w * h && #[trigger] convert::is_lit(rgb, q) && (q % w as int == a.x + 5 || a.x == 0),
        exists|q: int|
            0 <= q < w * h && #[trigger] convert::is_lit(rgb, q) && (q % w as int == a.x + a.w - 6 || a.x
                + a.w == w),
        exists|q: int|
            0 <= q < w * h && #[trigger] convert::is_lit(rgb, q) && (q / w as int == a.y + 5 || a.y == 0),
        exists|q: int|
            0 <= q < w * h && #[trigger] convert::is_lit(rgb, q) && (q / w as int == a.y + a.h - 6 || a.y
                + a.h == h),
{
    assert(convert::is_lit(rgb, p));
    let n = convert::pixels(w, h);
    let b = choose|b: Span| #[trigger]
        convert::tight(rgb, w, n, b) && convert::with_padding(b, w, h, a);
    assert forall|q: int| 0 <= q < n && rgb[3 * q] > 18 || rgb[3 * q + 1] > 18 || rgb[3 * q + 2]
        > 18 implies convert::is_lit(rgb, q) by {}
    assert forall|q: int|
        0 <= q < w * h && #[trigger] (q % w as int) < a.x + 5 && a.x > 0 implies rgb[3 * q] <= 18
        && rgb[3 * q + 1] <= 18 && rgb[3 * q + 2] <= 18 by {
        if convert::is_lit(rgb, q) {
            assert(convert::in_span(b, w, q));
        }
    }
    assert forall|q: int|
        0 <= q < w * h && #[trigger] (q % w as int) >= a.x + a.w - 5 && a.x + a.w < w implies rgb[3
        * q] <= 18 && rgb[3 * q + 1] <= 18 && rgb[3 * q + 2] <= 18 by {
        if convert::is_lit(rgb, q) {
            assert(convert::in_span(b, w, q));
        }
    }
    assert forall|q: int|
        0 <= q < w * h && #[trigger] (q / w as int) < a.y + 5 && a.y > 0 implies rgb[3 * q] <= 18
        && rgb[3 * q + 1] <= 18 && rgb[3 * q + 2] <= 18 by {
        if convert::is_lit(rgb, q) {
            assert(convert::in_span(b, w, q));
        }
    }
    assert forall|q: int|
        0 <= q < w * h && #[trigger] (q / w as int) >= a.y + a.h - 5 && a.y + a.h < h implies rgb[3
        * q] <= 18 && rgb[3 * q + 1] <= 18 && rgb[3 * q + 2] <= 18 by {
        if convert::is_lit(rgb, q) {
            assert(convert::in_span(b, w, q));
        }
    }
    let q1 = choose|q: int| 0 <= q < n && #[trigger] convert::is_lit(rgb, q) && q % w as int == b.min_x;
    let q2 = choose|q: int| 0 <= q < n && #[trigger] convert::is_lit(rgb, q) && q % w as int == b.max_x;
    let q3 = choose|q: int| 0 <= q < n && #[trigger] convert::is_lit(rgb, q) && q / w as int == b.min_y;
    let q4 = choose|q: int| 0 <= q < n && #[trigger] convert::is_lit(rgb, q) && q / w as int == b.max_y;
    assert(convert::is_lit(rgb, q1) && convert::is_lit(rgb, q2) && convert::is_lit(rgb, q3)
        && convert::is_lit(rgb, q4));
}

} // verus!
