//! Pixel conversions: from the capture formats to packed RGB, cropping, and the
//! luma table.

use vstd::prelude::*;

use crate::capture;

verus! {

/// How bright, by channel, a pixel may be and still count as black.
pub const BLACK_THRESHOLD: u8 = 18;

/// How many pixels stay around the content when borders are cut.
pub const CROP_PADDING: u32 = 5;

/// A pixel.
pub struct Rgb {
    pub r: u8,
    pub g: u8,
    pub b: u8,
}

/// A value brought into the range of a byte.
pub open spec fn byte(v: int) -> u8 {
    if v < 0 {
        0
    } else if v > 255 {
        255
    } else {
        v as u8
    }
}

/// Brings a value into the range of a byte.
pub fn clamp_u8(v: i32) -> (r: u8)
    ensures
        r == byte(v as int),
{
    if v < 0 {
        0
    } else if v > 255 {
        255
    } else {
        v as u8
    }
}

/// A pixel from its luma and chroma, in 1/256 and rounded down.
pub open spec fn rgb_of(y: u8, u: u8, v: u8) -> Rgb {
    Rgb {
        r: byte(y + (359 * (v - 128)) / 256),
        g: byte(y - (88 * (u - 128) + 183 * (v - 128)) / 256),
        b: byte(y + (454 * (u - 128)) / 256),
    }
}

fn down_to_256th(x: i32) -> (r: i32)
    requires
        -256000 <= x <= 256000,
    ensures
        r == x as int / 256,
{
    (x + 256000) / 256 - 1000
}

/// Converts one pixel.
pub fn yuv_to_rgb(y: u8, u: u8, v: u8) -> (r: Rgb)
    ensures
        r == rgb_of(y, u, v),
{
    let y0: i32 = y as i32;
    let u0: i32 = u as i32 - 128;
    let v0: i32 = v as i32 - 128;
    Rgb {
        r: clamp_u8(y0 + down_to_256th(359 * v0)),
        g: clamp_u8(y0 - down_to_256th(88 * u0 + 183 * v0)),
        b: clamp_u8(y0 + down_to_256th(454 * u0)),
    }
}

/// How many pixels a picture has.
pub open spec fn pixels(w: u32, h: u32) -> int {
    w * h
}

/// Counts the pixels of a picture.
pub fn pixel_count(w: u32, h: u32) -> (r: u64)
    ensures
        r == pixels(w, h),
{
    assert(w * h <= u32::MAX * u32::MAX) by (nonlinear_arith)
        requires
            w <= u32::MAX,
            h <= u32::MAX,
    ;
    w as u64 * h as u64
}

/// Whether pixel `p` of packed RGB is `c`.
pub open spec fn is_pixel(rgb: Seq<u8>, p: int, c: Rgb) -> bool {
    &&& 0 <= p
    &&& 3 * p + 2 < rgb.len()
    &&& rgb[3 * p] == c.r
    &&& rgb[3 * p + 1] == c.g
    &&& rgb[3 * p + 2] == c.b
}

/// Whether packed RGB is a picture of `n` pixels, each what `c` says.
pub open spec fn is_picture(rgb: Seq<u8>, n: int, c: spec_fn(int) -> Rgb) -> bool {
    &&& rgb.len() == 3 * n
    &&& forall|p: int| 0 <= p < n ==> #[trigger] is_pixel(rgb, p, c(p))
}

/// Adds a pixel to a picture.
pub(crate) fn push_pixel(out: &mut Vec<u8>, c: Rgb, Ghost(n): Ghost<int>, Ghost(f): Ghost<spec_fn(int) -> Rgb>)
    requires
        is_picture(old(out)@, n, f),
        n >= 0,
        c == f(n),
    ensures
        is_picture(final(out)@, n + 1, f),
{
    let ghost before = out@;
    out.push(c.r);
    out.push(c.g);
    out.push(c.b);
    proof {
        assert forall|p: int| 0 <= p < n + 1 implies #[trigger] is_pixel(out@, p, f(p)) by {
            if p < n {
                assert(is_pixel(before, p, f(p)));
            }
        }
    }
}

/// The bytes of chroma that an NV12 picture needs.
pub open spec fn nv12_chroma(w: u32, h: u32) -> int {
    if w == 0 || h == 0 {
        0
    } else {
        ((h - 1) / 2) * w + (w - 1) / 2 * 2 + 2
    }
}

/// Pixel `p` of an NV12 picture: one luma byte a pixel, then pairs of chroma
/// bytes, one pair for two by two pixels.
pub open spec fn nv12_pixel(data: Seq<u8>, w: u32, h: u32, p: int) -> Rgb {
    let at = pixels(w, h) + (p / w as int / 2) * w + (p % w as int) / 2 * 2;
    rgb_of(data[p], data[at], data[at + 1])
}

/// Row and column of a pixel.
pub proof fn lemma_row_col(p: int, w: int, h: int)
    requires
        0 < w,
        0 <= p < w * h,
    ensures
        0 <= p / w < h,
        0 <= p % w < w,
        p == (p / w) * w + p % w,
{
    vstd::arithmetic::div_mod::lemma_fundamental_div_mod(p, w);
    assert(0 <= p / w < h && 0 <= p % w < w && p == (p / w) * w + p % w) by (nonlinear_arith)
        requires
            0 < w,
            0 <= p < w * h,
            p == w * (p / w) + p % w,
            0 <= p % w < w,
    ;
}

/// Converts NV12.
pub fn nv12_to_rgb(data: &[u8], w: u32, h: u32) -> (r: Vec<u8>)
    requires
        data@.len() >= pixels(w, h) + nv12_chroma(w, h),
    ensures
        is_picture(r@, pixels(w, h), |p: int| nv12_pixel(data@, w, h, p)),
{
    let mut out: Vec<u8> = Vec::new();
    let ghost f = |p: int| nv12_pixel(data@, w, h, p);
    let n: u64 = pixel_count(w, h);
    let len: usize = data.len();
    let mut p: u64 = 0;
    while p < n
        invariant
            n == pixels(w, h),
            p <= n,
            len == data@.len(),
            data@.len() >= pixels(w, h) + nv12_chroma(w, h),
            f == (|p: int| nv12_pixel(data@, w, h, p)),
            is_picture(out@, p as int, f),
        decreases n - p,
    {
        let ghost row = p as int / w as int;
        let ghost col = p as int % w as int;
        proof {
            assert(w > 0) by (nonlinear_arith)
                requires
                    0 < w * h,
            ;
            lemma_row_col(p as int, w as int, h as int);
            assert((row / 2) * w <= ((h - 1) / 2) * w) by (nonlinear_arith)
                requires
                    row / 2 <= (h - 1) / 2,
                    w > 0,
            ;
            assert(0 <= (row / 2) * w) by (nonlinear_arith)
                requires
                    0 <= row / 2,
                    w > 0,
            ;
        }
        let at: u64 = n + (p / w as u64 / 2) * w as u64 + (p % w as u64) / 2 * 2;
        let c = yuv_to_rgb(data[p as usize], data[at as usize], data[at as usize + 1]);
        push_pixel(&mut out, c, Ghost(p as int), Ghost(f));
        p += 1;
    }
    out
}

/// Pixel `p` of a YUYV picture: two pixels share four bytes, luma first.
pub open spec fn yuyv_pixel(data: Seq<u8>, p: int) -> Rgb {
    let at = 4 * (p / 2);
    rgb_of(data[at + 2 * (p % 2)], data[at + 1], data[at + 3])
}

/// Converts YUYV.
pub fn yuyv_to_rgb(data: &[u8], w: u32, h: u32) -> (r: Vec<u8>)
    requires
        w % 2 == 0,
        data@.len() >= 2 * pixels(w, h),
    ensures
        is_picture(r@, pixels(w, h), |p: int| yuyv_pixel(data@, p)),
{
    let mut out: Vec<u8> = Vec::new();
    let ghost f = |p: int| yuyv_pixel(data@, p);
    let n: u64 = pixel_count(w, h);
    let len: usize = data.len();
    proof {
        lemma_even(w, h);
    }
    let mut p: u64 = 0;
    while p < n
        invariant
            n == pixels(w, h),
            n % 2 == 0,
            p <= n,
            len == data@.len(),
            len >= 2 * n,
            f == (|p: int| yuyv_pixel(data@, p)),
            is_picture(out@, p as int, f),
        decreases n - p,
    {
        let at: usize = (4 * (p / 2)) as usize;
        let luma: usize = at + 2 * ((p % 2) as usize);
        let c = yuv_to_rgb(data[luma], data[at + 1], data[at + 3]);
        push_pixel(&mut out, c, Ghost(p as int), Ghost(f));
        p += 1;
    }
    out
}

proof fn lemma_even(w: u32, h: u32)
    requires
        w % 2 == 0,
    ensures
        (w * h) % 2 == 0,
{
    assert((w * h) % 2 == 0) by (nonlinear_arith)
        requires
            w % 2 == 0,
    {
        assert(w * h == 2 * ((w / 2) * h));
    }
}

/// Pixel `p` of a UYVY picture: two pixels share four bytes, chroma first.
pub open spec fn uyvy_pixel(data: Seq<u8>, p: int) -> Rgb {
    let at = 4 * (p / 2);
    rgb_of(data[at + 1 + 2 * (p % 2)], data[at], data[at + 2])
}

/// Converts UYVY.
pub fn uyvy_to_rgb(data: &[u8], w: u32, h: u32) -> (r: Vec<u8>)
    requires
        w % 2 == 0,
        data@.len() >= 2 * pixels(w, h),
    ensures
        is_picture(r@, pixels(w, h), |p: int| uyvy_pixel(data@, p)),
{
    let mut out: Vec<u8> = Vec::new();
    let ghost f = |p: int| uyvy_pixel(data@, p);
    let n: u64 = pixel_count(w, h);
    let len: usize = data.len();
    proof {
        lemma_even(w, h);
    }
    let mut p: u64 = 0;
    while p < n
        invariant
            n == pixels(w, h),
            n % 2 == 0,
            p <= n,
            len == data@.len(),
            len >= 2 * n,
            f == (|p: int| uyvy_pixel(data@, p)),
            is_picture(out@, p as int, f),
        decreases n - p,
    {
        let at: usize = (4 * (p / 2)) as usize;
        let luma: usize = at + 1 + 2 * ((p % 2) as usize);
        let c = yuv_to_rgb(data[luma], data[at], data[at + 2]);
        push_pixel(&mut out, c, Ghost(p as int), Ghost(f));
        p += 1;
    }
    out
}

/// Pixel `p` of an XRGB picture: blue, green, red and a byte that is not used.
pub open spec fn xrgb_pixel(data: Seq<u8>, p: int) -> Rgb {
    Rgb { r: data[4 * p + 2], g: data[4 * p + 1], b: data[4 * p] }
}

fn xrgb_to_rgb(data: &[u8], w: u32, h: u32) -> (r: Vec<u8>)
    requires
        data@.len() >= 4 * pixels(w, h),
    ensures
        is_picture(r@, pixels(w, h), |p: int| xrgb_pixel(data@, p)),
{
    let mut out: Vec<u8> = Vec::new();
    let ghost f = |p: int| xrgb_pixel(data@, p);
    let n: u64 = pixel_count(w, h);
    let len: usize = data.len();
    let mut p: u64 = 0;
    while p < n
        invariant
            n == pixels(w, h),
            p <= n,
            len == data@.len(),
            len >= 4 * n,
            f == (|p: int| xrgb_pixel(data@, p)),
            is_picture(out@, p as int, f),
        decreases n - p,
    {
        let at: usize = 4 * p as usize;
        let c = Rgb { r: data[at + 2], g: data[at + 1], b: data[at] };
        push_pixel(&mut out, c, Ghost(p as int), Ghost(f));
        p += 1;
    }
    out
}

/// The byte at a place, or 128 beyond the end.
pub open spec fn chroma_at(data: Seq<u8>, at: int) -> u8 {
    if at < data.len() {
        data[at]
    } else {
        128
    }
}

/// Pixel `p` of a P010 picture: as NV12, with two bytes a sample, of which the
/// second counts. Chroma that is missing counts as grey.
pub open spec fn p010_pixel(data: Seq<u8>, w: u32, h: u32, p: int) -> Rgb {
    let at = 2 * pixels(w, h) + (p / w as int / 2) * w * 2 + (p % w as int) / 2 * 4;
    rgb_of(data[2 * p + 1], chroma_at(data, at + 1), chroma_at(data, at + 3))
}

fn p010_to_rgb(data: &[u8], w: u32, h: u32) -> (r: Vec<u8>)
    requires
        data@.len() >= 2 * pixels(w, h),
    ensures
        is_picture(r@, pixels(w, h), |p: int| p010_pixel(data@, w, h, p)),
{
    let mut out: Vec<u8> = Vec::new();
    let ghost f = |p: int| p010_pixel(data@, w, h, p);
    let n: u64 = pixel_count(w, h);
    let len: usize = data.len();
    let mut p: u64 = 0;
    while p < n
        invariant
            n == pixels(w, h),
            p <= n,
            len == data@.len(),
            len >= 2 * n,
            f == (|p: int| p010_pixel(data@, w, h, p)),
            is_picture(out@, p as int, f),
        decreases n - p,
    {
        let ghost row = p as int / w as int;
        proof {
            assert(w > 0) by (nonlinear_arith)
                requires
                    0 < w * h,
            ;
            lemma_row_col(p as int, w as int, h as int);
            assert(0 <= (row / 2) * w <= w * h) by (nonlinear_arith)
                requires
                    0 <= row < h,
                    w > 0,
            ;
            assert((row / 2) * w * 2 == 2 * ((row / 2) * w));
        }
        let at: u128 = 2 * n as u128 + (p / w as u64 / 2) as u128 * w as u128 * 2 + ((p % w as u64)
            / 2 * 4) as u128;
        let u: u8 = if at + 1 < len as u128 {
            data[(at + 1) as usize]
        } else {
            128
        };
        let v: u8 = if at + 3 < len as u128 {
            data[(at + 3) as usize]
        } else {
            128
        };
        let c = yuv_to_rgb(data[2 * p as usize + 1], u, v);
        push_pixel(&mut out, c, Ghost(p as int), Ghost(f));
        p += 1;
    }
    out
}

/// The pixels of a frame in a capture format.
pub open spec fn frame_pixel(data: Seq<u8>, w: u32, h: u32, pixfmt: u32, p: int) -> Rgb {
    if pixfmt == capture::V4L2_PIX_FMT_NV12 {
        nv12_pixel(data, w, h, p)
    } else if pixfmt == capture::V4L2_PIX_FMT_YUYV {
        yuyv_pixel(data, p)
    } else if pixfmt == capture::V4L2_PIX_FMT_UYVY {
        uyvy_pixel(data, p)
    } else if pixfmt == capture::V4L2_PIX_FMT_XRGB32 {
        xrgb_pixel(data, p)
    } else if pixfmt == capture::V4L2_PIX_FMT_P010 {
        p010_pixel(data, w, h, p)
    } else {
        Rgb { r: data[3 * p], g: data[3 * p + 1], b: data[3 * p + 2] }
    }
}

/// Whether a capture format can be converted.
pub open spec fn convertible(pixfmt: u32) -> bool {
    pixfmt == capture::V4L2_PIX_FMT_NV12 || pixfmt == capture::V4L2_PIX_FMT_YUYV || pixfmt
        == capture::V4L2_PIX_FMT_UYVY || pixfmt == capture::V4L2_PIX_FMT_XRGB32 || pixfmt
        == capture::V4L2_PIX_FMT_P010 || pixfmt == capture::PIXFMT_RGB24
}

/// Whether a frame holds all the bytes that its format needs.
pub open spec fn frame_whole(len: nat, w: u32, h: u32, pixfmt: u32) -> bool {
    if pixfmt == capture::V4L2_PIX_FMT_NV12 {
        len >= pixels(w, h) + nv12_chroma(w, h)
    } else if pixfmt == capture::V4L2_PIX_FMT_YUYV || pixfmt == capture::V4L2_PIX_FMT_UYVY {
        w % 2 == 0 && len >= 2 * pixels(w, h)
    } else if pixfmt == capture::V4L2_PIX_FMT_XRGB32 {
        len >= 4 * pixels(w, h)
    } else if pixfmt == capture::V4L2_PIX_FMT_P010 {
        len >= 2 * pixels(w, h)
    } else if pixfmt == capture::PIXFMT_RGB24 {
        len >= 3 * pixels(w, h)
    } else {
        true
    }
}

/// Whether a frame holds all the bytes that its format needs.
pub fn is_whole(data: &[u8], width: u32, height: u32, pixfmt: u32) -> (r: bool)
    ensures
        r == frame_whole(data@.len(), width, height, pixfmt),
{
    let len: u128 = data.len() as u128;
    let w: u128 = width as u128;
    let h: u128 = height as u128;
    assert(0 <= w * h <= 0xffff_ffff * 0xffff_ffff) by (nonlinear_arith)
        requires
            0 <= w <= 0xffff_ffff,
            0 <= h <= 0xffff_ffff,
    ;
    let n: u128 = w * h;
    if pixfmt == capture::V4L2_PIX_FMT_NV12 {
        if n == 0 {
            assert(width == 0 || height == 0) by (nonlinear_arith)
                requires
                    width * height == 0,
                    0 <= width,
                    0 <= height,
            ;
            return true;
        }
        assert(0 < w && 0 < h) by (nonlinear_arith)
            requires
                w * h > 0,
                0 <= w,
                0 <= h,
        ;
        assert(0 <= (h - 1) / 2 * w <= 0xffff_ffff * 0xffff_ffff) by (nonlinear_arith)
            requires
                0 < w <= 0xffff_ffff,
                0 < h <= 0xffff_ffff,
        ;
        len >= n + (h - 1) / 2 * w + (w - 1) / 2 * 2 + 2
    } else if pixfmt == capture::V4L2_PIX_FMT_YUYV || pixfmt == capture::V4L2_PIX_FMT_UYVY {
        width % 2 == 0 && len >= 2 * n
    } else if pixfmt == capture::V4L2_PIX_FMT_XRGB32 {
        len >= 4 * n
    } else if pixfmt == capture::V4L2_PIX_FMT_P010 {
        len >= 2 * n
    } else if pixfmt == capture::PIXFMT_RGB24 {
        len >= 3 * n
    } else {
        true
    }
}

/// Converts a frame; `None` where its format cannot be.
pub fn to_rgb(data: &[u8], width: u32, height: u32, pixfmt: u32) -> (r: Option<Vec<u8>>)
    requires
        frame_whole(data@.len(), width, height, pixfmt),
    ensures
        r is Some <==> convertible(pixfmt),
        r matches Some(v) ==> is_picture(
            v@,
            pixels(width, height),
            |p: int| frame_pixel(data@, width, height, pixfmt, p),
        ),
{
    let ghost f = |p: int| frame_pixel(data@, width, height, pixfmt, p);
    if pixfmt == capture::V4L2_PIX_FMT_NV12 {
        let v = nv12_to_rgb(data, width, height);
        proof {
            lemma_same_picture(
                v@,
                pixels(width, height),
                |p: int| nv12_pixel(data@, width, height, p),
                f,
            );
        }
        Some(v)
    } else if pixfmt == capture::V4L2_PIX_FMT_YUYV {
        let v = yuyv_to_rgb(data, width, height);
        proof {
            lemma_same_picture(v@, pixels(width, height), |p: int| yuyv_pixel(data@, p), f);
        }
        Some(v)
    } else if pixfmt == capture::V4L2_PIX_FMT_UYVY {
        let v = uyvy_to_rgb(data, width, height);
        proof {
            lemma_same_picture(v@, pixels(width, height), |p: int| uyvy_pixel(data@, p), f);
        }
        Some(v)
    } else if pixfmt == capture::V4L2_PIX_FMT_XRGB32 {
        let v = xrgb_to_rgb(data, width, height);
        proof {
            lemma_same_picture(v@, pixels(width, height), |p: int| xrgb_pixel(data@, p), f);
        }
        Some(v)
    } else if pixfmt == capture::V4L2_PIX_FMT_P010 {
        let v = p010_to_rgb(data, width, height);
        proof {
            lemma_same_picture(
                v@,
                pixels(width, height),
                |p: int| p010_pixel(data@, width, height, p),
                f,
            );
        }
        Some(v)
    } else if pixfmt == capture::PIXFMT_RGB24 {
        let len: usize = data.len();
        let n: usize = (3 * pixel_count(width, height) as u128) as usize;
        assert(n == 3 * pixels(width, height));
        let v = vstd::slice::slice_to_vec(&data[0..n]);
        assert forall|p: int| 0 <= p < pixels(width, height) implies #[trigger] is_pixel(
            v@,
            p,
            f(p),
        ) by {}
        Some(v)
    } else {
        None
    }
}

proof fn lemma_same_picture(
    rgb: Seq<u8>,
    n: int,
    f: spec_fn(int) -> Rgb,
    g: spec_fn(int) -> Rgb,
)
    requires
        is_picture(rgb, n, f),
        forall|p: int| #[trigger] f(p) == g(p),
    ensures
        is_picture(rgb, n, g),
{
    assert forall|p: int| 0 <= p < n implies #[trigger] is_pixel(rgb, p, g(p)) by {
        assert(is_pixel(rgb, p, f(p)));
    }
}

/// Whether pixel `p` is not black.
pub open spec fn is_lit(rgb: Seq<u8>, p: int) -> bool {
    rgb[3 * p] > BLACK_THRESHOLD || rgb[3 * p + 1] > BLACK_THRESHOLD || rgb[3 * p + 2]
        > BLACK_THRESHOLD
}

/// Whether a lit pixel is among the first `n`.
pub open spec fn any_lit(rgb: Seq<u8>, n: int) -> bool {
    exists|p: int| 0 <= p < n && #[trigger] is_lit(rgb, p)
}

/// Columns and rows, both ends included.
#[derive(Clone, Copy, Debug, PartialEq, Eq, Structural)]
pub struct Span {
    pub min_x: u32,
    pub max_x: u32,
    pub min_y: u32,
    pub max_y: u32,
}

/// Whether pixel `p` lies in a span.
pub open spec fn in_span(b: Span, w: u32, p: int) -> bool {
    b.min_x <= (p % w as int) <= b.max_x && b.min_y <= (p / w as int) <= b.max_y
}

/// Whether a span is the smallest that holds the lit pixels among the first
/// `n`: it holds them all, and each of its sides has one.
pub open spec fn tight(rgb: Seq<u8>, w: u32, n: int, b: Span) -> bool {
    &&& forall|p: int| 0 <= p < n && #[trigger] is_lit(rgb, p) ==> in_span(b, w, p)
    &&& exists|p: int| 0 <= p < n && #[trigger] is_lit(rgb, p) && p % w as int == b.min_x
    &&& exists|p: int| 0 <= p < n && #[trigger] is_lit(rgb, p) && p % w as int == b.max_x
    &&& exists|p: int| 0 <= p < n && #[trigger] is_lit(rgb, p) && p / w as int == b.min_y
    &&& exists|p: int| 0 <= p < n && #[trigger] is_lit(rgb, p) && p / w as int == b.max_y
}

/// A part of a picture.
#[derive(Clone, Copy, Debug, PartialEq, Eq, Structural)]
pub struct Area {
    pub x: u32,
    pub y: u32,
    pub w: u32,
    pub h: u32,
}

/// A span with some pixels around it, as far as the picture has them.
pub open spec fn with_padding(b: Span, w: u32, h: u32, a: Area) -> bool {
    let x2 = if b.max_x + CROP_PADDING + 1 < w {
        b.max_x + CROP_PADDING + 1
    } else {
        w as int
    };
    let y2 = if b.max_y + CROP_PADDING + 1 < h {
        b.max_y + CROP_PADDING + 1
    } else {
        h as int
    };
    &&& a.x == (if b.min_x < CROP_PADDING {
        0
    } else {
        b.min_x - CROP_PADDING
    })
    &&& a.y == (if b.min_y < CROP_PADDING {
        0
    } else {
        b.min_y - CROP_PADDING
    })
    &&& a.x + a.w == x2
    &&& a.y + a.h == y2
}

/// Whether an area is the content of a picture: the lit pixels with some
/// padding, or the whole of a black picture.
pub open spec fn is_content(rgb: Seq<u8>, w: u32, h: u32, a: Area) -> bool {
    if any_lit(rgb, pixels(w, h)) {
        exists|b: Span| #[trigger]
            tight(rgb, w, pixels(w, h), b) && with_padding(b, w, h, a)
    } else {
        a == (Area { x: 0, y: 0, w, h })
    }
}

/// Finds what is inside the black borders.
pub fn detect_content_bounds(rgb: &[u8], width: u32, height: u32) -> (r: Area)
    requires
        rgb@.len() >= 3 * pixels(width, height),
    ensures
        is_content(rgb@, width, height, r),
{
    let n: u64 = pixel_count(width, height);
    let len: usize = rgb.len();
    let mut found: Option<Span> = None;
    let mut p: u64 = 0;
    while p < n
        invariant
            n == pixels(width, height),
            p <= n,
            len == rgb@.len(),
            len >= 3 * n,
            match found {
                None => !any_lit(rgb@, p as int),
                Some(b) => any_lit(rgb@, p as int) && tight(rgb@, width, p as int, b) && b.max_x
                    < width && b.max_y < height,
            },
        decreases n - p,
    {
        proof {
            assert(width > 0) by (nonlinear_arith)
                requires
                    0 < width * height,
            ;
            lemma_row_col(p as int, width as int, height as int);
        }
        let at: usize = 3 * p as usize;
        if rgb[at] > BLACK_THRESHOLD || rgb[at + 1] > BLACK_THRESHOLD || rgb[at + 2]
            > BLACK_THRESHOLD {
            let col: u32 = (p % width as u64) as u32;
            let row: u32 = (p / width as u64) as u32;
            assert(is_lit(rgb@, p as int));
            let b = match found {
                None => Span { min_x: col, max_x: col, min_y: row, max_y: row },
                Some(b) => Span {
                    min_x: if col < b.min_x {
                        col
                    } else {
                        b.min_x
                    },
                    max_x: if col > b.max_x {
                        col
                    } else {
                        b.max_x
                    },
                    min_y: if row < b.min_y {
                        row
                    } else {
                        b.min_y
                    },
                    max_y: if row > b.max_y {
                        row
                    } else {
                        b.max_y
                    },
                },
            };
            proof {
                lemma_grow(rgb@, width, p as int, found, b);
            }
            found = Some(b);
        }
        p += 1;
    }
    match found {
        None => Area { x: 0, y: 0, w: width, h: height },
        Some(b) => {
            let x: u32 = if b.min_x < CROP_PADDING {
                0
            } else {
                b.min_x - CROP_PADDING
            };
            let y: u32 = if b.min_y < CROP_PADDING {
                0
            } else {
                b.min_y - CROP_PADDING
            };
            let x2: u32 = if b.max_x as u64 + CROP_PADDING as u64 + 1 < width as u64 {
                b.max_x + CROP_PADDING + 1
            } else {
                width
            };
            let y2: u32 = if b.max_y as u64 + CROP_PADDING as u64 + 1 < height as u64 {
                b.max_y + CROP_PADDING + 1
            } else {
                height
            };
            proof {
                lemma_tight_order(rgb@, width, n as int, b);
            }
            let a = Area { x, y, w: x2 - x, h: y2 - y };
            assert(with_padding(b, width, height, a));
            a
        },
    }
}

proof fn lemma_tight_order(rgb: Seq<u8>, w: u32, n: int, b: Span)
    requires
        tight(rgb, w, n, b),
    ensures
        b.min_x <= b.max_x,
        b.min_y <= b.max_y,
{
    let p = choose|p: int| 0 <= p < n && #[trigger] is_lit(rgb, p) && p % w as int == b.min_x;
    assert(in_span(b, w, p));
}

/// One more lit pixel widens the span just so far as to hold it.
proof fn lemma_grow(rgb: Seq<u8>, w: u32, p: int, old_span: Option<Span>, b: Span)
    requires
        w > 0,
        p >= 0,
        is_lit(rgb, p),
        match old_span {
            None => !any_lit(rgb, p) && b.min_x == p % w as int && b.max_x == p % w as int
                && b.min_y == p / w as int && b.max_y == p / w as int,
            Some(a) => tight(rgb, w, p, a) && b.min_x == (if (p % w as int) <= a.min_x {
                p % w as int
            } else {
                a.min_x as int
            }) && b.max_x == (if p % w as int >= a.max_x {
                p % w as int
            } else {
                a.max_x as int
            }) && b.min_y == (if (p / w as int) <= a.min_y {
                p / w as int
            } else {
                a.min_y as int
            }) && b.max_y == (if p / w as int >= a.max_y {
                p / w as int
            } else {
                a.max_y as int
            }),
        },
    ensures
        any_lit(rgb, p + 1),
        tight(rgb, w, p + 1, b),
{
    match old_span {
        None => {},
        Some(a) => {
            lemma_tight_order(rgb, w, p, a);
            let p1 = choose|q: int|
                0 <= q < p && #[trigger] is_lit(rgb, q) && q % w as int == a.min_x;
            let p2 = choose|q: int|
                0 <= q < p && #[trigger] is_lit(rgb, q) && q % w as int == a.max_x;
            let p3 = choose|q: int|
                0 <= q < p && #[trigger] is_lit(rgb, q) && q / w as int == a.min_y;
            let p4 = choose|q: int|
                0 <= q < p && #[trigger] is_lit(rgb, q) && q / w as int == a.max_y;
            assert(is_lit(rgb, p1) && is_lit(rgb, p2) && is_lit(rgb, p3) && is_lit(rgb, p4));
            assert forall|q: int| 0 <= q < p + 1 && #[trigger] is_lit(rgb, q) implies in_span(
                b,
                w,
                q,
            ) by {
                if q < p {
                    assert(in_span(a, w, q));
                }
            }
        },
    }
}

/// The content of a picture lies in the picture and holds every pixel that is
/// not black; where the picture has pixels, so has the content.
pub proof fn law_content_holds_all_lit(rgb: Seq<u8>, w: u32, h: u32, a: Area, p: int)
    requires
        is_content(rgb, w, h, a),
        0 <= p < pixels(w, h),
        is_lit(rgb, p),
    ensures
        a.x + a.w <= w,
        a.y + a.h <= h,
        a.x <= (p % w as int) < a.x + a.w,
        a.y <= (p / w as int) < a.y + a.h,
{
    assert(w > 0) by (nonlinear_arith)
        requires
            0 < w * h,
    ;
    lemma_row_col(p, w as int, h as int);
    let b = choose|b: Span| #[trigger]
        tight(rgb, w, pixels(w, h), b) && with_padding(b, w, h, a);
    assert(in_span(b, w, p));
}

/// The content of a picture lies in the picture.
pub proof fn lemma_content_inside(rgb: Seq<u8>, w: u32, h: u32, a: Area)
    requires
        is_content(rgb, w, h, a),
    ensures
        a.x + a.w <= w,
        a.y + a.h <= h,
{
}

/// Pixel `q` of a part of a picture.
pub open spec fn cropped_pixel(rgb: Seq<u8>, src_width: u32, a: Area, q: int) -> Rgb {
    let p = (a.y + q / a.w as int) * src_width + a.x + q % a.w as int;
    Rgb { r: rgb[3 * p], g: rgb[3 * p + 1], b: rgb[3 * p + 2] }
}

/// Cuts a part out of a picture.
pub fn crop_rgb(rgb: &[u8], src_width: u32, a: Area) -> (r: Vec<u8>)
    requires
        a.x + a.w <= src_width,
        rgb@.len() >= 3 * ((a.y + a.h) * src_width),
    ensures
        is_picture(r@, pixels(a.w, a.h), |q: int| cropped_pixel(rgb@, src_width, a, q)),
{
    let mut out: Vec<u8> = Vec::new();
    let ghost f = |q: int| cropped_pixel(rgb@, src_width, a, q);
    let n: u64 = pixel_count(a.w, a.h);
    let len: usize = rgb.len();
    let mut q: u64 = 0;
    while q < n
        invariant
            n == pixels(a.w, a.h),
            q <= n,
            len == rgb@.len(),
            a.x + a.w <= src_width,
            len >= 3 * ((a.y + a.h) * src_width),
            f == (|q: int| cropped_pixel(rgb@, src_width, a, q)),
            is_picture(out@, q as int, f),
        decreases n - q,
    {
        let ghost row = q as int / a.w as int;
        let ghost col = q as int % a.w as int;
        proof {
            assert(a.w > 0) by (nonlinear_arith)
                requires
                    0 < a.w * a.h,
            ;
            lemma_row_col(q as int, a.w as int, a.h as int);
            assert(0 <= (a.y + row) * src_width && (a.y + row) * src_width + a.x + col < (a.y + a.h)
                * src_width) by (nonlinear_arith)
                requires
                    0 <= row < a.h,
                    0 <= col < a.w,
                    a.x + a.w <= src_width,
            ;
        }
        let p: u128 = (a.y as u128 + (q / a.w as u64) as u128) * src_width as u128 + a.x as u128 + (q
            % a.w as u64) as u128;
        let at: usize = (3 * p) as usize;
        let c = Rgb { r: rgb[at], g: rgb[at + 1], b: rgb[at + 2] };
        push_pixel(&mut out, c, Ghost(q as int), Ghost(f));
        q += 1;
    }
    out
}

/// Whether byte `i` of a frame is luma.
pub open spec fn is_luma(w: u32, h: u32, pixfmt: u32, i: int) -> bool {
    if pixfmt == capture::V4L2_PIX_FMT_NV12 {
        i < pixels(w, h)
    } else if pixfmt == capture::V4L2_PIX_FMT_YUYV {
        i % 2 == 0
    } else if pixfmt == capture::V4L2_PIX_FMT_UYVY {
        i % 2 == 1
    } else {
        false
    }
}

/// Passes the luma of a frame through a table and leaves all else; a format
/// whose luma does not stand in bytes of its own is left whole.
pub fn apply_y_lut(data: &mut [u8], width: u32, height: u32, pixfmt: u32, lut: &[u8; 256])
    ensures
        final(data)@.len() == old(data)@.len(),
        forall|i: int|
            0 <= i < old(data)@.len() ==> #[trigger] final(data)@[i] == (if is_luma(
                width,
                height,
                pixfmt,
                i,
            ) {
                lut@[old(data)@[i] as int]
            } else {
                old(data)@[i]
            }),
{
    let n: u64 = pixel_count(width, height);
    let ghost before = data@;
    let mut i: usize = 0;
    while i < data.len()
        invariant
            n == pixels(width, height),
            i <= data@.len() == before.len(),
            forall|j: int|
                0 <= j < i ==> #[trigger] data@[j] == (if is_luma(width, height, pixfmt, j) {
                    lut@[before[j] as int]
                } else {
                    before[j]
                }),
            forall|j: int| i <= j < before.len() ==> #[trigger] data@[j] == before[j],
        decreases data@.len() - i,
    {
        let luma = if pixfmt == capture::V4L2_PIX_FMT_NV12 {
            (i as u64) < n
        } else if pixfmt == capture::V4L2_PIX_FMT_YUYV {
            i % 2 == 0
        } else if pixfmt == capture::V4L2_PIX_FMT_UYVY {
            i % 2 == 1
        } else {
            false
        };
        if luma {
            let b: u8 = lut[data[i] as usize];
            data[i] = b;
        }
        i += 1;
    }
}

} // verus!
