//! What the layouts of frames in memory promise: shared planes hold every pixel,
//! a model's planes hold every colour, and rates and intervals go together.

use vstd::prelude::*;

use crate::capture;
use crate::dmabuf::{self, Plane};
use crate::pacing;
use crate::rife;
use crate::text;

verus! {

/// How many bytes a pixel of a shared plane has: the formats R8, GR88 and AB24
/// by their letters.
pub open spec fn plane_bytes(fourcc: u32) -> int {
    if fourcc == 0x52 + 256 * 0x38 + 65536 * 0x20 + 16777216 * 0x20 {
        1
    } else if fourcc == 0x47 + 256 * 0x52 + 65536 * 0x38 + 16777216 * 0x38 {
        2
    } else if fourcc == 0x41 + 256 * 0x42 + 65536 * 0x32 + 16777216 * 0x34 {
        4
    } else {
        0
    }
}

/// The planes of a frame of even size: its rows follow each other without a gap,
/// the first plane begins with the frame and the second where the first ends.
/// NV12 has a byte of luma for each pixel and two of chroma for each four, and
/// the packed formats four bytes for each two; other formats are not shared.
pub proof fn law_planes_hold_the_frame(w: u32, h: u32, pixfmt: u32)
    requires
        w % 2 == 0,
        h % 2 == 0,
        w * h <= u32::MAX,
        2 * w <= u32::MAX,
    ensures
        ({
            let packed = pixfmt == capture::V4L2_PIX_FMT_YUYV || pixfmt == capture::V4L2_PIX_FMT_UYVY;
            let nv12 = pixfmt == capture::V4L2_PIX_FMT_NV12;
            let p = dmabuf::planes(w, h, pixfmt);
            &&& p is Some <==> packed || nv12
            &&& packed ==> p->0.len() == 1 && p->0[0].offset == 0 && p->0[0].height == h && 2
                * p->0[0].width == w && p->0[0].pitch == 4 * p->0[0].width && plane_bytes(
                p->0[0].fourcc,
            ) == 4
            &&& nv12 ==> p->0.len() == 2 && p->0[0].offset == 0 && p->0[0].height == h && p->0[0].width
                == w && p->0[0].pitch == p->0[0].width && plane_bytes(p->0[0].fourcc) == 1
            &&& nv12 ==> p->0[1].offset == w * h && 2 * p->0[1].height == h && 2 * p->0[1].width == w
                && p->0[1].pitch == 2 * p->0[1].width && plane_bytes(p->0[1].fourcc) == 2
        }),
{
}

/// Planes of any size: halves are rounded down.
pub proof fn law_planes_of_any_size(w: u32, h: u32)
    requires
        w * h <= u32::MAX,
        2 * w <= u32::MAX,
    ensures
        ({
            let p = dmabuf::planes(w, h, capture::V4L2_PIX_FMT_NV12)->0;
            let q = dmabuf::planes(w, h, capture::V4L2_PIX_FMT_YUYV)->0;
            &&& p[0].width == w && p[0].height == h && p[0].pitch == w && p[0].offset == 0
            &&& 2 * p[1].width <= w < 2 * p[1].width + 2
            &&& 2 * p[1].height <= h < 2 * p[1].height + 2
            &&& p[1].pitch == w && p[1].offset == w * h
            &&& 2 * q[0].width <= w < 2 * q[0].width + 2
            &&& q[0].height == h && q[0].pitch == 2 * w && q[0].offset == 0
            &&& dmabuf::planes(w, h, capture::V4L2_PIX_FMT_UYVY) == dmabuf::planes(
                w,
                h,
                capture::V4L2_PIX_FMT_YUYV,
            )
        }),
{
}

/// The value behind a name in a list of names and values.
pub open spec fn value_of(list: Seq<i32>, name: i32) -> Option<i32>
    decreases list.len(),
{
    if list.len() < 2 {
        None
    } else if list[0] == name {
        Some(list[1])
    } else {
        value_of(list.skip(2), name)
    }
}

/// The driver finds in the description of a plane what EGL calls width, height,
/// format, descriptor, offset and pitch, each under its own number, and the end.
pub proof fn law_plane_description(p: Plane, fd: i32)
    requires
        p.width <= i32::MAX,
        p.height <= i32::MAX,
        p.offset <= i32::MAX,
        p.pitch <= i32::MAX,
        p.fourcc <= i32::MAX,
    ensures
        ({
            let a = dmabuf::attributes(p, fd);
            &&& value_of(a, 0x3057) == Some(p.width as i32)
            &&& value_of(a, 0x3058) == Some(p.height as i32)
            &&& value_of(a, 0x3271) == Some(p.fourcc as i32)
            &&& value_of(a, 0x3272) == Some(fd)
            &&& value_of(a, 0x3273) == Some(p.offset as i32)
            &&& value_of(a, 0x3274) == Some(p.pitch as i32)
            &&& a.len() == 13 && a.last() == 0x3038
        }),
{
    let a = dmabuf::attributes(p, fd);
    reveal_with_fuel(value_of, 7);
    assert(a.skip(2).skip(2) =~= a.skip(4));
    assert(a.skip(4).skip(2) =~= a.skip(6));
    assert(a.skip(6).skip(2) =~= a.skip(8));
    assert(a.skip(8).skip(2) =~= a.skip(10));
}

/// A side that a model takes is the next multiple of 32.
pub proof fn law_padded_side(n: int)
    requires
        n >= 0,
    ensures
        n <= rife::padded_side(n) < n + 32,
        rife::padded_side(n) % 32 == 0,
{
}

/// A model reads planes of red, green and blue, in this order: at a column and
/// row of a plane stands that colour of the frame's pixel there, and beyond the
/// frame that of its last column or row.
pub proof fn law_planes_of_a_frame(w: int, h: int, pw: int, ph: int, colour: int, row: int, col: int)
    requires
        0 < w <= pw,
        0 < h <= ph,
        0 <= colour < 3,
        0 <= row < ph,
        0 <= col < pw,
    ensures
        ({
            let at = rife::source_of(w, h, pw, ph, colour * (pw * ph) + row * pw + col);
            &&& row < h && col < w ==> at == 4 * (row * w + col) + colour
            &&& row >= h && col < w ==> at == 4 * ((h - 1) * w + col) + colour
            &&& row < h && col >= w ==> at == 4 * (row * w + w - 1) + colour
            &&& row >= h && col >= w ==> at == 4 * ((h - 1) * w + w - 1) + colour
        }),
{
    let plane = pw * ph;
    assert(0 <= row * pw + col < plane) by (nonlinear_arith)
        requires
            0 <= col < pw,
            0 <= row <= ph - 1,
            plane == pw * ph,
    ;
    let i = colour * plane + (row * pw + col);
    vstd::arithmetic::div_mod::lemma_fundamental_div_mod_converse(i, plane, colour, row * pw + col);
    vstd::arithmetic::div_mod::lemma_fundamental_div_mod_converse(row * pw + col, pw, row, col);
    assert(colour * (pw * ph) + row * pw + col == i);
}

/// The frame that a model gives back is opaque, and has at each column and row
/// the colours of the three planes there.
pub proof fn law_frame_of_planes(
    planes: Seq<u8>,
    w: int,
    h: int,
    pw: int,
    ph: int,
    row: int,
    col: int,
)
    requires
        0 < w <= pw,
        0 < h <= ph,
        0 <= row < h,
        0 <= col < w,
    ensures
        ({
            let at = 4 * (row * w + col);
            &&& rife::output_byte(planes, w, pw, ph, at) == planes[row * pw + col]
            &&& rife::output_byte(planes, w, pw, ph, at + 1) == planes[pw * ph + row * pw + col]
            &&& rife::output_byte(planes, w, pw, ph, at + 2) == planes[2 * (pw * ph) + row * pw + col]
            &&& rife::output_byte(planes, w, pw, ph, at + 3) == 255
        }),
{
    let p = row * w + col;
    vstd::arithmetic::div_mod::lemma_fundamental_div_mod_converse(p, w, row, col);
    assert(0 <= p) by (nonlinear_arith)
        requires
            0 <= row,
            0 < w,
            0 <= col,
            p == row * w + col,
    ;
    assert((4 * p) / 4 == p && (4 * p + 1) / 4 == p && (4 * p + 2) / 4 == p && (4 * p + 3) / 4 == p);
    assert(0 * (pw * ph) == 0 && 1 * (pw * ph) == pw * ph);
}

/// An input of a model is taken for a time where `time` occurs in its name.
pub proof fn law_names_of_time(low: Seq<char>)
    ensures
        text::occurs(low, "time"@) ==> rife::names_time(low),
        !text::occurs(low, "time"@) && !text::occurs(low, "timestep"@) ==> !rife::names_time(low),
{
}

/// A rate that is asked for is the rate; none asked for is twice the capture's,
/// and never over 240.
pub proof fn law_rates(asked: int, fps: int)
    requires
        asked >= 0,
        fps >= 0,
    ensures
        asked > 0 ==> pacing::rate_of(asked, fps) == asked,
        fps <= 120 ==> pacing::rate_of(0, fps) == fps + fps,
        fps > 120 ==> pacing::rate_of(0, fps) == 240,
{
}

/// As many intervals as the rate says fill a second, and no longer ones would.
pub proof fn law_interval_fills_a_second(rate: int)
    requires
        rate >= 1,
    ensures
        pacing::interval_of(rate) * rate <= 1_000_000 < (pacing::interval_of(rate) + 1) * rate,
        pacing::interval_of(0) == 1_000_000,
{
    let q = 1_000_000int / rate;
    vstd::arithmetic::div_mod::lemma_fundamental_div_mod(1_000_000, rate);
    assert(q * rate <= 1_000_000 < (q + 1) * rate) by (nonlinear_arith)
        requires
            1_000_000 == rate * q + 1_000_000int % rate,
            0 <= 1_000_000int % rate < rate,
    ;
}

/// The next frame is due an interval after a captured one was shown, and an
/// interval after a generated one was due, unless that time has gone by.
pub proof fn law_next_deadline(deadline: int, interval: int, now: int)
    ensures
        pacing::next_deadline(deadline, interval, true, now) == now + interval,
        now <= deadline + interval ==> pacing::next_deadline(deadline, interval, false, now)
            == deadline + interval,
        now > deadline + interval ==> pacing::next_deadline(deadline, interval, false, now) == now
            + interval,
{
}

} // verus!
