//! Sharing capture buffers with the graphics card: how the planes of a buffer
//! are described, and which textures still need their parameters.

use vstd::prelude::*;

use crate::capture;

verus! {

pub const EGL_NONE: i32 = 0x3038;

pub const EGL_WIDTH: i32 = 0x3057;

pub const EGL_HEIGHT: i32 = 0x3058;

pub const EGL_LINUX_DRM_FOURCC_EXT: i32 = 0x3271;

pub const EGL_DMA_BUF_PLANE0_FD_EXT: i32 = 0x3272;

pub const EGL_DMA_BUF_PLANE0_OFFSET_EXT: i32 = 0x3273;

pub const EGL_DMA_BUF_PLANE0_PITCH_EXT: i32 = 0x3274;

/// One byte a pixel.
pub const DRM_FORMAT_R8: u32 = 0x20203852;

/// Two bytes a pixel.
pub const DRM_FORMAT_GR88: u32 = 0x38385247;

/// Four bytes a pixel.
pub const DRM_FORMAT_ABGR8888: u32 = 0x34324241;

/// One plane of a buffer.
#[derive(Clone, Copy, Debug, PartialEq, Eq, Structural)]
pub struct Plane {
    pub width: u32,
    pub height: u32,
    pub fourcc: u32,
    /// Bytes from row to row.
    pub pitch: u32,
    /// Where in the buffer it begins.
    pub offset: u32,
}

/// The planes of a buffer in a format; none where the format cannot be shared.
pub open spec fn planes(w: u32, h: u32, pixfmt: u32) -> Option<Seq<Plane>> {
    if pixfmt == capture::V4L2_PIX_FMT_NV12 {
        Some(
            seq![
                Plane { width: w, height: h, fourcc: DRM_FORMAT_R8, pitch: w, offset: 0 },
                Plane {
                    width: w / 2,
                    height: h / 2,
                    fourcc: DRM_FORMAT_GR88,
                    pitch: w,
                    offset: (w * h) as u32,
                },
            ],
        )
    } else if pixfmt == capture::V4L2_PIX_FMT_YUYV || pixfmt == capture::V4L2_PIX_FMT_UYVY {
        Some(
            seq![Plane {
                width: w / 2,
                height: h,
                fourcc: DRM_FORMAT_ABGR8888,
                pitch: (2 * w) as u32,
                offset: 0,
            }],
        )
    } else {
        None
    }
}

/// Lists the planes of a buffer.
pub fn create_images(w: u32, h: u32, pixfmt: u32) -> (r: Option<Vec<Plane>>)
    requires
        pixfmt == capture::V4L2_PIX_FMT_NV12 ==> w * h <= u32::MAX,
        pixfmt == capture::V4L2_PIX_FMT_YUYV || pixfmt == capture::V4L2_PIX_FMT_UYVY ==> 2 * w
            <= u32::MAX,
    ensures
        match r {
            Some(v) => planes(w, h, pixfmt) == Some(v@),
            None => planes(w, h, pixfmt) is None,
        },
{
    let mut out: Vec<Plane> = Vec::new();
    if pixfmt == capture::V4L2_PIX_FMT_NV12 {
        out.push(Plane { width: w, height: h, fourcc: DRM_FORMAT_R8, pitch: w, offset: 0 });
        assert(0 <= w * h) by (nonlinear_arith)
            requires
                w >= 0,
                h >= 0,
        ;
        out.push(
            Plane {
                width: w / 2,
                height: h / 2,
                fourcc: DRM_FORMAT_GR88,
                pitch: w,
                offset: w * h,
            },
        );
        assert(out@ =~= planes(w, h, pixfmt)->0);
        Some(out)
    } else if pixfmt == capture::V4L2_PIX_FMT_YUYV || pixfmt == capture::V4L2_PIX_FMT_UYVY {
        out.push(
            Plane {
                width: w / 2,
                height: h,
                fourcc: DRM_FORMAT_ABGR8888,
                pitch: 2 * w,
                offset: 0,
            },
        );
        assert(out@ =~= planes(w, h, pixfmt)->0);
        Some(out)
    } else {
        None
    }
}

/// The list that describes a plane to the graphics driver: pairs of a name and
/// a value, and the end.
pub open spec fn attributes(p: Plane, fd: i32) -> Seq<i32> {
    seq![
        EGL_WIDTH,
        p.width as i32,
        EGL_HEIGHT,
        p.height as i32,
        EGL_LINUX_DRM_FOURCC_EXT,
        p.fourcc as i32,
        EGL_DMA_BUF_PLANE0_FD_EXT,
        fd,
        EGL_DMA_BUF_PLANE0_OFFSET_EXT,
        p.offset as i32,
        EGL_DMA_BUF_PLANE0_PITCH_EXT,
        p.pitch as i32,
        EGL_NONE,
    ]
}

/// Describes a plane to the graphics driver. Numbers keep their 32 bits.
pub fn create_one(p: &Plane, fd: i32) -> (r: [i32; 13])
    ensures
        r@ == attributes(*p, fd),
{
    let r: [i32; 13] = [
        EGL_WIDTH,
        p.width as i32,
        EGL_HEIGHT,
        p.height as i32,
        EGL_LINUX_DRM_FOURCC_EXT,
        p.fourcc as i32,
        EGL_DMA_BUF_PLANE0_FD_EXT,
        fd,
        EGL_DMA_BUF_PLANE0_OFFSET_EXT,
        p.offset as i32,
        EGL_DMA_BUF_PLANE0_PITCH_EXT,
        p.pitch as i32,
        EGL_NONE,
    ];
    assert(r@ =~= attributes(*p, fd));
    r
}

/// The planes of one picture do not overlap, and lie within the bytes that the
/// picture has.
pub proof fn law_planes_are_disjoint(w: u32, h: u32)
    requires
        w * h + w * h / 2 <= u32::MAX,
    ensures
        ({
            let p = planes(w, h, capture::V4L2_PIX_FMT_NV12)->0;
            &&& p[0].offset + p[0].pitch * p[0].height <= p[1].offset
            &&& p[1].offset + p[1].pitch * p[1].height <= w * h + w * h / 2
        }),
{
    assert(0 <= w * h) by (nonlinear_arith)
        requires
            w >= 0,
            h >= 0,
    ;
    assert(w * (h / 2) <= w * h / 2) by (nonlinear_arith)
        requires
            w >= 0,
            h >= 0,
    ;
}

/// The buffers that are shared, and for which the texture parameters were set.
pub struct DmaBufImporter {
    pub planes_each: usize,
    pub params_set: Vec<bool>,
}

impl DmaBufImporter {
    /// Shares a number of buffers with a number of planes each.
    pub fn new(buffers: usize, planes_each: usize) -> (r: DmaBufImporter)
        ensures
            r.planes_each == planes_each,
            r.params_set@ == Seq::new(buffers as nat, |i: int| false),
    {
        let mut params_set: Vec<bool> = Vec::new();
        let mut i: usize = 0;
        while i < buffers
            invariant
                i <= buffers,
                params_set@ == Seq::new(i as nat, |i: int| false),
            decreases buffers - i,
        {
            params_set.push(false);
            i += 1;
            assert(params_set@ =~= Seq::new(i as nat, |i: int| false));
        }
        DmaBufImporter { planes_each, params_set }
    }

    /// Notes that a buffer is bound and tells whether its textures need their
    /// parameters: they do the first time.
    pub fn bind(&mut self, index: u32) -> (r: bool)
        requires
            index < old(self).params_set@.len(),
        ensures
            r == !old(self).params_set@[index as int],
            final(self).planes_each == old(self).planes_each,
            final(self).params_set@ == old(self).params_set@.update(index as int, true),
    {
        let need = !self.params_set[index as usize];
        self.params_set.set(index as usize, true);
        need
    }

    /// How many planes a buffer has; 0 where none is shared.
    pub fn planes_per_buffer(&self) -> (r: usize)
        ensures
            r == (if self.params_set@.len() == 0 {
                0
            } else {
                self.planes_each
            }),
    {
        if self.params_set.len() == 0 {
            0
        } else {
            self.planes_each
        }
    }
}

} // verus!
