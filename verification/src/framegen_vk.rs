//! Frame generation on the Vulkan path: its images, and when motion is searched
//! for.

use vstd::prelude::*;

use crate::framegen::{
    self, FrameGenMode, FrameGenQuality, FrameGenStats, Generation, Motion, Size,
    NUM_PYRAMID_LEVELS,
};

verus! {

/// An image of the pipeline.
#[derive(Clone, Copy, Debug, PartialEq, Eq, Structural)]
pub enum ImageRef {
    /// The frame before the newest.
    Prev,
    /// The newest frame.
    Curr,
    /// The generated frame.
    Out,
    /// The motion found on a level.
    Mv(usize),
    /// Where the filter writes.
    MvFiltered,
    /// The filtered motion of the pair before.
    MvPrev,
    /// The captured frame that comes in.
    Frame,
}

/// One side at a mip level: each level halves it, rounding down to at least
/// one.
pub open spec fn mip_dim(n: int, level: nat) -> int
    decreases level,
{
    if level == 0 {
        n
    } else {
        let d = mip_dim(n, (level - 1) as nat) / 2;
        if d < 1 {
            1
        } else {
            d
        }
    }
}

/// A copy from one mip level to the next.
#[derive(Clone, Copy, Debug, PartialEq, Eq, Structural)]
pub struct MipBlit {
    /// The level that is read; the next one is written.
    pub src_level: u32,
    pub src: Size,
    pub dst: Size,
}

/// Whether these are the copies that fill the mip levels of a picture.
pub open spec fn is_mip_chain(blits: Seq<MipBlit>, w: u32, h: u32) -> bool {
    &&& blits.len() == NUM_PYRAMID_LEVELS - 1
    &&& forall|i: int|
        0 <= i < blits.len() ==> {
            &&& (#[trigger] blits[i]).src_level == i
            &&& blits[i].src.w == mip_dim(w as int, i as nat)
            &&& blits[i].src.h == mip_dim(h as int, i as nat)
            &&& blits[i].dst.w == mip_dim(w as int, (i + 1) as nat)
            &&& blits[i].dst.h == mip_dim(h as int, (i + 1) as nat)
        }
}

/// Plans the copies that fill the mip levels.
pub fn mip_chain(w: u32, h: u32) -> (r: Vec<MipBlit>)
    ensures
        is_mip_chain(r@, w, h),
{
    let mut out: Vec<MipBlit> = Vec::new();
    let mut src = Size { w, h };
    let mut i: u32 = 0;
    while i < 3
        invariant
            i <= 3,
            src.w == mip_dim(w as int, i as nat),
            src.h == mip_dim(h as int, i as nat),
            out@.len() == i,
            forall|j: int|
                0 <= j < i ==> {
                    &&& (#[trigger] out@[j]).src_level == j
                    &&& out@[j].src.w == mip_dim(w as int, j as nat)
                    &&& out@[j].src.h == mip_dim(h as int, j as nat)
                    &&& out@[j].dst.w == mip_dim(w as int, (j + 1) as nat)
                    &&& out@[j].dst.h == mip_dim(h as int, (j + 1) as nat)
                },
        decreases 3 - i,
    {
        let dst = Size {
            w: if src.w / 2 < 1 {
                1
            } else {
                src.w / 2
            },
            h: if src.h / 2 < 1 {
                1
            } else {
                src.h / 2
            },
        };
        assert(dst.w == mip_dim(w as int, (i + 1) as nat));
        assert(dst.h == mip_dim(h as int, (i + 1) as nat));
        out.push(MipBlit { src_level: i, src, dst });
        src = dst;
        i += 1;
    }
    out
}

/// What an image holds.
#[derive(Clone, Copy, Debug, PartialEq, Eq, Structural)]
pub enum Content {
    /// A frame on all levels, which is read.
    Levels,
    /// A frame, which is written.
    Picture,
    /// Motion, which is written and read.
    Vectors,
}

/// An image that is needed.
#[derive(Clone, Copy, Debug, PartialEq, Eq, Structural)]
pub struct ImageSpec {
    pub image: ImageRef,
    pub size: Size,
    pub levels: u32,
    pub content: Content,
}

/// The size of the motion of a picture: one vector for each block.
pub open spec fn vectors(w: int, h: int) -> Size {
    Size { w: framegen::mv_dim(w) as u32, h: framegen::mv_dim(h) as u32 }
}

/// The image of the motion on a level.
pub open spec fn level_vectors(w: u32, h: u32, level: int) -> ImageSpec {
    ImageSpec {
        image: ImageRef::Mv(level as usize),
        size: vectors(
            framegen::level_dim(w as int, level as nat),
            framegen::level_dim(h as int, level as nat),
        ),
        levels: 1,
        content: Content::Vectors,
    }
}

/// The images that frame generation needs for a picture size.
pub open spec fn images(w: u32, h: u32) -> Seq<ImageSpec> {
    let size = Size { w, h };
    let blocks = vectors(w as int, h as int);
    seq![
        ImageSpec { image: ImageRef::Prev, size, levels: 4, content: Content::Levels },
        ImageSpec { image: ImageRef::Curr, size, levels: 4, content: Content::Levels },
        ImageSpec { image: ImageRef::Out, size, levels: 1, content: Content::Picture },
        level_vectors(w, h, 0),
        level_vectors(w, h, 1),
        level_vectors(w, h, 2),
        level_vectors(w, h, 3),
        ImageSpec {
            image: ImageRef::MvFiltered,
            size: blocks,
            levels: 1,
            content: Content::Vectors,
        },
        ImageSpec { image: ImageRef::MvPrev, size: blocks, levels: 1, content: Content::Vectors },
    ]
}

fn motion_image(image: ImageRef, size: Size) -> (r: ImageSpec)
    requires
        size.w <= u32::MAX - 15,
        size.h <= u32::MAX - 15,
    ensures
        r == (ImageSpec {
            image,
            size: vectors(size.w as int, size.h as int),
            levels: 1,
            content: Content::Vectors,
        }),
{
    ImageSpec {
        image,
        size: Size { w: framegen::mv_size(size.w), h: framegen::mv_size(size.h) },
        levels: 1,
        content: Content::Vectors,
    }
}

/// Lists the images that frame generation needs.
pub fn image_plan(w: u32, h: u32) -> (r: Vec<ImageSpec>)
    requires
        w <= u32::MAX - 15,
        h <= u32::MAX - 15,
    ensures
        r@ == images(w, h),
{
    let size = Size { w, h };
    let dims = framegen::pyramid(w, h);
    proof {
        assert forall|i: int| 0 <= i < dims@.len() implies (#[trigger] dims@[i]).w <= u32::MAX - 15
            && dims@[i].h <= u32::MAX - 15 by {
            framegen::law_level_dim_is_ceiling(w as int, i as nat);
            framegen::law_level_dim_is_ceiling(h as int, i as nat);
        }
    }
    let mut out: Vec<ImageSpec> = Vec::new();
    out.push(ImageSpec { image: ImageRef::Prev, size, levels: 4, content: Content::Levels });
    out.push(ImageSpec { image: ImageRef::Curr, size, levels: 4, content: Content::Levels });
    out.push(ImageSpec { image: ImageRef::Out, size, levels: 1, content: Content::Picture });
    out.push(motion_image(ImageRef::Mv(0), dims[0]));
    out.push(motion_image(ImageRef::Mv(1), dims[1]));
    out.push(motion_image(ImageRef::Mv(2), dims[2]));
    out.push(motion_image(ImageRef::Mv(3), dims[3]));
    out.push(motion_image(ImageRef::MvFiltered, size));
    out.push(motion_image(ImageRef::MvPrev, size));
    assert(out@ =~= images(w, h));
    out
}

/// Each search writes one vector for each group that it starts, and the filter
/// works on a field as large as its images.
pub proof fn law_motion_fits_its_images(m: Motion, q: FrameGenQuality, size: Size, has_prev: bool, i: int)
    requires
        framegen::is_motion(m, q, size, has_prev),
        0 <= i < m.flow@.len(),
    ensures
        images(size.w, size.h).contains(
            (ImageSpec {
                image: ImageRef::Mv(m.flow@[i].level),
                size: m.flow@[i].groups,
                levels: 1,
                content: Content::Vectors,
            }),
        ),
        images(size.w, size.h).contains(
            (ImageSpec {
                image: ImageRef::MvFiltered,
                size: m.filter.size,
                levels: 1,
                content: Content::Vectors,
            }),
        ),
{
    let all = images(size.w, size.h);
    let dims = choose|dims: Seq<Size>| #[trigger]
        framegen::is_pyramid(dims, size.w, size.h) && framegen::is_flow(m.flow@, q, dims);
    let level = q.depth() - 1 - i;
    assert(m.flow@[i] == framegen::flow_pass(q, dims[level], level));
    assert(all[3 + level] == level_vectors(size.w, size.h, level));
    assert(dims[level].w == framegen::level_dim(size.w as int, level as nat));
    assert(all[7].image == ImageRef::MvFiltered);
}

/// Whether memory type `i` is allowed and has all wanted properties.
pub open spec fn suits(type_filter: u32, flags: Seq<u32>, wanted: u32, i: int) -> bool {
    &&& 0 <= i < flags.len()
    &&& type_filter & (1u32 << (i as u32)) != 0
    &&& flags[i] & wanted == wanted
}

/// Finds the first memory type that is allowed and has all wanted properties.
pub fn find_memory_type(type_filter: u32, flags: &[u32], wanted: u32) -> (r: Option<u32>)
    requires
        flags@.len() <= 32,
    ensures
        match r {
            Some(i) => suits(type_filter, flags@, wanted, i as int) && forall|j: int|
                0 <= j < i ==> !#[trigger] suits(type_filter, flags@, wanted, j),
            None => forall|j: int| !#[trigger] suits(type_filter, flags@, wanted, j),
        },
{
    let mut i: usize = 0;
    while i < flags.len()
        invariant
            i <= flags@.len() <= 32,
            forall|j: int| 0 <= j < i ==> !#[trigger] suits(type_filter, flags@, wanted, j),
        decreases flags@.len() - i,
    {
        let bit: u32 = 1u32 << (i as u32);
        if type_filter & bit != 0 && flags[i] & wanted == wanted {
            assert(suits(type_filter, flags@, wanted, i as int));
            return Some(i as u32);
        }
        i += 1;
    }
    None
}

/// The state of frame generation on the Vulkan path.
pub struct VkFrameGen {
    pub size: Size,
    pub has_prev_mv: bool,
    pub frame_count: u64,
    pub mv_valid: bool,
    pub stats: FrameGenStats,
}

impl VkFrameGen {
    /// Sizes whose blocks can be counted.
    pub open spec fn wf(&self) -> bool {
        self.size.w <= u32::MAX - 15 && self.size.h <= u32::MAX - 15
    }

    /// Motion that was found for the present pair is there.
    pub open spec fn sound(&self) -> bool {
        self.mv_valid ==> self.has_prev_mv
    }

    /// Frame generation for a picture size.
    pub fn new(w: u32, h: u32) -> (r: VkFrameGen)
        requires
            w <= u32::MAX - 15,
            h <= u32::MAX - 15,
        ensures
            r.wf(),
            r.sound(),
            r == (VkFrameGen {
                size: Size { w, h },
                has_prev_mv: false,
                frame_count: 0,
                mv_valid: false,
                stats: FrameGenStats { last_gen_us: 0, synth_count: 0, miss_count: 0 },
            }),
    {
        VkFrameGen {
            size: Size { w, h },
            has_prev_mv: false,
            frame_count: 0,
            mv_valid: false,
            stats: FrameGenStats::default(),
        }
    }

    /// Whether two frames are there.
    pub fn can_generate(&self) -> (r: bool)
        ensures
            r == (self.frame_count >= 2),
    {
        self.frame_count >= 2
    }

    /// The picture size.
    pub fn dimensions(&self) -> (r: (u32, u32))
        ensures
            r == (self.size.w, self.size.h),
    {
        (self.size.w, self.size.h)
    }

    /// What was done.
    pub fn stats(&self) -> (r: FrameGenStats)
        ensures
            r == self.stats,
    {
        self.stats
    }

    /// Takes a new captured frame: the motion of the pair before counts no
    /// longer.
    pub fn record_push_frame(&mut self)
        requires
            old(self).frame_count < u64::MAX,
        ensures
            *final(self) == (VkFrameGen {
                frame_count: (old(self).frame_count + 1) as u64,
                mv_valid: false,
                ..*old(self)
            }),
            final(self).sound(),
    {
        self.frame_count = self.frame_count + 1;
        self.mv_valid = false;
    }

    /// Begins a frame. Motion is searched for once for each pair of frames. The
    /// mode and quality are the caller's; where the mode warps nothing, no frame
    /// counts.
    pub fn record_generate(&mut self, mode: FrameGenMode, quality: FrameGenQuality) -> (r: Option<
        Generation,
    >)
        requires
            old(self).wf(),
            old(self).stats.synth_count < u64::MAX,
            old(self).stats.miss_count < u64::MAX,
        ensures
            final(self).wf(),
            old(self).sound() ==> final(self).sound(),
            r is Some <==> old(self).frame_count >= 2,
            r is None ==> *final(self) == (VkFrameGen {
                stats: FrameGenStats {
                    miss_count: (old(self).stats.miss_count + 1) as u64,
                    ..old(self).stats
                },
                ..*old(self)
            }),
            r matches Some(g) ==> {
                &&& g.synth == framegen::synth_pass(old(self).size.w, old(self).size.h, mode)
                &&& g.motion is Some <==> !old(self).mv_valid
                &&& g.motion matches Some(m) ==> framegen::is_motion(
                    m,
                    quality,
                    old(self).size,
                    old(self).has_prev_mv,
                )
                &&& *final(self) == (VkFrameGen {
                    mv_valid: true,
                    has_prev_mv: old(self).has_prev_mv || !old(self).mv_valid,
                    stats: old(self).stats.counting(mode),
                    ..*old(self)
                })
            },
    {
        if !self.can_generate() {
            self.stats.miss_count = self.stats.miss_count + 1;
            return None;
        }
        let motion: Option<Motion> = if self.mv_valid {
            None
        } else {
            let m = framegen::plan_motion(quality, self.size, self.has_prev_mv);
            self.mv_valid = true;
            self.has_prev_mv = true;
            Some(m)
        };
        let synth = framegen::plan_synth(self.size.w, self.size.h, mode);
        if synth.is_some() {
            self.stats.synth_count = self.stats.synth_count + 1;
        }
        Some(Generation { motion, synth })
    }
}

} // verus!
