//! Frame generation: synthetic frames between captured ones.
//!
//! Motion is estimated on a pyramid of pictures, from the coarsest level to the
//! finest, filtered, and used to warp the frames. This module decides what runs
//! when and at which size; the graphics card does the work.

use vstd::arithmetic::power2;
use vstd::prelude::*;

use crate::number;
use crate::text;

verus! {

/// How many levels the pyramid has.
pub const NUM_PYRAMID_LEVELS: usize = 4;

/// What is generated.
#[derive(Clone, Copy, Debug, PartialEq, Eq, Structural)]
pub enum FrameGenMode {
    Off,
    /// Frames after the newest captured one.
    Extrapolate,
    /// Frames between the two newest captured ones.
    Interpolate,
    /// Frames between the two newest captured ones, made by a neural model. Only
    /// there where a model can be run.
    Rife,
}

/// How much work goes into a frame.
#[derive(Clone, Copy, Debug, PartialEq, Eq, Structural)]
pub enum FrameGenQuality {
    Fast,
    Balanced,
    Quality,
}

/// What frame generation has done.
#[derive(Clone, Copy, Debug, PartialEq, Eq, Structural)]
pub struct FrameGenStats {
    /// How long the last frame took, in microseconds.
    pub last_gen_us: u64,
    /// How many frames were generated.
    pub synth_count: u64,
    /// How many times none could be.
    pub miss_count: u64,
}

impl FrameGenStats {
    /// What was done after one frame in a mode: only a warped frame counts.
    pub open spec fn counting(self, mode: FrameGenMode) -> FrameGenStats {
        FrameGenStats {
            synth_count: if mode.warps() {
                (self.synth_count + 1) as u64
            } else {
                self.synth_count
            },
            ..self
        }
    }
}

impl Default for FrameGenStats {
    fn default() -> (r: FrameGenStats)
        ensures
            r == (FrameGenStats { last_gen_us: 0, synth_count: 0, miss_count: 0 }),
    {
        FrameGenStats { last_gen_us: 0, synth_count: 0, miss_count: 0 }
    }
}

impl FrameGenMode {
    /// Whether the mode is there. `rife` tells whether a model can be run.
    pub open spec fn offered(self, rife: bool) -> bool {
        self == FrameGenMode::Rife ==> rife
    }

    /// How many modes there are.
    pub open spec fn number(rife: bool) -> int {
        if rife {
            4
        } else {
            3
        }
    }

    /// The mode after this one in the cycle.
    pub open spec fn following(self, rife: bool) -> FrameGenMode {
        match self {
            FrameGenMode::Off => FrameGenMode::Extrapolate,
            FrameGenMode::Extrapolate => FrameGenMode::Interpolate,
            FrameGenMode::Interpolate => if rife {
                FrameGenMode::Rife
            } else {
                FrameGenMode::Off
            },
            FrameGenMode::Rife => FrameGenMode::Off,
        }
    }

    /// The place of a mode in the menu.
    pub open spec fn place(self) -> int {
        match self {
            FrameGenMode::Off => 0,
            FrameGenMode::Extrapolate => 1,
            FrameGenMode::Interpolate => 2,
            FrameGenMode::Rife => 3,
        }
    }

    /// The mode at a place in the menu; off beyond the last.
    pub open spec fn at(i: int, rife: bool) -> FrameGenMode {
        if i == 1 {
            FrameGenMode::Extrapolate
        } else if i == 2 {
            FrameGenMode::Interpolate
        } else if i == 3 && rife {
            FrameGenMode::Rife
        } else {
            FrameGenMode::Off
        }
    }

    /// Whether frames are warped along the motion in this mode.
    pub open spec fn warps(self) -> bool {
        self == FrameGenMode::Extrapolate || self == FrameGenMode::Interpolate
    }

    /// The next mode in the cycle. `rife` tells whether a model can be run.
    pub fn next(self, rife: bool) -> (r: FrameGenMode)
        ensures
            r == self.following(rife),
    {
        match self {
            FrameGenMode::Off => FrameGenMode::Extrapolate,
            FrameGenMode::Extrapolate => FrameGenMode::Interpolate,
            FrameGenMode::Interpolate => if rife {
                FrameGenMode::Rife
            } else {
                FrameGenMode::Off
            },
            FrameGenMode::Rife => FrameGenMode::Off,
        }
    }

    /// The name that the menu shows.
    pub fn label(self) -> (r: &'static str)
        ensures
            r@ == (match self {
                FrameGenMode::Off => "Off"@,
                FrameGenMode::Extrapolate => "Extrapolate"@,
                FrameGenMode::Interpolate => "Interpolate"@,
                FrameGenMode::Rife => "RIFE"@,
            }),
    {
        match self {
            FrameGenMode::Off => "Off",
            FrameGenMode::Extrapolate => "Extrapolate",
            FrameGenMode::Interpolate => "Interpolate",
            FrameGenMode::Rife => "RIFE",
        }
    }

    /// How many modes there are.
    pub fn count(rife: bool) -> (r: usize)
        ensures
            r == FrameGenMode::number(rife),
    {
        if rife {
            4
        } else {
            3
        }
    }

    /// The mode at a place in the menu; off beyond the last.
    pub fn from_index(i: usize, rife: bool) -> (r: FrameGenMode)
        ensures
            r == FrameGenMode::at(i as int, rife),
    {
        match i {
            1 => FrameGenMode::Extrapolate,
            2 => FrameGenMode::Interpolate,
            3 => if rife {
                FrameGenMode::Rife
            } else {
                FrameGenMode::Off
            },
            _ => FrameGenMode::Off,
        }
    }

    /// The place of a mode in the menu.
    pub fn index(self) -> (r: usize)
        ensures
            r == self.place(),
            r < 4,
    {
        match self {
            FrameGenMode::Off => 0,
            FrameGenMode::Extrapolate => 1,
            FrameGenMode::Interpolate => 2,
            FrameGenMode::Rife => 3,
        }
    }
}

/// Place and mode determine each other, the cycle goes through the places in
/// turn, it stays with the modes that are there, and as many steps as there are
/// modes come round it.
pub proof fn law_modes_cycle(m: FrameGenMode, i: int, rife: bool)
    requires
        m.offered(rife),
    ensures
        FrameGenMode::at(m.place(), rife) == m,
        FrameGenMode::at(i, rife).offered(rife),
        0 <= i < FrameGenMode::number(rife) ==> FrameGenMode::at(i, rife).place() == i,
        m.following(rife).offered(rife),
        m.following(rife).place() == (m.place() + 1) % FrameGenMode::number(rife),
        ({
            let third = m.following(rife).following(rife).following(rife);
            if rife {
                third.following(rife) == m
            } else {
                third == m
            }
        }),
{
}

/// Whether it is worth drawing where no frame was captured. `model` tells whether
/// a model is loaded, `ready` whether two captured frames are there to warp.
pub fn fills_gap(mode: FrameGenMode, model: bool, ready: bool) -> (r: bool)
    ensures
        r == (match mode {
            FrameGenMode::Off => false,
            FrameGenMode::Rife => model,
            _ => ready,
        }),
{
    match mode {
        FrameGenMode::Off => false,
        FrameGenMode::Rife => model,
        _ => ready,
    }
}

/// Whether a model is asked for the frame that fills a gap.
pub fn asks_model(mode: FrameGenMode, model: bool, ready: bool) -> (r: bool)
    ensures
        r == (mode == FrameGenMode::Rife && model && ready),
{
    match mode {
        FrameGenMode::Rife => model && ready,
        _ => false,
    }
}

impl FrameGenQuality {
    /// How many levels are searched, from the finest.
    pub open spec fn depth(self) -> int {
        match self {
            FrameGenQuality::Fast => 2,
            FrameGenQuality::Balanced => 3,
            FrameGenQuality::Quality => 4,
        }
    }

    /// How far a level is searched, in its own pixels.
    pub open spec fn radius(self, level: int) -> i32 {
        if level == self.depth() - 1 {
            4
        } else if 0 <= level < self.depth() {
            2
        } else {
            0
        }
    }

    /// How many levels are searched, from the finest.
    pub fn levels(self) -> (r: usize)
        ensures
            r == self.depth(),
            2 <= r <= NUM_PYRAMID_LEVELS,
    {
        match self {
            FrameGenQuality::Fast => 2,
            FrameGenQuality::Balanced => 3,
            FrameGenQuality::Quality => 4,
        }
    }

    /// How far each level is searched, the finest first.
    pub fn radii(self) -> (r: [i32; 4])
        ensures
            forall|i: int| 0 <= i < 4 ==> #[trigger] r@[i] == self.radius(i),
    {
        match self {
            FrameGenQuality::Fast => [2, 4, 0, 0],
            FrameGenQuality::Balanced => [2, 2, 4, 0],
            FrameGenQuality::Quality => [2, 2, 2, 4],
        }
    }

    /// The name that the menu shows.
    pub fn label(self) -> (r: &'static str)
        ensures
            r@ == (match self {
                FrameGenQuality::Fast => "Fast"@,
                FrameGenQuality::Balanced => "Balanced"@,
                FrameGenQuality::Quality => "Quality"@,
            }),
    {
        match self {
            FrameGenQuality::Fast => "Fast",
            FrameGenQuality::Balanced => "Balanced",
            FrameGenQuality::Quality => "Quality",
        }
    }
}

/// How far motion is found in full-resolution pixels: each level adds its
/// radius times its scale.
pub open spec fn search_range(q: FrameGenQuality, levels: nat) -> int
    decreases levels,
{
    if levels == 0 {
        0
    } else {
        search_range(q, (levels - 1) as nat) + q.radius(levels - 1) * power2::pow2(
            (levels - 1) as nat,
        )
    }
}

/// The best quality finds motion of up to 46 pixels.
pub proof fn law_quality_search_range()
    ensures
        search_range(FrameGenQuality::Quality, 4) == 46,
{
    power2::lemma2_to64();
    let q = FrameGenQuality::Quality;
    assert(search_range(q, 0) == 0);
    assert(q.radius(0) * power2::pow2(0) == 2 && search_range(q, 1) == 2);
    assert(q.radius(1) * power2::pow2(1) == 4 && search_range(q, 2) == 6);
    assert(q.radius(2) * power2::pow2(2) == 8 && search_range(q, 3) == 14);
    assert(q.radius(3) * power2::pow2(3) == 32 && search_range(q, 4) == 46);
}

/// The size of one side at a level: each level halves it, rounding up.
pub open spec fn level_dim(n: int, level: nat) -> int
    decreases level,
{
    if level == 0 {
        n
    } else {
        (level_dim(n, (level - 1) as nat) + 1) / 2
    }
}

/// A level's side is the full side divided by a power of two, rounded up.
pub proof fn law_level_dim_is_ceiling(n: int, level: nat)
    requires
        n >= 0,
    ensures
        level_dim(n, level) == (n + power2::pow2(level) - 1) / power2::pow2(level) as int,
        n > 0 ==> level_dim(n, level) > 0,
        level_dim(n, level) <= n,
    decreases level,
{
    power2::lemma2_to64();
    if level > 0 {
        let k = (level - 1) as nat;
        law_level_dim_is_ceiling(n, k);
        power2::lemma_pow2_unfold(level);
        power2::lemma_pow2_pos(k);
        let p = power2::pow2(k) as int;
        let d = level_dim(n, k);
        assert((d + 1) / 2 == (n + 2 * p - 1) / (2 * p)) by {
            vstd::arithmetic::div_mod::lemma_div_denominator(n + 2 * p - 1, p, 2);
            assert((n + 2 * p - 1) / p == d + 1) by {
                vstd::arithmetic::div_mod::lemma_hoist_over_denominator(n + p - 1, 1, p as nat);
            }
            assert(p * 2 == 2 * p);
        }
    }
}

/// How many blocks of sixteen cover a side.
pub open spec fn mv_dim(n: int) -> int {
    (n + 15) / 16
}

/// How many groups of eight cover a side.
pub open spec fn groups(n: int) -> int {
    (n + 7) / 8
}

/// How many blocks there are along a side.
pub fn mv_size(n: u32) -> (r: u32)
    requires
        n <= u32::MAX - 15,
    ensures
        r == mv_dim(n as int),
{
    (n + 15) / 16
}

fn group_count(n: u32) -> (r: u32)
    requires
        n <= u32::MAX - 7,
    ensures
        r == groups(n as int),
{
    (n + 7) / 8
}

/// Width and height.
#[derive(Clone, Copy, Debug, PartialEq, Eq, Structural)]
pub struct Size {
    pub w: u32,
    pub h: u32,
}

impl Size {
    /// Whether a picture of this size fits into another.
    pub open spec fn fits(self, most: Size) -> bool {
        self.w <= most.w && self.h <= most.h
    }
}

/// The sizes of the levels of a pyramid.
pub open spec fn is_pyramid(dims: Seq<Size>, w: u32, h: u32) -> bool {
    &&& dims.len() == NUM_PYRAMID_LEVELS
    &&& forall|i: int|
        0 <= i < dims.len() ==> (#[trigger] dims[i]).w == level_dim(w as int, i as nat) && dims[i].h
            == level_dim(h as int, i as nat)
}

/// Works out the sizes of the levels.
pub fn pyramid(w: u32, h: u32) -> (r: Vec<Size>)
    requires
        w < u32::MAX,
        h < u32::MAX,
    ensures
        is_pyramid(r@, w, h),
{
    let mut out: Vec<Size> = Vec::new();
    let mut lw: u32 = w;
    let mut lh: u32 = h;
    let mut i: usize = 0;
    while i < NUM_PYRAMID_LEVELS
        invariant
            i <= NUM_PYRAMID_LEVELS,
            w < u32::MAX,
            h < u32::MAX,
            lw == level_dim(w as int, i as nat),
            lh == level_dim(h as int, i as nat),
            lw < u32::MAX,
            lh < u32::MAX,
            out@.len() == i,
            forall|j: int|
                0 <= j < i ==> (#[trigger] out@[j]).w == level_dim(w as int, j as nat) && out@[j].h
                    == level_dim(h as int, j as nat),
        decreases NUM_PYRAMID_LEVELS - i,
    {
        out.push(Size { w: lw, h: lh });
        assert(level_dim(w as int, (i + 1) as nat) == (level_dim(w as int, i as nat) + 1) / 2);
        assert(level_dim(h as int, (i + 1) as nat) == (level_dim(h as int, i as nat) + 1) / 2);
        lw = (lw + 1) / 2;
        lh = (lh + 1) / 2;
        i += 1;
    }
    out
}

/// One search for motion, on one level.
#[derive(Clone, Copy, Debug, PartialEq, Eq, Structural)]
pub struct FlowPass {
    pub level: usize,
    /// Size of the level.
    pub size: Size,
    pub radius: i32,
    /// The coarser level whose motion this one starts from.
    pub hint: Option<usize>,
    /// Groups to start.
    pub groups: Size,
}

/// The filter behind the searches.
#[derive(Clone, Copy, Debug, PartialEq, Eq, Structural)]
pub struct FilterPass {
    /// Size of the finest motion field.
    pub size: Size,
    /// Whether the field of the frame before damps this one.
    pub has_prev: bool,
    pub groups: Size,
}

/// The warp that makes a frame.
#[derive(Clone, Copy, Debug, PartialEq, Eq, Structural)]
pub struct SynthPass {
    pub size: Size,
    /// 0 after the newest frame, 1 between the two newest.
    pub mode: u32,
    pub groups: Size,
}

/// The level whose motion a level starts from.
pub open spec fn hint_of(level: int, active: int) -> Option<usize> {
    if level < active - 1 {
        Some((level + 1) as usize)
    } else {
        None
    }
}

/// The search on one level.
pub open spec fn flow_pass(q: FrameGenQuality, size: Size, level: int) -> FlowPass {
    FlowPass {
        level: level as usize,
        size,
        radius: q.radius(level),
        hint: hint_of(level, q.depth()),
        groups: Size { w: mv_dim(size.w as int) as u32, h: mv_dim(size.h as int) as u32 },
    }
}

/// Whether these are the searches of a quality: one on each of its levels, the
/// coarsest first.
pub open spec fn is_flow(passes: Seq<FlowPass>, q: FrameGenQuality, dims: Seq<Size>) -> bool {
    &&& passes.len() == q.depth()
    &&& forall|i: int|
        0 <= i < passes.len() ==> #[trigger] passes[i] == flow_pass(
            q,
            dims[q.depth() - 1 - i],
            q.depth() - 1 - i,
        )
}

/// Whether sizes are small enough for their blocks to be counted.
pub open spec fn countable(dims: Seq<Size>) -> bool {
    forall|i: int|
        0 <= i < dims.len() ==> (#[trigger] dims[i]).w <= u32::MAX - 15 && dims[i].h <= u32::MAX - 15
}

/// Plans the searches for motion, from the coarsest level to the finest.
pub fn flow_passes(q: FrameGenQuality, dims: &[Size]) -> (r: Vec<FlowPass>)
    requires
        dims@.len() == NUM_PYRAMID_LEVELS,
        countable(dims@),
    ensures
        is_flow(r@, q, dims@),
{
    let active: usize = q.levels();
    let radii = q.radii();
    let mut out: Vec<FlowPass> = Vec::new();
    let mut left: usize = active;
    while left > 0
        invariant
            left <= active,
            active == q.depth(),
            active <= NUM_PYRAMID_LEVELS,
            dims@.len() == NUM_PYRAMID_LEVELS,
            countable(dims@),
            forall|i: int| 0 <= i < 4 ==> #[trigger] radii@[i] == q.radius(i),
            out@.len() == active - left,
            forall|i: int|
                0 <= i < out@.len() ==> #[trigger] out@[i] == flow_pass(
                    q,
                    dims@[active - 1 - i],
                    active - 1 - i,
                ),
        decreases left,
    {
        let level: usize = left - 1;
        let size = dims[level];
        assert(size.w <= u32::MAX - 15 && size.h <= u32::MAX - 15);
        assert(radii@[level as int] == q.radius(level as int));
        let hint: Option<usize> = if level < active - 1 {
            Some(level + 1)
        } else {
            None
        };
        let pass = FlowPass {
            level,
            size,
            radius: radii[level],
            hint,
            groups: Size { w: mv_size(size.w), h: mv_size(size.h) },
        };
        out.push(pass);
        left = left - 1;
    }
    out
}

/// The filter for a picture size.
pub open spec fn filter_pass(w: u32, h: u32, has_prev: bool) -> FilterPass {
    FilterPass {
        size: Size { w: mv_dim(w as int) as u32, h: mv_dim(h as int) as u32 },
        has_prev,
        groups: Size {
            w: groups(mv_dim(w as int)) as u32,
            h: groups(mv_dim(h as int)) as u32,
        },
    }
}

fn plan_filter(w: u32, h: u32, has_prev: bool) -> (r: FilterPass)
    requires
        w <= u32::MAX - 15,
        h <= u32::MAX - 15,
    ensures
        r == filter_pass(w, h, has_prev),
{
    let mw: u32 = mv_size(w);
    let mh: u32 = mv_size(h);
    FilterPass {
        size: Size { w: mw, h: mh },
        has_prev,
        groups: Size { w: group_count(mw), h: group_count(mh) },
    }
}

/// The warp for a picture size and mode; none where frame generation is off or
/// left to a model.
pub open spec fn synth_pass(w: u32, h: u32, mode: FrameGenMode) -> Option<SynthPass> {
    if !mode.warps() {
        None
    } else {
        Some(
            SynthPass {
                size: Size { w, h },
                mode: if mode == FrameGenMode::Interpolate {
                    1
                } else {
                    0
                },
                groups: Size { w: groups(w as int) as u32, h: groups(h as int) as u32 },
            },
        )
    }
}

/// Plans the warp.
pub fn plan_synth(w: u32, h: u32, mode: FrameGenMode) -> (r: Option<SynthPass>)
    requires
        w <= u32::MAX - 7,
        h <= u32::MAX - 7,
    ensures
        r == synth_pass(w, h, mode),
        r is Some <==> mode == FrameGenMode::Extrapolate || mode == FrameGenMode::Interpolate,
        mode == FrameGenMode::Extrapolate ==> r->0.mode == 0,
        mode == FrameGenMode::Interpolate ==> r->0.mode == 1,
        r matches Some(p) ==> p.size.w == w && p.size.h == h,
        r matches Some(p) ==> 8 * p.groups.w >= w > 8 * (p.groups.w - 1),
        r matches Some(p) ==> 8 * p.groups.h >= h > 8 * (p.groups.h - 1),
{
    let m: u32 = match mode {
        FrameGenMode::Extrapolate => 0,
        FrameGenMode::Interpolate => 1,
        _ => {
            return None;
        },
    };
    Some(
        SynthPass {
            size: Size { w, h },
            mode: m,
            groups: Size { w: group_count(w), h: group_count(h) },
        },
    )
}

/// A warp is planned just for the two modes that move pixels, over the whole
/// picture. The shader is told 0 to go on from the newer frame and 1 to go
/// between the two, so the two modes never plan the same pass; and the work
/// groups of eight by eight pixels cover the picture, none of them in vain.
pub proof fn law_warps_are_told_apart(w: u32, h: u32, mode: FrameGenMode)
    requires
        w <= u32::MAX - 7,
        h <= u32::MAX - 7,
    ensures
        synth_pass(w, h, FrameGenMode::Off) is None,
        synth_pass(w, h, FrameGenMode::Rife) is None,
        synth_pass(w, h, FrameGenMode::Extrapolate) matches Some(p) && p.mode == 0,
        synth_pass(w, h, FrameGenMode::Interpolate) matches Some(p) && p.mode == 1,
        synth_pass(w, h, FrameGenMode::Extrapolate) != synth_pass(w, h, FrameGenMode::Interpolate),
        synth_pass(w, h, mode) matches Some(p) ==> {
            &&& p.size.w == w && p.size.h == h
            &&& w <= 8 * p.groups.w < w + 8
            &&& h <= 8 * p.groups.h < h + 8
        },
{
}

/// A scaled side made even, and at least two.
pub open spec fn even_side(n: int) -> int {
    if n < 2 {
        2
    } else {
        n - n % 2
    }
}

/// The size at which frames are kept: the given one where it fits into the
/// capture size, else the scaled one, made even.
pub open spec fn capped(size: Size, max: Size, scaled: Size) -> Size {
    if size.fits(max) {
        size
    } else {
        Size { w: even_side(scaled.w as int) as u32, h: even_side(scaled.h as int) as u32 }
    }
}

/// Caps a size to the capture size. `scaled` is the size scaled to fit, with
/// its shape kept.
pub fn cap_resolution(size: Size, max: Size, scaled: Size) -> (r: Size)
    ensures
        r == capped(size, max, scaled),
        scaled.fits(max) && max.w >= 2 && max.h >= 2 ==> r.fits(max),
{
    if size.w <= max.w && size.h <= max.h {
        return size;
    }
    let w: u32 = if scaled.w < 2 {
        2
    } else {
        scaled.w - scaled.w % 2
    };
    let h: u32 = if scaled.h < 2 {
        2
    } else {
        scaled.h - scaled.h % 2
    };
    Size { w, h }
}

/// What `generate` is to run.
pub struct Generation {
    /// The search for motion, where it is due: once for each pair of frames.
    pub motion: Option<Motion>,
    /// The warp.
    pub synth: Option<SynthPass>,
}

/// A search for motion on all levels, and its filter.
pub struct Motion {
    pub flow: Vec<FlowPass>,
    pub filter: FilterPass,
}

/// The state of frame generation on the OpenGL path.
pub struct FrameGen {
    pub mode: FrameGenMode,
    pub quality: FrameGenQuality,
    pub size: Size,
    /// Capture size, which frames never exceed.
    pub cap: Size,
    /// Whether motion of an earlier pair is there to damp with.
    pub has_prev_mv: bool,
    pub frame_count: u64,
    /// Whether the motion of the present pair was found.
    pub mv_valid: bool,
    pub stats: FrameGenStats,
}

/// What a new frame asks of the graphics side.
#[derive(Clone, Copy, Debug, PartialEq, Eq, Structural)]
pub struct Push {
    /// Whether the textures have to be made anew.
    pub recreate: bool,
    /// Size that the frame is copied to.
    pub size: Size,
}

/// Whether a motion search is the one for a state.
pub open spec fn is_motion(
    m: Motion,
    q: FrameGenQuality,
    size: Size,
    has_prev: bool,
) -> bool {
    &&& exists|dims: Seq<Size>| #[trigger]
        is_pyramid(dims, size.w, size.h) && is_flow(m.flow@, q, dims)
    &&& m.filter == filter_pass(size.w, size.h, has_prev)
}

/// Plans the search for motion and its filter.
pub fn plan_motion(q: FrameGenQuality, size: Size, has_prev: bool) -> (r: Motion)
    requires
        size.w <= u32::MAX - 15,
        size.h <= u32::MAX - 15,
    ensures
        is_motion(r, q, size, has_prev),
{
    let dims = pyramid(size.w, size.h);
    proof {
        assert forall|i: int| 0 <= i < dims@.len() implies (#[trigger] dims@[i]).w <= u32::MAX - 15
            && dims@[i].h <= u32::MAX - 15 by {
            law_level_dim_is_ceiling(size.w as int, i as nat);
            law_level_dim_is_ceiling(size.h as int, i as nat);
        }
    }
    Motion { flow: flow_passes(q, dims.as_slice()), filter: plan_filter(size.w, size.h, has_prev) }
}

impl FrameGen {
    /// Sizes whose blocks can be counted, and counters with room.
    pub open spec fn wf(&self) -> bool {
        self.size.w <= u32::MAX - 15 && self.size.h <= u32::MAX - 15
    }

    /// Counters with room for one more.
    pub open spec fn has_room(&self) -> bool {
        self.frame_count < u64::MAX && self.stats.synth_count < u64::MAX && self.stats.miss_count
            < u64::MAX
    }

    /// Frame generation for a capture size, switched off.
    pub fn new(width: u32, height: u32) -> (r: FrameGen)
        requires
            width <= u32::MAX - 15,
            height <= u32::MAX - 15,
        ensures
            r.wf(),
            r == (FrameGen {
                mode: FrameGenMode::Off,
                quality: FrameGenQuality::Balanced,
                size: Size { w: width, h: height },
                cap: Size { w: width, h: height },
                has_prev_mv: false,
                frame_count: 0,
                mv_valid: false,
                stats: FrameGenStats { last_gen_us: 0, synth_count: 0, miss_count: 0 },
            }),
    {
        FrameGen {
            mode: FrameGenMode::Off,
            quality: FrameGenQuality::Balanced,
            size: Size { w: width, h: height },
            cap: Size { w: width, h: height },
            has_prev_mv: false,
            frame_count: 0,
            mv_valid: false,
            stats: FrameGenStats::default(),
        }
    }

    /// The mode.
    pub fn mode(&self) -> (r: FrameGenMode)
        ensures
            r == self.mode,
    {
        self.mode
    }

    /// Sets the mode alone.
    pub fn set_mode(&mut self, mode: FrameGenMode)
        ensures
            *final(self) == (FrameGen { mode, ..*old(self) }),
    {
        self.mode = mode;
    }

    /// The size at which frames are kept.
    pub fn dimensions(&self) -> (r: (u32, u32))
        ensures
            r == (self.size.w, self.size.h),
    {
        (self.size.w, self.size.h)
    }

    /// The quality.
    pub fn quality(&self) -> (r: FrameGenQuality)
        ensures
            r == self.quality,
    {
        self.quality
    }

    /// Sets the quality alone.
    pub fn set_quality(&mut self, q: FrameGenQuality)
        ensures
            *final(self) == (FrameGen { quality: q, ..*old(self) }),
    {
        self.quality = q;
    }

    /// What was done.
    pub fn stats(&self) -> (r: FrameGenStats)
        ensures
            r == self.stats,
    {
        self.stats
    }

    /// Whether a frame can be generated: two captured ones are there.
    pub open spec fn ready(&self) -> bool {
        self.mode != FrameGenMode::Off && self.frame_count >= 2
    }

    /// Whether a frame can be generated.
    pub fn can_generate(&self) -> (r: bool)
        ensures
            r == self.ready(),
    {
        match self.mode {
            FrameGenMode::Off => false,
            _ => self.frame_count >= 2,
        }
    }

    /// The state after the size changed: frames and motion start afresh.
    pub open spec fn resized(self, size: Size) -> FrameGen {
        if size == self.size {
            self
        } else {
            FrameGen { size, has_prev_mv: false, frame_count: 0, ..self }
        }
    }

    /// Takes a new captured frame of the given size. `scaled` is the size scaled
    /// to fit the capture size.
    pub fn push_frame(&mut self, src: Size, scaled: Size) -> (r: Push)
        requires
            old(self).frame_count < u64::MAX,
            src.w <= u32::MAX - 15,
            src.h <= u32::MAX - 15,
            scaled.w <= u32::MAX - 15,
            scaled.h <= u32::MAX - 15,
        ensures
            final(self).wf(),
            ({
                let size = capped(src, old(self).cap, scaled);
                let s = old(self).resized(size);
                &&& *final(self) == (FrameGen {
                    frame_count: (s.frame_count + 1) as u64,
                    mv_valid: false,
                    ..s
                })
                &&& r == (Push { recreate: size != old(self).size, size })
            }),
            final(self).size == r.size,
            scaled.fits(old(self).cap) && old(self).cap.w >= 2 && old(self).cap.h >= 2
                ==> final(self).size.fits(final(self).cap),
    {
        let size = cap_resolution(src, self.cap, scaled);
        let recreate = size.w != self.size.w || size.h != self.size.h;
        if recreate {
            self.size = size;
            self.has_prev_mv = false;
            self.frame_count = 0;
        }
        self.frame_count = self.frame_count + 1;
        self.mv_valid = false;
        Push { recreate, size }
    }

    /// Begins a frame. Motion is searched for once for each pair of frames;
    /// further frames of the pair are warped with it. A frame counts where it is
    /// warped. Where no frame can be
    /// generated that is counted and nothing is to run.
    pub fn generate(&mut self) -> (r: Option<Generation>)
        requires
            old(self).wf(),
            old(self).has_room(),
        ensures
            final(self).wf(),
            r is Some <==> old(self).ready(),
            r is None ==> *final(self) == (FrameGen {
                stats: FrameGenStats {
                    miss_count: (old(self).stats.miss_count + 1) as u64,
                    ..old(self).stats
                },
                ..*old(self)
            }),
            r matches Some(g) ==> {
                &&& g.synth == synth_pass(old(self).size.w, old(self).size.h, old(self).mode)
                &&& g.motion is Some <==> !old(self).mv_valid
                &&& g.motion matches Some(m) ==> is_motion(
                    m,
                    old(self).quality,
                    old(self).size,
                    old(self).has_prev_mv,
                )
                &&& *final(self) == (FrameGen {
                    mv_valid: true,
                    has_prev_mv: old(self).has_prev_mv || !old(self).mv_valid,
                    stats: old(self).stats.counting(old(self).mode),
                    ..*old(self)
                })
            },
    {
        if !self.can_generate() {
            self.stats.miss_count = self.stats.miss_count + 1;
            return None;
        }
        let motion = if self.mv_valid {
            None
        } else {
            let m = plan_motion(self.quality, self.size, self.has_prev_mv);
            self.mv_valid = true;
            self.has_prev_mv = true;
            Some(m)
        };
        let synth = plan_synth(self.size.w, self.size.h, self.mode);
        if synth.is_some() {
            self.stats.synth_count = self.stats.synth_count + 1;
        }
        Some(Generation { motion, synth })
    }

    /// Notes how long the last frame took.
    pub fn generated_in(&mut self, micros: u64)
        ensures
            *final(self) == (FrameGen {
                stats: FrameGenStats { last_gen_us: micros, ..old(self).stats },
                ..*old(self)
            }),
    {
        self.stats.last_gen_us = micros;
    }
}

/// The runs of digits in a text, in order.
pub open spec fn digit_runs(s: Seq<char>) -> Seq<Seq<char>>
    decreases s.len(),
{
    if s.len() == 0 {
        Seq::empty()
    } else {
        let r = digit_runs(s.drop_last());
        let c = s.last();
        if !number::is_digit(c) {
            r
        } else if s.len() > 1 && number::is_digit(s[s.len() - 2]) {
            r.drop_last().push(r.last().push(c))
        } else {
            r.push(seq![c])
        }
    }
}

/// Whether a version text names 4.3 or later.
pub open spec fn supports_compute(version: Seq<char>) -> bool {
    let runs = digit_runs(version);
    runs.len() >= 2 && match (
        number::number_up_to(runs[0], u32::MAX as nat),
        number::number_up_to(runs[1], u32::MAX as nat),
    ) {
        (Some(major), Some(minor)) => major > 4 || (major == 4 && minor >= 3),
        _ => false,
    }
}

proof fn lemma_runs_open(s: Seq<char>)
    ensures
        s.len() > 0 && number::is_digit(s.last()) ==> digit_runs(s).len() > 0,
{
}

/// Whether a version of OpenGL has compute shaders.
pub fn check_compute_support(version: &str) -> (r: bool)
    ensures
        r == supports_compute(version@),
{
    let c = text::chars_of(version);
    let mut runs: Vec<Vec<char>> = Vec::new();
    let mut i: usize = 0;
    assert(c@.take(0) =~= Seq::<char>::empty());
    assert(text::texts(runs@) =~= Seq::<Seq<char>>::empty());
    while i < c.len()
        invariant
            i <= c@.len(),
            text::texts(runs@) == digit_runs(c@.take(i as int)),
        decreases c@.len() - i,
    {
        let ghost next = c@.take(i + 1);
        let ghost before = runs@;
        assert(next.drop_last() =~= c@.take(i as int));
        let ch = c[i];
        if '0' <= ch && ch <= '9' {
            let joins = i > 0 && '0' <= c[i - 1] && c[i - 1] <= '9';
            if joins {
                proof {
                    lemma_runs_open(c@.take(i as int));
                }
                match runs.pop() {
                    Some(run) => {
                        let mut run = run;
                        run.push(ch);
                        runs.push(run);
                        assert(text::texts(runs@) =~= text::texts(before).drop_last().push(
                            text::texts(before).last().push(ch),
                        ));
                    },
                    None => {},
                }
            } else {
                let mut run: Vec<char> = Vec::new();
                run.push(ch);
                assert(run@ =~= seq![ch]);
                runs.push(run);
                assert(text::texts(runs@) =~= text::texts(before).push(seq![ch]));
            }
        }
        i += 1;
    }
    assert(c@.take(i as int) =~= c@);
    if runs.len() < 2 {
        return false;
    }
    assert(text::texts(runs@)[0] == runs@[0]@ && text::texts(runs@)[1] == runs@[1]@);
    match (number::parse_u32(runs[0].as_slice()), number::parse_u32(runs[1].as_slice())) {
        (Some(major), Some(minor)) => major > 4 || (major == 4 && minor >= 3),
        _ => false,
    }
}

} // verus!
