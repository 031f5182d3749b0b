//! What frame generation promises: how far motion is searched and in what order,
//! what sizes the pictures on the way have, and which graphics can do it.

use vstd::arithmetic::power2;
use vstd::prelude::*;

use crate::framegen::{self, FlowPass, FrameGen, FrameGenMode, FrameGenQuality, FrameGenStats, Size};
use crate::framegen_vk::{self, Content, ImageRef};
use crate::number;

verus! {

/// The qualities search two, three and four levels: the coarsest four pixels
/// far, the finer ones two. So motion of 10, 22 and 46 pixels is found.
pub proof fn law_search_ranges(q: FrameGenQuality, level: int)
    ensures
        q == FrameGenQuality::Fast ==> q.depth() == 2 && framegen::search_range(q, 2) == 10,
        q == FrameGenQuality::Balanced ==> q.depth() == 3 && framegen::search_range(q, 3) == 22,
        q == FrameGenQuality::Quality ==> q.depth() == 4 && framegen::search_range(q, 4) == 46,
        level == q.depth() - 1 ==> q.radius(level) == 4,
        0 <= level < q.depth() - 1 ==> q.radius(level) == 2,
        level >= q.depth() ==> q.radius(level) == 0,
{
    power2::lemma2_to64();
    assert(power2::pow2(0) == 1 && power2::pow2(1) == 2 && power2::pow2(2) == 4 && power2::pow2(3) == 8);
    assert(q.radius(0) * power2::pow2(0) == q.radius(0)) by (nonlinear_arith)
        requires
            power2::pow2(0) == 1,
    ;
    assert(q.radius(1) * power2::pow2(1) == 2 * q.radius(1)) by (nonlinear_arith)
        requires
            power2::pow2(1) == 2,
    ;
    assert(q.radius(2) * power2::pow2(2) == 4 * q.radius(2)) by (nonlinear_arith)
        requires
            power2::pow2(2) == 4,
    ;
    assert(q.radius(3) * power2::pow2(3) == 8 * q.radius(3)) by (nonlinear_arith)
        requires
            power2::pow2(3) == 8,
    ;
    assert(framegen::search_range(q, 0) == 0);
    assert(framegen::search_range(q, 1) == q.radius(0));
    assert(framegen::search_range(q, 2) == q.radius(0) + 2 * q.radius(1));
    assert(framegen::search_range(q, 3) == q.radius(0) + 2 * q.radius(1) + 4 * q.radius(2));
    assert(framegen::search_range(q, 4) == q.radius(0) + 2 * q.radius(1) + 4 * q.radius(2) + 8
        * q.radius(3));
}

/// Motion is searched from the coarsest level to the finest: the first search has
/// nothing to start from, every other one starts from the level that was searched
/// just before, and the last is on the picture itself. A search has a group for
/// each block of sixteen by sixteen pixels of its level.
pub proof fn law_searches_refine(passes: Seq<FlowPass>, q: FrameGenQuality, dims: Seq<Size>, i: int)
    requires
        framegen::is_flow(passes, q, dims),
        dims.len() == 4,
        framegen::countable(dims),
        0 <= i < passes.len(),
    ensures
        passes.len() >= 2,
        passes[0].hint is None,
        i > 0 ==> passes[i].hint == Some(passes[i - 1].level),
        i > 0 ==> passes[i].level == passes[i - 1].level - 1,
        passes.last().level == 0,
        passes[i].size == dims[passes[i].level as int],
        passes[i].size.w <= 16 * passes[i].groups.w < passes[i].size.w + 16,
        passes[i].size.h <= 16 * passes[i].groups.h < passes[i].size.h + 16,
        passes[i].radius == (if i == 0 {
            4i32
        } else {
            2
        }),
{
    let d = q.depth();
    assert(passes[0] == framegen::flow_pass(q, dims[d - 1], d - 1));
    assert(passes[i] == framegen::flow_pass(q, dims[d - 1 - i], d - 1 - i));
    if i > 0 {
        assert(passes[i - 1] == framegen::flow_pass(q, dims[d - i], d - i));
    }
    assert(passes[d - 1] == framegen::flow_pass(q, dims[0], 0));
    let size = dims[d - 1 - i];
    assert(size.w <= u32::MAX - 15 && size.h <= u32::MAX - 15);
}

/// A pyramid has four levels, each of half the size of the one before, rounded up.
pub proof fn law_pyramid(dims: Seq<Size>, w: u32, h: u32, i: int)
    requires
        framegen::is_pyramid(dims, w, h),
        0 <= i < 3,
    ensures
        dims.len() == 4,
        dims[0].w == w && dims[0].h == h,
        dims[i].w <= 2 * dims[i + 1].w <= dims[i].w + 1,
        dims[i].h <= 2 * dims[i + 1].h <= dims[i].h + 1,
{
    assert(dims[0].w == framegen::level_dim(w as int, 0));
    assert(dims[i].w == framegen::level_dim(w as int, i as nat));
    assert(dims[i + 1].w == framegen::level_dim(w as int, (i + 1) as nat));
}

/// The filter works on a vector for each block of sixteen by sixteen pixels, in
/// groups of eight by eight vectors, and is told whether there is a field before.
pub proof fn law_filter_covers_the_field(w: u32, h: u32, has_prev: bool)
    requires
        w <= u32::MAX - 15,
        h <= u32::MAX - 15,
    ensures
        ({
            let f = framegen::filter_pass(w, h, has_prev);
            &&& f.has_prev == has_prev
            &&& w <= 16 * f.size.w < w + 16
            &&& h <= 16 * f.size.h < h + 16
            &&& f.size.w <= 8 * f.groups.w < f.size.w + 8
            &&& f.size.h <= 8 * f.groups.h < f.size.h + 8
        }),
{
}

/// A size that fits is kept; another is the scaled one, with each side made even
/// by at most a pixel less, and never under two.
pub proof fn law_kept_size(size: Size, max: Size, scaled: Size)
    ensures
        ({
            let r = framegen::capped(size, max, scaled);
            &&& size.w <= max.w && size.h <= max.h ==> r == size
            &&& size.w > max.w || size.h > max.h ==> {
                &&& r.w % 2 == 0 && r.h % 2 == 0 && r.w >= 2 && r.h >= 2
                &&& scaled.w >= 2 ==> scaled.w - 1 <= r.w <= scaled.w
                &&& scaled.h >= 2 ==> scaled.h - 1 <= r.h <= scaled.h
                &&& scaled.w < 2 ==> r.w == 2
                &&& scaled.h < 2 ==> r.h == 2
            }
        }),
{
}

/// Frames are generated once two were captured at one size and a mode is chosen:
/// a change of size begins anew, without motion from before.
pub proof fn law_new_size_begins_anew(g: FrameGen, size: Size)
    ensures
        g.mode == FrameGenMode::Off ==> !g.ready(),
        g.frame_count < 2 ==> !g.ready(),
        g.mode != FrameGenMode::Off && g.frame_count >= 2 ==> g.ready(),
        size != g.size ==> !g.resized(size).ready() && !g.resized(size).has_prev_mv && g.resized(
            size,
        ).frame_count == 0,
        g.resized(size).size == size,
        size == g.size ==> g.resized(size) == g,
        g.resized(size).mode == g.mode && g.resized(size).quality == g.quality && g.resized(size).cap
            == g.cap && g.resized(size).stats == g.stats,
{
}

/// Only a warped frame counts as generated.
pub proof fn law_only_warps_count(s: FrameGenStats, m: FrameGenMode)
    requires
        s.synth_count < u64::MAX,
    ensures
        ({
            let t = s.counting(m);
            &&& t.last_gen_us == s.last_gen_us && t.miss_count == s.miss_count
            &&& m == FrameGenMode::Off || m == FrameGenMode::Rife ==> t.synth_count == s.synth_count
            &&& m == FrameGenMode::Extrapolate || m == FrameGenMode::Interpolate ==> t.synth_count
                == s.synth_count + 1
        }),
{
}

/// A side at a mip level is the side divided by a power of two, rounded down, and
/// at least one pixel.
pub proof fn law_mip_side(n: int, level: nat)
    requires
        n >= 1,
    ensures
        ({
            let q = n / power2::pow2(level) as int;
            framegen_vk::mip_dim(n, level) == (if q < 1 {
                1
            } else {
                q
            })
        }),
    decreases level,
{
    power2::lemma_pow2_pos(level);
    if level == 0 {
        power2::lemma2_to64();
        assert(n / 1 == n);
    } else {
        let m = (level - 1) as nat;
        law_mip_side(n, m);
        power2::lemma_pow2_pos(m);
        power2::lemma_pow2_unfold(level);
        let p = power2::pow2(m) as int;
        vstd::arithmetic::div_mod::lemma_div_denominator(n, p, 2);
        assert(p * 2 == power2::pow2(level));
        assert((n / p) / 2 == n / (power2::pow2(level) as int));
        assert(n / p >= 0) by (nonlinear_arith)
            requires
                n >= 1,
                p >= 1,
        ;
    }
}

/// The images that frame generation needs: both frames on four levels and the
/// generated one have the size of the picture, a field of motion for each level
/// and two for the filter have a vector for each block of sixteen by sixteen
/// pixels, and no image is listed twice.
pub proof fn law_images(w: u32, h: u32, i: int, j: int)
    requires
        w <= u32::MAX - 15,
        h <= u32::MAX - 15,
        0 <= i < j < framegen_vk::images(w, h).len(),
    ensures
        framegen_vk::images(w, h).len() == 9,
        framegen_vk::images(w, h)[i].image != framegen_vk::images(w, h)[j].image,
        ({
            let s = framegen_vk::images(w, h)[i];
            &&& s.image == ImageRef::Prev || s.image == ImageRef::Curr <==> s.levels == 4
            &&& s.image == ImageRef::Prev || s.image == ImageRef::Curr <==> s.content == Content::Levels
            &&& s.image == ImageRef::Out <==> s.content == Content::Picture
            &&& s.content != Content::Vectors ==> s.size.w == w && s.size.h == h
            &&& s.content == Content::Vectors ==> s.levels == 1
            &&& s.image == ImageRef::MvFiltered || s.image == ImageRef::MvPrev || s.image
                == ImageRef::Mv(0) ==> w <= 16 * s.size.w < w + 16 && h <= 16 * s.size.h < h + 16
        }),
{
    assert(framegen::level_dim(w as int, 0) == w);
    assert(framegen::level_dim(h as int, 0) == h);
}

proof fn lemma_no_digits(s: Seq<char>, t: Seq<char>)
    requires
        forall|i: int| 0 <= i < t.len() ==> !number::is_digit(#[trigger] t[i]),
    ensures
        framegen::digit_runs(s + t) == framegen::digit_runs(s),
    decreases t.len(),
{
    if t.len() == 0 {
        assert(s + t =~= s);
    } else {
        lemma_no_digits(s, t.drop_last());
        assert((s + t).drop_last() =~= s + t.drop_last());
        assert((s + t).last() == t.last());
    }
}

proof fn lemma_run(s: Seq<char>, t: Seq<char>)
    requires
        t.len() > 0,
        number::all_digits(t),
        s.len() > 0 ==> !number::is_digit(s.last()),
    ensures
        framegen::digit_runs(s + t) == framegen::digit_runs(s).push(t),
    decreases t.len(),
{
    let u = s + t;
    assert(u.drop_last() =~= s + t.drop_last());
    assert(u.last() == t.last());
    assert(number::is_digit(t[t.len() - 1]));
    if t.len() == 1 {
        assert(t.drop_last() =~= Seq::empty());
        assert(s + t.drop_last() =~= s);
        assert(seq![t.last()] =~= t);
        if s.len() > 0 {
            assert(u[u.len() - 2] == s.last());
        }
    } else {
        let d = t.drop_last();
        assert forall|i: int| 0 <= i < d.len() implies number::is_digit(#[trigger] d[i]) by {
            assert(d[i] == t[i]);
        }
        lemma_run(s, d);
        assert(u[u.len() - 2] == t[t.len() - 2]);
        let r = framegen::digit_runs(s).push(d);
        assert(r.drop_last() =~= framegen::digit_runs(s));
        assert(d.push(t.last()) =~= t);
    }
}

/// What stands behind a run and does not go on with it leaves the runs before.
proof fn lemma_rest(s: Seq<char>, t: Seq<char>)
    requires
        t.len() > 0 ==> !number::is_digit(t[0]),
    ensures
        framegen::digit_runs(s + t).len() >= framegen::digit_runs(s).len(),
        t.len() > 0 && number::is_digit(t.last()) ==> framegen::digit_runs(s + t).len()
            > framegen::digit_runs(s).len(),
        forall|i: int|
            0 <= i < framegen::digit_runs(s).len() ==> #[trigger] framegen::digit_runs(s + t)[i]
                == framegen::digit_runs(s)[i],
    decreases t.len(),
{
    if t.len() == 0 {
        assert(s + t =~= s);
    } else {
        let d = t.drop_last();
        lemma_rest(s, d);
        assert((s + t).drop_last() =~= s + d);
        assert((s + t).last() == t.last());
        if t.len() > 1 {
            assert((s + t)[(s + t).len() - 2] == t[t.len() - 2]);
            assert(d.last() == t[t.len() - 2]);
        }
    }
}

/// Compute shaders are there from version 4.3 on: whatever stands before, between
/// and behind the two numbers of a version, as long as it does not go on with
/// them, they decide.
pub proof fn law_compute_from_4_3(
    before: Seq<char>,
    major: nat,
    between: Seq<char>,
    minor: nat,
    behind: Seq<char>,
)
    requires
        major <= u32::MAX,
        minor <= u32::MAX,
        forall|i: int| 0 <= i < before.len() ==> !number::is_digit(#[trigger] before[i]),
        between.len() > 0,
        forall|i: int| 0 <= i < between.len() ==> !number::is_digit(#[trigger] between[i]),
        behind.len() > 0 ==> !number::is_digit(behind[0]),
    ensures
        framegen::supports_compute(
            before + number::decimal(major) + between + number::decimal(minor) + behind,
        ) <==> major > 4 || (major == 4 && minor >= 3),
{
    let a = number::decimal(major);
    let b = number::decimal(minor);
    number::lemma_decimal(major);
    number::lemma_decimal(minor);
    number::law_decimal_reads_back(major);
    number::law_decimal_reads_back(minor);
    let e = Seq::<char>::empty();
    lemma_no_digits(e, before);
    assert(e + before =~= before);
    assert(framegen::digit_runs(before) == framegen::digit_runs(e));
    assert(framegen::digit_runs(e) =~= Seq::<Seq<char>>::empty());
    lemma_run(before, a);
    lemma_no_digits(before + a, between);
    let m = before + a + between;
    assert(m.last() == between.last());
    lemma_run(m, b);
    lemma_rest(m + b, behind);
    let v = m + b + behind;
    let known = framegen::digit_runs(m + b);
    assert(known.len() == 2);
    assert(known[0] == a && known[1] == b);
    assert(framegen::digit_runs(v)[0] == a);
    assert(framegen::digit_runs(v)[1] == b);
}

} // verus!
