//! What drawing promises: textures take a frame whole and in the right order of
//! its bytes, each format has its own shader, names of scaling modes mean what
//! they say, and text stands where its characters stand.

use vstd::prelude::*;

use crate::capture;
use crate::convert;
use crate::gl_passes::{self, Program, Source, Target};
use crate::gl_renderer::{self, FinalPass, GlRenderer, Glyph, Placement, ScaleMode, Shader, Slot, TextureSpec};

verus! {

/// How many bytes a pixel of a texture is given by: red alone, red and green, or
/// three or four channels, of a byte or of two each.
pub open spec fn pixel_bytes(t: TextureSpec) -> int {
    (if t.format == 0x1903 {
        1int
    } else if t.format == 0x8227 {
        2
    } else if t.format == 0x1907 {
        3
    } else if t.format == 0x1908 || t.format == 0x80e1 {
        4
    } else {
        0
    }) * (if t.kind == 0x1401 {
        1int
    } else if t.kind == 0x1403 {
        2
    } else {
        0
    })
}

/// How many bytes a texture takes.
pub open spec fn texture_bytes(t: TextureSpec) -> int {
    pixel_bytes(t) * (t.width * t.height)
}

/// Frames of even size go into their textures whole: NV12 in a byte of luma for
/// each pixel and two of chroma for each four, P010 in twice as many, the packed
/// formats of luma and chroma in four bytes for each two pixels, and colours in
/// three or four bytes.
pub proof fn law_textures_take_the_frame(w: u32, h: u32)
    requires
        w % 2 == 0,
        h % 2 == 0,
    ensures
        ({
            let t = gl_renderer::textures(capture::V4L2_PIX_FMT_NV12, w, h);
            &&& t.len() == 2 && t[0].slot == Slot::Y && t[1].slot == Slot::Uv
            &&& texture_bytes(t[0]) == w * h
            &&& 2 * texture_bytes(t[1]) == w * h
            &&& pixel_bytes(t[0]) == 1 && pixel_bytes(t[1]) == 2
        }),
        ({
            let t = gl_renderer::textures(capture::V4L2_PIX_FMT_P010, w, h);
            &&& t.len() == 2 && t[0].slot == Slot::Y && t[1].slot == Slot::Uv
            &&& texture_bytes(t[0]) == 2 * (w * h)
            &&& texture_bytes(t[1]) == w * h
            &&& pixel_bytes(t[0]) == 2 && pixel_bytes(t[1]) == 4
        }),
        ({
            let a = gl_renderer::textures(capture::V4L2_PIX_FMT_YUYV, w, h);
            let b = gl_renderer::textures(capture::V4L2_PIX_FMT_UYVY, w, h);
            &&& a == b && a.len() == 1 && a[0].slot == Slot::Packed && a[0].format == 0x1908
            &&& texture_bytes(a[0]) == 2 * (w * h)
        }),
        ({
            let t = gl_renderer::textures(capture::V4L2_PIX_FMT_XRGB32, w, h);
            &&& t.len() == 1 && t[0].slot == Slot::Packed && t[0].format == 0x80e1
            &&& texture_bytes(t[0]) == 4 * (w * h)
        }),
        ({
            let t = gl_renderer::textures(capture::PIXFMT_RGB24, w, h);
            &&& t.len() == 1 && t[0].slot == Slot::Packed && t[0].format == 0x1907
            &&& texture_bytes(t[0]) == 3 * (w * h)
        }),
{
    let half = (w / 2) as int;
    let rows = (h / 2) as int;
    assert(4 * (half * rows) == w * h) by (nonlinear_arith)
        requires
            2 * half == w,
            2 * rows == h,
    ;
    assert(2 * (half * h) == w * h) by (nonlinear_arith)
        requires
            2 * half == w,
    ;
    let nv12 = gl_renderer::textures(capture::V4L2_PIX_FMT_NV12, w, h);
    lemma_texture_bytes(nv12[0], 1, w * h);
    lemma_texture_bytes(nv12[1], 2, half * rows);
    let p010 = gl_renderer::textures(capture::V4L2_PIX_FMT_P010, w, h);
    lemma_texture_bytes(p010[0], 2, w * h);
    lemma_texture_bytes(p010[1], 4, half * rows);
    lemma_texture_bytes(gl_renderer::textures(capture::V4L2_PIX_FMT_YUYV, w, h)[0], 4, half * h);
    lemma_texture_bytes(gl_renderer::textures(capture::V4L2_PIX_FMT_XRGB32, w, h)[0], 4, w * h);
    lemma_texture_bytes(gl_renderer::textures(capture::PIXFMT_RGB24, w, h)[0], 3, w * h);
}

proof fn lemma_texture_bytes(t: TextureSpec, each: int, n: int)
    requires
        pixel_bytes(t) == each,
        t.width * t.height == n,
    ensures
        texture_bytes(t) == each * n,
{
}

/// How a texture keeps its pixels fits how they are given: in one, two, three or
/// four channels, of eight bits or of sixteen.
pub proof fn law_textures_keep_what_is_given(pixfmt: u32, w: u32, h: u32, i: int)
    requires
        0 <= i < gl_renderer::textures(pixfmt, w, h).len(),
    ensures
        ({
            let t = gl_renderer::textures(pixfmt, w, h)[i];
            &&& t.kind == 0x1401 && t.format == 0x1903 ==> t.internal == 0x8229
            &&& t.kind == 0x1403 && t.format == 0x1903 ==> t.internal == 0x822a
            &&& t.kind == 0x1401 && t.format == 0x8227 ==> t.internal == 0x822b
            &&& t.kind == 0x1403 && t.format == 0x8227 ==> t.internal == 0x822c
            &&& t.format == 0x1907 ==> t.internal == 0x8051
            &&& t.format == 0x1908 || t.format == 0x80e1 ==> t.internal == 0x8058
            &&& t.kind == 0x1403 <==> pixfmt == capture::V4L2_PIX_FMT_P010
        }),
{
}

/// The sizes of textures at any size of the frame: halves are rounded down.
pub proof fn law_texture_sizes(pixfmt: u32, w: u32, h: u32)
    ensures
        ({
            let t = gl_renderer::textures(pixfmt, w, h);
            &&& t.len() > 0 <==> convert::convertible(pixfmt)
            &&& gl_renderer::planar(pixfmt) ==> {
                &&& t[0].width == w && t[0].height == h
                &&& 2 * t[1].width <= w < 2 * t[1].width + 2
                &&& 2 * t[1].height <= h < 2 * t[1].height + 2
            }
            &&& pixfmt == capture::V4L2_PIX_FMT_YUYV || pixfmt == capture::V4L2_PIX_FMT_UYVY ==> {
                &&& 2 * t[0].width <= w < 2 * t[0].width + 2
                &&& t[0].height == h
            }
            &&& pixfmt == capture::V4L2_PIX_FMT_XRGB32 || pixfmt == capture::PIXFMT_RGB24 ==> {
                &&& t[0].width == w && t[0].height == h
            }
        }),
{
}

/// The uploads of a frame follow each other without a gap, from its first byte to
/// its last, and of a planar frame the first takes the luma: a byte for each pixel
/// of NV12, two for each of P010.
pub proof fn law_uploads_take_all(pixfmt: u32, w: u32, h: u32, len: usize)
    requires
        convert::convertible(pixfmt),
        gl_renderer::planar(pixfmt) ==> gl_renderer::luma_bytes(pixfmt, w, h) <= len,
    ensures
        ({
            let u = gl_renderer::uploads(pixfmt, w, h, len as int);
            let t = gl_renderer::textures(pixfmt, w, h);
            &&& u.len() == t.len()
            &&& u[0].from == 0
            &&& u.last().to == len
            &&& u[0].texture == t[0]
            &&& u.len() == 2 ==> u[1].texture == t[1] && u[1].from == u[0].to
            &&& pixfmt == capture::V4L2_PIX_FMT_NV12 ==> u.len() == 2 && u[0].to == w * h
            &&& pixfmt == capture::V4L2_PIX_FMT_P010 ==> u.len() == 2 && u[0].to == 2 * (w * h)
        }),
{
    assert(0 <= w * h) by (nonlinear_arith)
        requires
            0 <= w,
            0 <= h,
    ;
}

/// Every format that can be converted has a shader of its own. The two packed ones
/// differ in whether chroma comes first, which is so where the first byte of a
/// frame is not luma.
pub proof fn law_shaders(a: u32, b: u32, w: u32, h: u32)
    ensures
        gl_renderer::shader_of(a) is Some <==> convert::convertible(a),
        gl_renderer::shader_of(a) is Some && gl_renderer::shader_of(a) == gl_renderer::shader_of(b)
            ==> a == b,
        gl_renderer::shader_of(a) matches Some(Shader::Packed(chroma_first)) ==> {
            &&& chroma_first <==> !convert::is_luma(w, h, a, 0)
            &&& a == capture::V4L2_PIX_FMT_YUYV || a == capture::V4L2_PIX_FMT_UYVY
        },
        gl_renderer::shader_of(capture::V4L2_PIX_FMT_NV12) == Some(Shader::Nv12),
        gl_renderer::shader_of(capture::V4L2_PIX_FMT_P010) == Some(Shader::P010),
        gl_renderer::shader_of(capture::V4L2_PIX_FMT_XRGB32) == Some(Shader::Xrgb),
        gl_renderer::shader_of(capture::PIXFMT_RGB24) == Some(Shader::Rgb24),
{
}

/// A shader reads as many textures as its format has: one, or that of luma from
/// the first unit and that of chroma from the second.
pub proof fn law_shaders_read_their_textures(pixfmt: u32, w: u32, h: u32)
    requires
        convert::convertible(pixfmt),
    ensures
        ({
            let r = gl_passes::reads(Program::Convert(gl_renderer::shader_of(pixfmt)));
            &&& r.len() == gl_renderer::textures(pixfmt, w, h).len()
            &&& r.len() == 1 ==> r[0] == ("uTex"@, 0i32)
            &&& r.len() == 2 ==> r[0] == ("uTexY"@, 0i32) && r[1] == ("uTexUV"@, 1i32)
        }),
        gl_passes::reads(Program::Cas) == seq![("uTex"@, 0i32)],
        gl_passes::reads(Program::Passthrough) == seq![("uTex"@, 0i32)],
{
}

/// The names of the scaling modes, their places in the menu, and the names that
/// modes had which now are bilinear.
pub proof fn law_scale_mode_names()
    ensures
        ScaleMode::named("nearest"@) == Some(ScaleMode::Nearest),
        ScaleMode::named("bilinear"@) == Some(ScaleMode::Bilinear),
        ScaleMode::named("integer_scale"@) == Some(ScaleMode::IntegerScale),
        ScaleMode::named("cas"@) == Some(ScaleMode::Cas),
        ScaleMode::named("fsr"@) == Some(ScaleMode::Fsr),
        ScaleMode::named("integer_fsr"@) == Some(ScaleMode::IntegerFsr),
        ScaleMode::named("sharp_bilinear"@) == Some(ScaleMode::Bilinear),
        ScaleMode::named("bicubic"@) == Some(ScaleMode::Bilinear),
        ScaleMode::named("lanczos"@) == Some(ScaleMode::Bilinear),
        ScaleMode::at(0) == ScaleMode::Nearest,
        ScaleMode::at(1) == ScaleMode::Bilinear,
        ScaleMode::at(2) == ScaleMode::IntegerScale,
        ScaleMode::at(3) == ScaleMode::Cas,
        ScaleMode::at(4) == ScaleMode::Fsr,
        ScaleMode::at(5) == ScaleMode::IntegerFsr,
        forall|i: int| i < 0 || i > 5 ==> #[trigger] ScaleMode::at(i) == ScaleMode::Bilinear,
{
    gl_renderer::law_scale_mode_names_read_back(ScaleMode::Nearest);
    gl_renderer::law_scale_mode_names_read_back(ScaleMode::Bilinear);
    gl_renderer::law_scale_mode_names_read_back(ScaleMode::IntegerScale);
    gl_renderer::law_scale_mode_names_read_back(ScaleMode::Cas);
    gl_renderer::law_scale_mode_names_read_back(ScaleMode::Fsr);
    gl_renderer::law_scale_mode_names_read_back(ScaleMode::IntegerFsr);
    reveal_strlit("nearest");
    reveal_strlit("sharp_bilinear");
    reveal_strlit("bicubic");
    reveal_strlit("lanczos");
    assert("sharp_bilinear"@.len() == 14 && "nearest"@.len() == 7);
    assert("bicubic"@[0] == 'b' && "lanczos"@[0] == 'l' && "nearest"@[0] == 'n');
}

/// Pixels stay sharp in the nearest mode and in the two of whole factors, and are
/// filtered in the others. Only nearest and bilinear draw to the window at once;
/// the edge-adaptive shaders are used in their own two modes, where they are
/// there.
pub proof fn law_scale_mode_kinds(m: ScaleMode, has_fsr: bool)
    ensures
        !ScaleMode::Nearest.filters() && !ScaleMode::IntegerScale.filters()
            && !ScaleMode::IntegerFsr.filters(),
        ScaleMode::Bilinear.filters() && ScaleMode::Cas.filters() && ScaleMode::Fsr.filters(),
        gl_renderer::final_pass(m, has_fsr) == FinalPass::Direct <==> m == ScaleMode::Nearest || m
            == ScaleMode::Bilinear,
        gl_renderer::final_pass(m, has_fsr) == FinalPass::Fsr <==> m == ScaleMode::Fsr && has_fsr,
        gl_renderer::final_pass(m, has_fsr) == FinalPass::IntegerFsr <==> m == ScaleMode::IntegerFsr
            && has_fsr,
{
}

/// With the edge-adaptive shaders a frame is turned into RGB, scaled along its
/// edges and sharpened, in this order; with a whole factor it is copied instead of
/// scaled along edges; and without sharpness the last pass copies.
pub proof fn law_sharpened_frames(
    r: GlRenderer,
    win_w: u32,
    win_h: u32,
    shaped: Placement,
    whole: Placement,
)
    requires
        r.has_fsr,
        r.scale_mode == ScaleMode::Fsr || r.scale_mode == ScaleMode::IntegerFsr,
    ensures
        ({
            let p = gl_passes::frame_passes(r, win_w, win_h, shaped, whole);
            let at = if r.scale_mode == ScaleMode::Fsr {
                shaped
            } else {
                whole
            };
            &&& p.len() == 3
            &&& p[0].target == Target::Scale && p[0].source == Source::Frame && p[0].viewport.width
                == r.width && p[0].viewport.height == r.height
            &&& p[1].target == Target::Sharp && p[1].source == Source::Scale && p[1].viewport.width
                == at.width && p[1].viewport.height == at.height && p[1].viewport.x == 0
                && p[1].viewport.y == 0
            &&& p[1].program == Program::Easu <==> r.scale_mode == ScaleMode::Fsr
            &&& p[1].program == Program::Passthrough <==> r.scale_mode == ScaleMode::IntegerFsr
            &&& p[2].source == Source::Sharp && p[2].viewport == at
            &&& p[2].program == Program::Rcas <==> r.sharpness > 0
            &&& p[2].program == Program::Passthrough <==> r.sharpness == 0
            &&& p[1].filter == Some(
                if r.scale_mode == ScaleMode::Fsr {
                    0x2601u32
                } else {
                    0x2600u32
                },
            )
        }),
{
}

/// How the last pass of the other two-pass modes reads: filtered, but for whole
/// factors, at the window's size.
pub proof fn law_texture_pass(
    r: GlRenderer,
    source: Source,
    w: u32,
    h: u32,
    win_w: u32,
    win_h: u32,
)
    ensures
        ({
            let p = gl_passes::texture_pass(r, source, w, h, win_w, win_h);
            &&& p.target == Target::Window && p.clear && p.adjust && !p.contrast
            &&& p.source == source
            &&& p.viewport.width == win_w && p.viewport.height == win_h && p.viewport.x == 0
                && p.viewport.y == 0
            &&& p.program == Program::Cas <==> r.scale_mode == ScaleMode::Cas
            &&& p.filter == Some(0x2600u32) <==> r.scale_mode == ScaleMode::Nearest || r.scale_mode
                == ScaleMode::IntegerScale || r.scale_mode == ScaleMode::IntegerFsr
            &&& p.filter == Some(0x2601u32) <==> r.scale_mode == ScaleMode::Bilinear || r.scale_mode
                == ScaleMode::Cas || r.scale_mode == ScaleMode::Fsr
        }),
{
}

/// What is moved by half of the room that is left stands in the middle, give or
/// take one pixel; where there is no room it reaches over both edges alike.
pub proof fn law_half_is_the_middle(d: int)
    ensures
        -1 <= d - 2 * gl_renderer::half(d) <= 1,
        gl_renderer::half(-d) == -gl_renderer::half(d),
        d >= 0 ==> gl_renderer::half(d) >= 0,
{
}

/// One character more is drawn behind those before it, where the font has it, and
/// leaves its place empty where not.
pub proof fn law_one_more_glyph(s: Seq<char>, c: char, x: int, advance: int, first: int, last: int)
    requires
        0 <= first,
        0 <= x + s.len() * advance <= i32::MAX,
    ensures
        ({
            let before = gl_renderer::glyphs(s, x, advance, first, last);
            let after = gl_renderer::glyphs(s.push(c), x, advance, first, last);
            &&& first <= c as u32 <= last ==> after.len() == before.len() + 1 && after.drop_last()
                == before && after.last().index == c as u32 - first && after.last().x == x + s.len()
                * advance
            &&& !(first <= c as u32 <= last) ==> after == before
        }),
        gl_renderer::glyphs(Seq::empty(), x, advance, first, last).len() == 0,
{
    assert(s.push(c).drop_last() =~= s);
    let before = gl_renderer::glyphs(s, x, advance, first, last);
    let after = gl_renderer::glyphs(s.push(c), x, advance, first, last);
    if first <= c as u32 <= last {
        assert(after.drop_last() =~= before);
    }
}

/// A text that the font has is drawn character by character, each at its own place
/// in the font and one advance behind the one before.
pub proof fn law_glyphs_stand_in_order(
    s: Seq<char>,
    x: int,
    advance: int,
    first: int,
    last: int,
    i: int,
)
    requires
        0 <= first,
        0 <= x,
        0 <= advance,
        x + s.len() * advance <= i32::MAX,
        forall|k: int| 0 <= k < s.len() ==> first <= #[trigger] s[k] as u32 <= last,
        0 <= i < s.len(),
    ensures
        gl_renderer::glyphs(s, x, advance, first, last).len() == s.len(),
        gl_renderer::glyphs(s, x, advance, first, last)[i].index == s[i] as u32 - first,
        gl_renderer::glyphs(s, x, advance, first, last)[i].x == x + i * advance,
    decreases s.len(),
{
    let d = s.drop_last();
    assert(s.len() * advance == d.len() * advance + advance) by (nonlinear_arith)
        requires
            s.len() == d.len() + 1,
    ;
    assert(0 <= i * advance <= s.len() * advance) by (nonlinear_arith)
        requires
            0 <= i <= s.len(),
            0 <= advance,
    ;
    assert(0 <= d.len() * advance) by (nonlinear_arith)
        requires
            0 <= advance,
    ;
    assert(first <= s[s.len() - 1] as u32 <= last);
    if d.len() > 0 {
        assert forall|k: int| 0 <= k < d.len() implies first <= #[trigger] d[k] as u32 <= last by {
            assert(d[k] == s[k]);
        }
        law_glyphs_stand_in_order(
            d,
            x,
            advance,
            first,
            last,
            if i < d.len() {
                i
            } else {
                0
            },
        );
    } else {
        assert(gl_renderer::glyphs(d, x, advance, first, last) =~= Seq::<Glyph>::empty());
    }
}

} // verus!
