//! The passes by which OpenGL draws a frame.

use vstd::prelude::*;

use crate::config::AspectMode;
use crate::gl_renderer;
use crate::gl_renderer::FinalPass;
use crate::gl_renderer::GlRenderer;
use crate::gl_renderer::Placement;
use crate::gl_renderer::ScaleMode;
use crate::gl_renderer::Shader;

verus! {

/// What a pass draws into.
#[derive(Clone, Copy, Debug, PartialEq, Eq, Structural)]
pub enum Target {
    Window,
    /// A picture of the capture's size.
    Scale,
    /// A picture of the size that is shown.
    Sharp,
}

/// What a pass reads.
#[derive(Clone, Copy, Debug, PartialEq, Eq, Structural)]
pub enum Source {
    /// The textures of the captured frame.
    Frame,
    /// What was drawn into `Target::Scale`.
    Scale,
    /// What was drawn into `Target::Sharp`.
    Sharp,
    /// A generated frame.
    Generated,
}

/// What a pass runs.
#[derive(Clone, Copy, Debug, PartialEq, Eq, Structural)]
pub enum Program {
    /// Turns a captured format into RGB; nothing where the format is not known.
    Convert(Option<Shader>),
    /// Copies.
    Passthrough,
    /// Sharpens by contrast.
    Cas,
    /// Scales along edges.
    Easu,
    /// Sharpens what was scaled.
    Rcas,
}

/// The part of the viewport that is drawn to.
#[derive(Clone, Copy, Debug, PartialEq, Eq, Structural)]
pub enum Cover {
    All,
    /// As the aspect mode asks for a picture of this size.
    Shaped { w: u32, h: u32 },
    /// The middle, in this size.
    Middle { w: u32, h: u32 },
}

/// One pass.
#[derive(Clone, Copy, Debug, PartialEq, Eq, Structural)]
pub struct Pass {
    pub target: Target,
    /// Whether the whole target is cleared before.
    pub clear: bool,
    /// Where it draws.
    pub viewport: Placement,
    pub cover: Cover,
    pub program: Program,
    pub source: Source,
    /// How the source is read, where that is set.
    pub filter: Option<u32>,
    /// Whether contrast is worked in.
    pub contrast: bool,
    /// Whether brightness and gamma are worked in.
    pub adjust: bool,
}

/// A viewport at the corner.
pub open spec fn corner(w: u32, h: u32) -> Placement {
    Placement { width: w, height: h, x: 0, y: 0 }
}

/// The pass that brings a picture to the window.
pub open spec fn texture_pass(
    r: GlRenderer,
    source: Source,
    w: u32,
    h: u32,
    win_w: u32,
    win_h: u32,
) -> Pass {
    let whole = r.scale_mode == ScaleMode::IntegerScale && r.aspect_mode == AspectMode::Preserve;
    let f = gl_renderer::whole_factor(w, h, win_w, win_h);
    Pass {
        target: Target::Window,
        clear: true,
        viewport: corner(win_w, win_h),
        cover: if whole {
            Cover::Middle { w: (w * f) as u32, h: (h * f) as u32 }
        } else {
            Cover::Shaped { w, h }
        },
        program: if r.scale_mode == ScaleMode::Cas {
            Program::Cas
        } else {
            Program::Passthrough
        },
        source,
        filter: Some(
            if r.scale_mode.filters() {
                gl_renderer::GL_LINEAR
            } else {
                gl_renderer::GL_NEAREST
            },
        ),
        contrast: false,
        adjust: true,
    }
}

/// The passes that scale and sharpen what was drawn into `Target::Scale`: one
/// into `Target::Sharp` and one from there to a place in the window.
pub open spec fn sharp_passes(r: GlRenderer, edges: bool, at: Placement) -> Seq<Pass> {
    seq![
        Pass {
            target: Target::Sharp,
            clear: false,
            viewport: corner(at.width, at.height),
            cover: Cover::All,
            program: if edges {
                Program::Easu
            } else {
                Program::Passthrough
            },
            source: Source::Scale,
            filter: Some(
                if edges {
                    gl_renderer::GL_LINEAR
                } else {
                    gl_renderer::GL_NEAREST
                },
            ),
            contrast: false,
            adjust: false,
        },
        Pass {
            target: Target::Window,
            clear: true,
            viewport: at,
            cover: Cover::All,
            program: if r.sharpness == 0 {
                Program::Passthrough
            } else {
                Program::Rcas
            },
            source: Source::Sharp,
            filter: Some(
                if edges && r.sharpness == 0 {
                    gl_renderer::GL_LINEAR
                } else {
                    gl_renderer::GL_NEAREST
                },
            ),
            contrast: false,
            adjust: true,
        },
    ]
}

/// The pass that turns the captured frame into RGB.
pub open spec fn first_pass(r: GlRenderer, win_w: u32, win_h: u32) -> Pass {
    let two = r.scale_mode.two_pass();
    Pass {
        target: if two {
            Target::Scale
        } else {
            Target::Window
        },
        clear: true,
        viewport: if two {
            corner(r.width, r.height)
        } else {
            corner(win_w, win_h)
        },
        cover: if two {
            Cover::All
        } else {
            Cover::Shaped { w: r.width, h: r.height }
        },
        program: Program::Convert(gl_renderer::shader_of(r.pixfmt)),
        source: Source::Frame,
        filter: None,
        contrast: true,
        adjust: !two,
    }
}

/// The passes that draw a captured frame. `shaped` is where the aspect mode puts
/// a picture of the capture's size, `whole` where it goes by a whole factor.
pub open spec fn frame_passes(
    r: GlRenderer,
    win_w: u32,
    win_h: u32,
    shaped: Placement,
    whole: Placement,
) -> Seq<Pass> {
    let first = seq![first_pass(r, win_w, win_h)];
    match gl_renderer::final_pass(r.scale_mode, r.has_fsr) {
        FinalPass::Direct => first,
        FinalPass::Fsr => first + sharp_passes(r, true, shaped),
        FinalPass::IntegerFsr => first + sharp_passes(r, false, whole),
        FinalPass::Texture => first.push(
            texture_pass(r, Source::Scale, r.width, r.height, win_w, win_h),
        ),
    }
}

fn at_corner(w: u32, h: u32) -> (r: Placement)
    ensures
        r == corner(w, h),
{
    Placement { width: w, height: h, x: 0, y: 0 }
}

impl GlRenderer {
    fn reading(&self) -> (r: u32)
        ensures
            r == (if self.scale_mode.filters() {
                gl_renderer::GL_LINEAR
            } else {
                gl_renderer::GL_NEAREST
            }),
    {
        match self.scale_mode {
            ScaleMode::Nearest => gl_renderer::GL_NEAREST,
            ScaleMode::IntegerScale => gl_renderer::GL_NEAREST,
            ScaleMode::IntegerFsr => gl_renderer::GL_NEAREST,
            _ => gl_renderer::GL_LINEAR,
        }
    }

    /// Plans the pass that brings a picture, such as a generated frame, to the
    /// window.
    pub fn render_texture(&self, source: Source, w: u32, h: u32, win_w: u32, win_h: u32) -> (r: Pass)
        ensures
            r == texture_pass(*self, source, w, h, win_w, win_h),
    {
        let cover = if self.scale_mode == ScaleMode::IntegerScale && self.aspect_mode
            == AspectMode::Preserve {
            let size = gl_renderer::whole_size(w, h, win_w, win_h);
            Cover::Middle { w: size.0, h: size.1 }
        } else {
            Cover::Shaped { w, h }
        };
        Pass {
            target: Target::Window,
            clear: true,
            viewport: at_corner(win_w, win_h),
            cover,
            program: if self.scale_mode == ScaleMode::Cas {
                Program::Cas
            } else {
                Program::Passthrough
            },
            source,
            filter: Some(self.reading()),
            contrast: false,
            adjust: true,
        }
    }

    /// Plans the two passes that scale and sharpen.
    pub fn render_sharp(&self, edges: bool, at: Placement) -> (r: Vec<Pass>)
        ensures
            r@ == sharp_passes(*self, edges, at),
    {
        let mut out: Vec<Pass> = Vec::new();
        out.push(
            Pass {
                target: Target::Sharp,
                clear: false,
                viewport: at_corner(at.width, at.height),
                cover: Cover::All,
                program: if edges {
                    Program::Easu
                } else {
                    Program::Passthrough
                },
                source: Source::Scale,
                filter: Some(
                    if edges {
                        gl_renderer::GL_LINEAR
                    } else {
                        gl_renderer::GL_NEAREST
                    },
                ),
                contrast: false,
                adjust: false,
            },
        );
        out.push(
            Pass {
                target: Target::Window,
                clear: true,
                viewport: at,
                cover: Cover::All,
                program: if self.sharpness == 0 {
                    Program::Passthrough
                } else {
                    Program::Rcas
                },
                source: Source::Sharp,
                filter: Some(
                    if edges && self.sharpness == 0 {
                        gl_renderer::GL_LINEAR
                    } else {
                        gl_renderer::GL_NEAREST
                    },
                ),
                contrast: false,
                adjust: true,
            },
        );
        assert(out@ =~= sharp_passes(*self, edges, at));
        out
    }

    /// Plans the passes that draw a captured frame.
    pub fn render(&self, win_w: u32, win_h: u32, shaped: Placement, whole: Placement) -> (r: Vec<
        Pass,
    >)
        ensures
            r@ == frame_passes(*self, win_w, win_h, shaped, whole),
    {
        let two = match self.scale_mode {
            ScaleMode::Nearest => false,
            ScaleMode::Bilinear => false,
            _ => true,
        };
        let mut out: Vec<Pass> = Vec::new();
        out.push(
            Pass {
                target: if two {
                    Target::Scale
                } else {
                    Target::Window
                },
                clear: true,
                viewport: if two {
                    at_corner(self.width, self.height)
                } else {
                    at_corner(win_w, win_h)
                },
                cover: if two {
                    Cover::All
                } else {
                    Cover::Shaped { w: self.width, h: self.height }
                },
                program: Program::Convert(gl_renderer::shader_for(self.pixfmt)),
                source: Source::Frame,
                filter: None,
                contrast: true,
                adjust: !two,
            },
        );
        match self.final_pass() {
            FinalPass::Direct => {},
            FinalPass::Fsr => {
                let mut rest = self.render_sharp(true, shaped);
                out.append(&mut rest);
            },
            FinalPass::IntegerFsr => {
                let mut rest = self.render_sharp(false, whole);
                out.append(&mut rest);
            },
            FinalPass::Texture => {
                out.push(
                    self.render_texture(Source::Scale, self.width, self.height, win_w, win_h),
                );
            },
        }
        assert(out@ =~= frame_passes(*self, win_w, win_h, shaped, whole));
        out
    }
}

/// However a frame is scaled, its last pass and no other draws to the window,
/// which is cleared first, and there and nowhere else brightness and gamma are
/// worked in.
pub proof fn law_frame_is_adjusted_once(
    r: GlRenderer,
    win_w: u32,
    win_h: u32,
    shaped: Placement,
    whole: Placement,
)
    ensures
        ({
            let p = frame_passes(r, win_w, win_h, shaped, whole);
            &&& 1 <= p.len() <= 3
            &&& forall|i: int|
                0 <= i < p.len() ==> ((#[trigger] p[i]).target == Target::Window <==> i == p.len()
                    - 1)
            &&& forall|i: int| 0 <= i < p.len() ==> ((#[trigger] p[i]).adjust <==> i == p.len() - 1)
            &&& p.last().clear
        }),
{
}

/// However a frame is scaled, contrast is worked in exactly once, by the pass that
/// turns the captured format into RGB. That pass is the first, and no other does
/// so.
pub proof fn law_contrast_is_worked_in_once(
    r: GlRenderer,
    win_w: u32,
    win_h: u32,
    shaped: Placement,
    whole: Placement,
)
    ensures
        ({
            let p = frame_passes(r, win_w, win_h, shaped, whole);
            &&& p[0].contrast
            &&& p[0].program == Program::Convert(gl_renderer::shader_of(r.pixfmt))
            &&& forall|i: int| 0 <= i < p.len() ==> ((#[trigger] p[i]).contrast <==> i == 0)
            &&& forall|i: int| 0 <= i < p.len() ==> ((#[trigger] p[i]).program is Convert <==> i == 0)
        }),
{
}

/// Only nearest and bilinear draw a captured frame in one pass. Of the others, CAS
/// sharpens in a last pass of its own, and a whole factor, where the shape is kept,
/// is that of the last pass.
pub proof fn law_other_modes_scale_in_a_pass(
    r: GlRenderer,
    win_w: u32,
    win_h: u32,
    shaped: Placement,
    whole: Placement,
)
    ensures
        ({
            let p = frame_passes(r, win_w, win_h, shaped, whole);
            let f = gl_renderer::whole_factor(r.width, r.height, win_w, win_h);
            &&& p.len() == 1 <==> (r.scale_mode == ScaleMode::Nearest || r.scale_mode
                == ScaleMode::Bilinear)
            &&& p.last().program == Program::Cas <==> r.scale_mode == ScaleMode::Cas
            &&& (r.scale_mode == ScaleMode::IntegerScale && r.aspect_mode == AspectMode::Preserve)
                ==> p.last().cover == (Cover::Middle {
                w: (r.width * f) as u32,
                h: (r.height * f) as u32,
            })
        }),
{
}

/// Whether an earlier pass has drawn what is read.
pub open spec fn drawn_before(p: Seq<Pass>, i: int) -> bool {
    match p[i].source {
        Source::Frame => true,
        Source::Generated => true,
        Source::Scale => exists|j: int| 0 <= j < i && (#[trigger] p[j]).target == Target::Scale,
        Source::Sharp => exists|j: int| 0 <= j < i && (#[trigger] p[j]).target == Target::Sharp,
    }
}

/// No pass reads what no earlier pass of the same frame has drawn.
pub proof fn law_passes_read_what_was_drawn(
    r: GlRenderer,
    win_w: u32,
    win_h: u32,
    shaped: Placement,
    whole: Placement,
    i: int,
)
    requires
        0 <= i < frame_passes(r, win_w, win_h, shaped, whole).len(),
    ensures
        drawn_before(frame_passes(r, win_w, win_h, shaped, whole), i),
{
    let p = frame_passes(r, win_w, win_h, shaped, whole);
    assert(p[0] == first_pass(r, win_w, win_h));
    match gl_renderer::final_pass(r.scale_mode, r.has_fsr) {
        FinalPass::Direct => {},
        FinalPass::Texture => {
            assert(p[0].target == Target::Scale);
        },
        _ => {
            assert(p[0].target == Target::Scale);
            assert(p[1].target == Target::Sharp);
        },
    }
}

/// The picture of the size that is shown, which is made anew where that changes.
#[derive(Clone, Copy, Debug, PartialEq, Eq, Structural)]
pub struct SharpTarget {
    pub made: bool,
    pub w: u32,
    pub h: u32,
}

impl SharpTarget {
    /// Asks for a size and tells whether the picture has to be made anew.
    pub fn ensure(&mut self, w: u32, h: u32) -> (r: bool)
        ensures
            r == !(old(self).made && old(self).w == w && old(self).h == h),
            *final(self) == (SharpTarget { made: true, w, h }),
    {
        let anew = !(self.made && self.w == w && self.h == h);
        self.made = true;
        self.w = w;
        self.h = h;
        anew
    }
}

/// A texture that a program reads, and the unit that it is read from.
pub struct Sampler {
    pub name: &'static str,
    pub unit: i32,
}

/// The textures that a program reads.
pub open spec fn reads(p: Program) -> Seq<(Seq<char>, i32)> {
    match p {
        Program::Convert(Some(Shader::Nv12)) => seq![("uTexY"@, 0i32), ("uTexUV"@, 1i32)],
        Program::Convert(Some(Shader::P010)) => seq![("uTexY"@, 0i32), ("uTexUV"@, 1i32)],
        _ => seq![("uTex"@, 0i32)],
    }
}

/// Lists the textures that a program reads.
pub fn samplers(p: Program) -> (r: Vec<Sampler>)
    ensures
        r@.map_values(|s: Sampler| (s.name@, s.unit)) == reads(p),
{
    let mut out: Vec<Sampler> = Vec::new();
    let planar = match p {
        Program::Convert(Some(Shader::Nv12)) => true,
        Program::Convert(Some(Shader::P010)) => true,
        _ => false,
    };
    if planar {
        out.push(Sampler { name: "uTexY", unit: 0 });
        out.push(Sampler { name: "uTexUV", unit: 1 });
    } else {
        out.push(Sampler { name: "uTex", unit: 0 });
    }
    assert(out@.map_values(|s: Sampler| (s.name@, s.unit)) =~= reads(p));
    out
}

} // verus!
