//! The OpenGL renderer: scaling modes, which textures a capture format needs,
//! what is uploaded where, and which passes draw a frame.

use vstd::prelude::*;

use crate::capture;
use crate::config::AspectMode;
use crate::text;

verus! {

/// How the picture is scaled to the window.
#[derive(Clone, Copy, Debug, PartialEq, Eq, Structural)]
pub enum ScaleMode {
    Nearest,
    Bilinear,
    /// By a whole factor.
    IntegerScale,
    /// Bilinear, then sharpened.
    Cas,
    /// Edge-adaptive, then sharpened.
    Fsr,
    /// By a whole factor, then sharpened.
    IntegerFsr,
}

impl ScaleMode {
    /// The place of a mode in the menu.
    pub open spec fn place(self) -> int {
        match self {
            ScaleMode::Nearest => 0,
            ScaleMode::Bilinear => 1,
            ScaleMode::IntegerScale => 2,
            ScaleMode::Cas => 3,
            ScaleMode::Fsr => 4,
            ScaleMode::IntegerFsr => 5,
        }
    }

    /// The mode at a place in the menu; bilinear beyond the last.
    pub open spec fn at(i: int) -> ScaleMode {
        if i == 0 {
            ScaleMode::Nearest
        } else if i == 2 {
            ScaleMode::IntegerScale
        } else if i == 3 {
            ScaleMode::Cas
        } else if i == 4 {
            ScaleMode::Fsr
        } else if i == 5 {
            ScaleMode::IntegerFsr
        } else {
            ScaleMode::Bilinear
        }
    }

    /// The name of a mode in the configuration file.
    pub open spec fn name(self) -> Seq<char> {
        match self {
            ScaleMode::Nearest => "nearest"@,
            ScaleMode::Bilinear => "bilinear"@,
            ScaleMode::IntegerScale => "integer_scale"@,
            ScaleMode::Cas => "cas"@,
            ScaleMode::Fsr => "fsr"@,
            ScaleMode::IntegerFsr => "integer_fsr"@,
        }
    }

    /// The mode of a name in the configuration file. Names of modes that are no
    /// longer there stand for bilinear.
    pub open spec fn named(s: Seq<char>) -> Option<ScaleMode> {
        if s == "nearest"@ {
            Some(ScaleMode::Nearest)
        } else if s == "bilinear"@ || s == "sharp_bilinear"@ || s == "bicubic"@ || s
            == "lanczos"@ {
            Some(ScaleMode::Bilinear)
        } else if s == "integer_scale"@ {
            Some(ScaleMode::IntegerScale)
        } else if s == "cas"@ {
            Some(ScaleMode::Cas)
        } else if s == "fsr"@ {
            Some(ScaleMode::Fsr)
        } else if s == "integer_fsr"@ {
            Some(ScaleMode::IntegerFsr)
        } else {
            None
        }
    }

    /// The name that the menu shows.
    pub fn label(self) -> (r: &'static str)
        ensures
            r@ == (match self {
                ScaleMode::Nearest => "Nearest"@,
                ScaleMode::Bilinear => "Bilinear"@,
                ScaleMode::IntegerScale => "Integer"@,
                ScaleMode::Cas => "CAS"@,
                ScaleMode::Fsr => "FSR"@,
                ScaleMode::IntegerFsr => "Integer+FSR"@,
            }),
    {
        match self {
            ScaleMode::Nearest => "Nearest",
            ScaleMode::Bilinear => "Bilinear",
            ScaleMode::IntegerScale => "Integer",
            ScaleMode::Cas => "CAS",
            ScaleMode::Fsr => "FSR",
            ScaleMode::IntegerFsr => "Integer+FSR",
        }
    }

    /// The mode at a place in the menu; bilinear beyond the last.
    pub fn from_index(i: usize) -> (r: ScaleMode)
        ensures
            r == ScaleMode::at(i as int),
    {
        match i {
            0 => ScaleMode::Nearest,
            2 => ScaleMode::IntegerScale,
            3 => ScaleMode::Cas,
            4 => ScaleMode::Fsr,
            5 => ScaleMode::IntegerFsr,
            _ => ScaleMode::Bilinear,
        }
    }

    /// The place of a mode in the menu.
    pub fn index(self) -> (r: usize)
        ensures
            r == self.place(),
            r < 6,
    {
        match self {
            ScaleMode::Nearest => 0,
            ScaleMode::Bilinear => 1,
            ScaleMode::IntegerScale => 2,
            ScaleMode::Cas => 3,
            ScaleMode::Fsr => 4,
            ScaleMode::IntegerFsr => 5,
        }
    }

    /// The name of a mode in the configuration file.
    pub fn config_name(self) -> (r: &'static str)
        ensures
            r@ == self.name(),
    {
        match self {
            ScaleMode::Nearest => "nearest",
            ScaleMode::Bilinear => "bilinear",
            ScaleMode::IntegerScale => "integer_scale",
            ScaleMode::Cas => "cas",
            ScaleMode::Fsr => "fsr",
            ScaleMode::IntegerFsr => "integer_fsr",
        }
    }

    /// Reads the name of a mode.
    pub fn from_config(s: &str) -> (r: Option<ScaleMode>)
        ensures
            r == ScaleMode::named(s@),
    {
        if text::same(s, "nearest") {
            Some(ScaleMode::Nearest)
        } else if text::same(s, "bilinear") || text::same(s, "sharp_bilinear") || text::same(
            s,
            "bicubic",
        ) || text::same(s, "lanczos") {
            Some(ScaleMode::Bilinear)
        } else if text::same(s, "integer_scale") {
            Some(ScaleMode::IntegerScale)
        } else if text::same(s, "cas") {
            Some(ScaleMode::Cas)
        } else if text::same(s, "fsr") {
            Some(ScaleMode::Fsr)
        } else if text::same(s, "integer_fsr") {
            Some(ScaleMode::IntegerFsr)
        } else {
            None
        }
    }

    /// Whether the mode can be sharpened.
    pub fn has_sharpness(self) -> (r: bool)
        ensures
            r == (self == ScaleMode::Cas || self == ScaleMode::Fsr || self
                == ScaleMode::IntegerFsr),
    {
        match self {
            ScaleMode::Cas => true,
            ScaleMode::Fsr => true,
            ScaleMode::IntegerFsr => true,
            _ => false,
        }
    }

    /// Whether the mode needs shaders.
    pub fn requires_shader(self) -> (r: bool)
        ensures
            r == (self != ScaleMode::Nearest && self != ScaleMode::Bilinear),
    {
        match self {
            ScaleMode::Nearest => false,
            ScaleMode::Bilinear => false,
            _ => true,
        }
    }

    /// Whether pictures are filtered in this mode.
    pub open spec fn filters(self) -> bool {
        self != ScaleMode::Nearest && self != ScaleMode::IntegerScale && self
            != ScaleMode::IntegerFsr
    }

    /// Whether a frame is drawn at capture size first and scaled then.
    pub open spec fn two_pass(self) -> bool {
        self != ScaleMode::Nearest && self != ScaleMode::Bilinear
    }
}

/// Place and mode determine each other.
pub proof fn law_scale_mode_places(m: ScaleMode, i: int)
    ensures
        ScaleMode::at(m.place()) == m,
        0 <= i < 6 ==> ScaleMode::at(i).place() == i,
{
}

/// The name written for a mode reads back as the mode.
pub proof fn law_scale_mode_names_read_back(m: ScaleMode)
    ensures
        ScaleMode::named(m.name()) == Some(m),
{
    reveal_strlit("nearest");
    reveal_strlit("bilinear");
    reveal_strlit("sharp_bilinear");
    reveal_strlit("bicubic");
    reveal_strlit("lanczos");
    reveal_strlit("integer_scale");
    reveal_strlit("cas");
    reveal_strlit("fsr");
    reveal_strlit("integer_fsr");
    assert("nearest"@.len() == 7 && "bicubic"@.len() == 7 && "lanczos"@.len() == 7);
    assert("bilinear"@.len() == 8 && "integer_fsr"@.len() == 11 && "integer_scale"@.len() == 13);
    assert("sharp_bilinear"@.len() == 14 && "cas"@.len() == 3 && "fsr"@.len() == 3);
    assert("cas"@[0] == 'c' && "fsr"@[0] == 'f');
}

/// The vertex shader of the two-pass modes: it fills the whole target.
pub const FSR_VERT_SRC: &'static str = "#version 410\n\
in vec2 aPos;\n\
in vec2 aUV;\n\
out vec2 vUV;\n\
void main() {\n\
    gl_Position = vec4(aPos * 2.0 - 1.0, 0.0, 1.0);\n\
    vUV = aUV;\n\
}\n";

/// What the upscaling shader adds to the library it is built on.
pub const FSR_EASU_WRAPPER: &'static str = "\
uniform sampler2D uTex;\n\
uniform uvec4 uCon0;\n\
uniform uvec4 uCon1;\n\
uniform uvec4 uCon2;\n\
uniform uvec4 uCon3;\n\
out vec4 fragColor;\n\
// Emulate textureGather with texelFetch for Intel iGPU compatibility.\n\
// textureGather returns the 2x2 bilinear footprint in order:\n\
//   .x = (i0, j1)  left-upper\n\
//   .y = (i1, j1)  right-upper\n\
//   .z = (i1, j0)  right-lower\n\
//   .w = (i0, j0)  left-lower\n\
AF4 FsrEasuRF(AF2 p) {\n\
    ivec2 b = ivec2(floor(p * vec2(textureSize(uTex, 0)) - 0.5));\n\
    return AF4(\n\
        texelFetch(uTex, b + ivec2(0,1), 0).r,\n\
        texelFetch(uTex, b + ivec2(1,1), 0).r,\n\
        texelFetch(uTex, b + ivec2(1,0), 0).r,\n\
        texelFetch(uTex, b              , 0).r);}\n\
AF4 FsrEasuGF(AF2 p) {\n\
    ivec2 b = ivec2(floor(p * vec2(textureSize(uTex, 0)) - 0.5));\n\
    return AF4(\n\
        texelFetch(uTex, b + ivec2(0,1), 0).g,\n\
        texelFetch(uTex, b + ivec2(1,1), 0).g,\n\
        texelFetch(uTex, b + ivec2(1,0), 0).g,\n\
        texelFetch(uTex, b              , 0).g);}\n\
AF4 FsrEasuBF(AF2 p) {\n\
    ivec2 b = ivec2(floor(p * vec2(textureSize(uTex, 0)) - 0.5));\n\
    return AF4(\n\
        texelFetch(uTex, b + ivec2(0,1), 0).b,\n\
        texelFetch(uTex, b + ivec2(1,1), 0).b,\n\
        texelFetch(uTex, b + ivec2(1,0), 0).b,\n\
        texelFetch(uTex, b              , 0).b);}\n\
void main() {\n\
    AU2 ip = AU2(gl_FragCoord.xy);\n\
    AF3 c;\n\
    FsrEasuF(c, ip, uCon0, uCon1, uCon2, uCon3);\n\
    fragColor = vec4(c, 1.0);\n\
}\n";

/// What the sharpening shader adds to the library it is built on.
pub const FSR_RCAS_WRAPPER: &'static str = "\
uniform sampler2D uTex;\n\
uniform uvec4 uRcasCon;\n\
uniform float uBrightness;\n\
uniform float uInvGamma;\n\
uniform vec2 uViewportOrigin;\n\
out vec4 fragColor;\n\
AF4 FsrRcasLoadF(ASU2 p) { return texelFetch(uTex, ivec2(p), 0); }\n\
void FsrRcasInputF(inout AF1 r, inout AF1 g, inout AF1 b) {}\n\
void main() {\n\
    AU2 ip = AU2(gl_FragCoord.xy - uViewportOrigin);\n\
    AF1 r, g, b;\n\
    FsrRcasF(r, g, b, ip, uRcasCon);\n\
    vec3 c = pow(vec3(r, g, b) * uBrightness, vec3(uInvGamma));\n\
    fragColor = vec4(c, 1.0);\n\
}\n";

/// Packing functions that older shader versions lack.
pub const PACK_POLYFILL: &'static str = "\
#if __VERSION__ < 420\n\
uint packHalf2x16(vec2 v){return uint(v.x*65535.0);}\n\
vec2 unpackHalf2x16(uint v){return vec2(float(v)/65535.0,0.0);}\n\
uint packUnorm2x16(vec2 v){return uint(v.x*65535.0)|(uint(v.y*65535.0)<<16);}\n\
vec2 unpackUnorm2x16(uint v){return vec2(float(v&0xFFFFu)/65535.0,float(v>>16)/65535.0);}\n\
uint packUnorm4x8(vec4 v){return uint(v.x*255.0)|(uint(v.y*255.0)<<8)|(uint(v.z*255.0)<<16)|(uint(v.w*255.0)<<24);}\n\
vec4 unpackUnorm4x8(uint v){return vec4(float(v&0xFFu)/255.0,float((v>>8)&0xFFu)/255.0,float((v>>16)&0xFFu)/255.0,float(v>>24)/255.0);}\n\
#endif\n";

/// The text of a shader: version, packing functions, the two files of the
/// library with the part to use switched on between them, and what is added.
pub open spec fn shader_text(
    version: Seq<char>,
    ffx_a: Seq<char>,
    switch: Seq<char>,
    ffx_fsr1: Seq<char>,
    wrapper: Seq<char>,
) -> Seq<char> {
    version + "#define A_GPU 1\n#define A_GLSL 1\n"@ + PACK_POLYFILL@ + ffx_a + switch + ffx_fsr1
        + "\n"@ + wrapper
}

fn build_shader(version: &str, ffx_a: &str, switch: &str, ffx_fsr1: &str, wrapper: &str) -> (r:
    String)
    ensures
        r@ == shader_text(version@, ffx_a@, switch@, ffx_fsr1@, wrapper@),
{
    let mut out = text::chars_of(version);
    text::extend(&mut out, text::chars_of("#define A_GPU 1\n#define A_GLSL 1\n").as_slice());
    text::extend(&mut out, text::chars_of(PACK_POLYFILL).as_slice());
    text::extend(&mut out, text::chars_of(ffx_a).as_slice());
    text::extend(&mut out, text::chars_of(switch).as_slice());
    text::extend(&mut out, text::chars_of(ffx_fsr1).as_slice());
    text::extend(&mut out, text::chars_of("\n").as_slice());
    text::extend(&mut out, text::chars_of(wrapper).as_slice());
    text::string_of(out.as_slice())
}

/// Builds the upscaling shader.
pub fn build_fsr_easu_frag(version: &str, ffx_a: &str, ffx_fsr1: &str) -> (r: String)
    ensures
        r@ == shader_text(
            version@,
            ffx_a@,
            "\n#define FSR_EASU_F 1\n"@,
            ffx_fsr1@,
            FSR_EASU_WRAPPER@,
        ),
{
    build_shader(version, ffx_a, "\n#define FSR_EASU_F 1\n", ffx_fsr1, FSR_EASU_WRAPPER)
}

/// Builds the sharpening shader.
pub fn build_fsr_rcas_frag(version: &str, ffx_a: &str, ffx_fsr1: &str) -> (r: String)
    ensures
        r@ == shader_text(
            version@,
            ffx_a@,
            "\n#define FSR_RCAS_F 1\n"@,
            ffx_fsr1@,
            FSR_RCAS_WRAPPER@,
        ),
{
    build_shader(version, ffx_a, "\n#define FSR_RCAS_F 1\n", ffx_fsr1, FSR_RCAS_WRAPPER)
}

/// The textures that a captured frame is put into.
#[derive(Clone, Copy, Debug, PartialEq, Eq, Structural)]
pub enum Slot {
    /// All of a packed format.
    Packed,
    /// The luma of a planar format.
    Y,
    /// The chroma of a planar format.
    Uv,
}

pub const GL_RED: u32 = 0x1903;

pub const GL_RGB: u32 = 0x1907;

pub const GL_RGBA: u32 = 0x1908;

pub const GL_BGRA: u32 = 0x80e1;

pub const GL_RG: u32 = 0x8227;

pub const GL_R8: u32 = 0x8229;

pub const GL_R16: u32 = 0x822a;

pub const GL_RG8: u32 = 0x822b;

pub const GL_RG16: u32 = 0x822c;

pub const GL_RGB8: u32 = 0x8051;

pub const GL_RGBA8: u32 = 0x8058;

pub const GL_UNSIGNED_BYTE: u32 = 0x1401;

pub const GL_UNSIGNED_SHORT: u32 = 0x1403;

pub const GL_NEAREST: u32 = 0x2600;

pub const GL_LINEAR: u32 = 0x2601;

/// One texture: what it holds and how its bytes are given.
#[derive(Clone, Copy, Debug, PartialEq, Eq, Structural)]
pub struct TextureSpec {
    pub slot: Slot,
    pub internal: u32,
    pub width: u32,
    pub height: u32,
    pub format: u32,
    pub kind: u32,
}

/// The textures that frames of a format need; none where the format is not
/// known.
pub open spec fn textures(pixfmt: u32, w: u32, h: u32) -> Seq<TextureSpec> {
    if pixfmt == capture::V4L2_PIX_FMT_YUYV || pixfmt == capture::V4L2_PIX_FMT_UYVY {
        seq![TextureSpec {
            slot: Slot::Packed,
            internal: GL_RGBA8,
            width: w / 2,
            height: h,
            format: GL_RGBA,
            kind: GL_UNSIGNED_BYTE,
        }]
    } else if pixfmt == capture::V4L2_PIX_FMT_NV12 {
        seq![
            TextureSpec {
                slot: Slot::Y,
                internal: GL_R8,
                width: w,
                height: h,
                format: GL_RED,
                kind: GL_UNSIGNED_BYTE,
            },
            TextureSpec {
                slot: Slot::Uv,
                internal: GL_RG8,
                width: w / 2,
                height: h / 2,
                format: GL_RG,
                kind: GL_UNSIGNED_BYTE,
            },
        ]
    } else if pixfmt == capture::V4L2_PIX_FMT_XRGB32 {
        seq![TextureSpec {
            slot: Slot::Packed,
            internal: GL_RGBA8,
            width: w,
            height: h,
            format: GL_BGRA,
            kind: GL_UNSIGNED_BYTE,
        }]
    } else if pixfmt == capture::V4L2_PIX_FMT_P010 {
        seq![
            TextureSpec {
                slot: Slot::Y,
                internal: GL_R16,
                width: w,
                height: h,
                format: GL_RED,
                kind: GL_UNSIGNED_SHORT,
            },
            TextureSpec {
                slot: Slot::Uv,
                internal: GL_RG16,
                width: w / 2,
                height: h / 2,
                format: GL_RG,
                kind: GL_UNSIGNED_SHORT,
            },
        ]
    } else if pixfmt == capture::PIXFMT_RGB24 {
        seq![TextureSpec {
            slot: Slot::Packed,
            internal: GL_RGB8,
            width: w,
            height: h,
            format: GL_RGB,
            kind: GL_UNSIGNED_BYTE,
        }]
    } else {
        Seq::empty()
    }
}

/// Lists the textures that frames of a format need.
pub fn texture_plan(pixfmt: u32, w: u32, h: u32) -> (r: Vec<TextureSpec>)
    ensures
        r@ == textures(pixfmt, w, h),
{
    let mut out: Vec<TextureSpec> = Vec::new();
    if pixfmt == capture::V4L2_PIX_FMT_YUYV || pixfmt == capture::V4L2_PIX_FMT_UYVY {
        out.push(
            TextureSpec {
                slot: Slot::Packed,
                internal: GL_RGBA8,
                width: w / 2,
                height: h,
                format: GL_RGBA,
                kind: GL_UNSIGNED_BYTE,
            },
        );
    } else if pixfmt == capture::V4L2_PIX_FMT_NV12 || pixfmt == capture::V4L2_PIX_FMT_P010 {
        let wide = pixfmt == capture::V4L2_PIX_FMT_P010;
        let kind: u32 = if wide {
            GL_UNSIGNED_SHORT
        } else {
            GL_UNSIGNED_BYTE
        };
        out.push(
            TextureSpec {
                slot: Slot::Y,
                internal: if wide {
                    GL_R16
                } else {
                    GL_R8
                },
                width: w,
                height: h,
                format: GL_RED,
                kind,
            },
        );
        out.push(
            TextureSpec {
                slot: Slot::Uv,
                internal: if wide {
                    GL_RG16
                } else {
                    GL_RG8
                },
                width: w / 2,
                height: h / 2,
                format: GL_RG,
                kind,
            },
        );
    } else if pixfmt == capture::V4L2_PIX_FMT_XRGB32 {
        out.push(
            TextureSpec {
                slot: Slot::Packed,
                internal: GL_RGBA8,
                width: w,
                height: h,
                format: GL_BGRA,
                kind: GL_UNSIGNED_BYTE,
            },
        );
    } else if pixfmt == capture::PIXFMT_RGB24 {
        out.push(
            TextureSpec {
                slot: Slot::Packed,
                internal: GL_RGB8,
                width: w,
                height: h,
                format: GL_RGB,
                kind: GL_UNSIGNED_BYTE,
            },
        );
    }
    assert(out@ =~= textures(pixfmt, w, h));
    out
}

/// The bytes of a frame that go into one texture.
#[derive(Clone, Copy, Debug, PartialEq, Eq, Structural)]
pub struct Upload {
    pub texture: TextureSpec,
    pub from: usize,
    pub to: usize,
}

/// How many bytes of luma a planar frame begins with.
pub open spec fn luma_bytes(pixfmt: u32, w: u32, h: u32) -> int {
    if pixfmt == capture::V4L2_PIX_FMT_P010 {
        2 * (w * h)
    } else {
        w * h
    }
}

/// Whether a format keeps luma and chroma apart.
pub open spec fn planar(pixfmt: u32) -> bool {
    pixfmt == capture::V4L2_PIX_FMT_NV12 || pixfmt == capture::V4L2_PIX_FMT_P010
}

/// What is uploaded of a frame: of a planar one the luma and the rest apart, of
/// any other all.
pub open spec fn uploads(pixfmt: u32, w: u32, h: u32, len: int) -> Seq<Upload> {
    let t = textures(pixfmt, w, h);
    if planar(pixfmt) {
        let cut = luma_bytes(pixfmt, w, h);
        seq![
            Upload { texture: t[0], from: 0, to: cut as usize },
            Upload { texture: t[1], from: cut as usize, to: len as usize },
        ]
    } else {
        Seq::new(t.len(), |i: int| Upload { texture: t[i], from: 0, to: len as usize })
    }
}

/// Plans the upload of a frame.
pub fn upload_plan(pixfmt: u32, w: u32, h: u32, len: usize) -> (r: Vec<Upload>)
    requires
        planar(pixfmt) ==> luma_bytes(pixfmt, w, h) <= len,
    ensures
        r@ == uploads(pixfmt, w, h, len as int),
{
    let t = texture_plan(pixfmt, w, h);
    let mut out: Vec<Upload> = Vec::new();
    if pixfmt == capture::V4L2_PIX_FMT_NV12 || pixfmt == capture::V4L2_PIX_FMT_P010 {
        let pixels: u64 = crate::convert::pixel_count(w, h);
        let cut: usize = if pixfmt == capture::V4L2_PIX_FMT_P010 {
            (2 * pixels as u128) as usize
        } else {
            pixels as usize
        };
        assert(cut == luma_bytes(pixfmt, w, h));
        out.push(Upload { texture: t[0], from: 0, to: cut });
        out.push(Upload { texture: t[1], from: cut, to: len });
    } else if t.len() > 0 {
        out.push(Upload { texture: t[0], from: 0, to: len });
    }
    assert(out@ =~= uploads(pixfmt, w, h, len as int));
    out
}

/// The shader that turns a format into RGB.
#[derive(Clone, Copy, Debug, PartialEq, Eq, Structural)]
pub enum Shader {
    /// Packed 4:2:2; `true` where chroma comes first.
    Packed(bool),
    Nv12,
    Xrgb,
    Rgb24,
    P010,
}

/// The shader of a format.
pub open spec fn shader_of(pixfmt: u32) -> Option<Shader> {
    if pixfmt == capture::V4L2_PIX_FMT_YUYV {
        Some(Shader::Packed(false))
    } else if pixfmt == capture::V4L2_PIX_FMT_UYVY {
        Some(Shader::Packed(true))
    } else if pixfmt == capture::V4L2_PIX_FMT_NV12 {
        Some(Shader::Nv12)
    } else if pixfmt == capture::V4L2_PIX_FMT_XRGB32 {
        Some(Shader::Xrgb)
    } else if pixfmt == capture::PIXFMT_RGB24 {
        Some(Shader::Rgb24)
    } else if pixfmt == capture::V4L2_PIX_FMT_P010 {
        Some(Shader::P010)
    } else {
        None
    }
}

/// Finds the shader of a format.
pub fn shader_for(pixfmt: u32) -> (r: Option<Shader>)
    ensures
        r == shader_of(pixfmt),
{
    if pixfmt == capture::V4L2_PIX_FMT_YUYV {
        Some(Shader::Packed(false))
    } else if pixfmt == capture::V4L2_PIX_FMT_UYVY {
        Some(Shader::Packed(true))
    } else if pixfmt == capture::V4L2_PIX_FMT_NV12 {
        Some(Shader::Nv12)
    } else if pixfmt == capture::V4L2_PIX_FMT_XRGB32 {
        Some(Shader::Xrgb)
    } else if pixfmt == capture::PIXFMT_RGB24 {
        Some(Shader::Rgb24)
    } else if pixfmt == capture::V4L2_PIX_FMT_P010 {
        Some(Shader::P010)
    } else {
        None
    }
}

/// How the picture gets from its textures to the window.
#[derive(Clone, Copy, Debug, PartialEq, Eq, Structural)]
pub enum FinalPass {
    /// Drawn to the window at once, with brightness, contrast and gamma.
    Direct,
    /// Upscaled and sharpened.
    Fsr,
    /// Scaled by a whole factor and sharpened.
    IntegerFsr,
    /// Scaled by the texture unit, by a whole factor or with sharpening where the
    /// mode asks for that. Also where the shaders of the other two are missing.
    Texture,
}

/// The last pass of a scaling mode.
pub open spec fn final_pass(mode: ScaleMode, has_fsr: bool) -> FinalPass {
    if !mode.two_pass() {
        FinalPass::Direct
    } else if mode == ScaleMode::Fsr && has_fsr {
        FinalPass::Fsr
    } else if mode == ScaleMode::IntegerFsr && has_fsr {
        FinalPass::IntegerFsr
    } else {
        FinalPass::Texture
    }
}

/// The state of the renderer that does not live on the graphics card.
pub struct GlRenderer {
    pub width: u32,
    pub height: u32,
    pub pixfmt: u32,
    /// Whether textures are filtered.
    pub smooth: bool,
    pub scale_mode: ScaleMode,
    /// Sharpness from 0 to 10.
    pub sharpness: u32,
    pub aspect_mode: AspectMode,
    /// Whether the sharpening shaders could be built.
    pub has_fsr: bool,
    /// Whether frames can be shared with the graphics card.
    pub has_dmabuf: bool,
    /// Whether the textures are those of a shared frame.
    pub using_dmabuf: bool,
    /// Whether the way in which bytes are unpacked was set.
    pub pixel_store_set: bool,
}

/// What an upload has to do first.
#[derive(Clone, Copy, Debug, PartialEq, Eq, Structural)]
pub struct UploadStart {
    /// Whether the textures have to be made the renderer's own again.
    pub realloc: bool,
    /// Whether the way in which bytes are unpacked has to be set.
    pub set_pixel_store: bool,
}

impl GlRenderer {
    /// A renderer for frames of one size and format.
    pub fn new(width: u32, height: u32, pixfmt: u32, smooth: bool, has_fsr: bool) -> (r: GlRenderer)
        ensures
            r == (GlRenderer {
                width,
                height,
                pixfmt,
                smooth,
                scale_mode: if smooth {
                    ScaleMode::Bilinear
                } else {
                    ScaleMode::Nearest
                },
                sharpness: 5,
                aspect_mode: AspectMode::Preserve,
                has_fsr,
                has_dmabuf: false,
                using_dmabuf: false,
                pixel_store_set: false,
            }),
    {
        GlRenderer {
            width,
            height,
            pixfmt,
            smooth,
            scale_mode: if smooth {
                ScaleMode::Bilinear
            } else {
                ScaleMode::Nearest
            },
            sharpness: 5,
            aspect_mode: AspectMode::Preserve,
            has_fsr,
            has_dmabuf: false,
            using_dmabuf: false,
            pixel_store_set: false,
        }
    }

    /// Notes that frames can be shared.
    pub fn init_dmabuf(&mut self)
        ensures
            *final(self) == (GlRenderer { has_dmabuf: true, ..*old(self) }),
    {
        self.has_dmabuf = true;
    }

    /// Whether frames can be shared.
    pub fn has_dmabuf(&self) -> (r: bool)
        ensures
            r == self.has_dmabuf,
    {
        self.has_dmabuf
    }

    /// Switches to a shared frame and tells whether that was possible: frames
    /// can be shared and their format is known.
    pub fn bind_dmabuf(&mut self) -> (r: bool)
        ensures
            r == (old(self).has_dmabuf && textures(old(self).pixfmt, 0, 0).len() > 0),
            *final(self) == (GlRenderer {
                using_dmabuf: r || old(self).using_dmabuf,
                ..*old(self)
            }),
    {
        if !self.has_dmabuf {
            return false;
        }
        if texture_plan(self.pixfmt, 0, 0).len() == 0 {
            return false;
        }
        self.using_dmabuf = true;
        true
    }

    /// Begins the upload of a frame.
    pub fn begin_upload(&mut self) -> (r: UploadStart)
        ensures
            r.realloc == old(self).using_dmabuf,
            r.set_pixel_store == (old(self).using_dmabuf || !old(self).pixel_store_set),
            *final(self) == (GlRenderer {
                using_dmabuf: false,
                pixel_store_set: true,
                ..*old(self)
            }),
    {
        let realloc = self.using_dmabuf;
        if realloc {
            self.using_dmabuf = false;
            self.pixel_store_set = false;
        }
        let set_pixel_store = !self.pixel_store_set;
        self.pixel_store_set = true;
        UploadStart { realloc, set_pixel_store }
    }

    /// The way in which textures are read: filtered or not.
    pub fn filter(&self) -> (r: u32)
        ensures
            r == (if self.smooth {
                GL_LINEAR
            } else {
                GL_NEAREST
            }),
    {
        if self.smooth {
            GL_LINEAR
        } else {
            GL_NEAREST
        }
    }

    /// The last pass that draws a frame.
    pub fn final_pass(&self) -> (r: FinalPass)
        ensures
            r == final_pass(self.scale_mode, self.has_fsr),
    {
        match self.scale_mode {
            ScaleMode::Fsr => if self.has_fsr {
                FinalPass::Fsr
            } else {
                FinalPass::Texture
            },
            ScaleMode::IntegerFsr => if self.has_fsr {
                FinalPass::IntegerFsr
            } else {
                FinalPass::Texture
            },
            ScaleMode::IntegerScale => FinalPass::Texture,
            ScaleMode::Cas => FinalPass::Texture,
            _ => FinalPass::Direct,
        }
    }

    /// Whether textures are filtered.
    pub fn smooth(&self) -> (r: bool)
        ensures
            r == self.smooth,
    {
        self.smooth
    }

    /// The scaling mode.
    pub fn scale_mode(&self) -> (r: ScaleMode)
        ensures
            r == self.scale_mode,
    {
        self.scale_mode
    }

    /// Sets the scaling mode, and with it whether textures are filtered.
    pub fn set_scale_mode(&mut self, mode: ScaleMode)
        ensures
            *final(self) == (GlRenderer {
                scale_mode: mode,
                smooth: mode.filters(),
                ..*old(self)
            }),
    {
        self.scale_mode = mode;
        self.smooth =
        match mode {
            ScaleMode::Nearest => false,
            ScaleMode::IntegerScale => false,
            ScaleMode::IntegerFsr => false,
            _ => true,
        };
    }

    /// Whether the sharpening shaders are there.
    pub fn has_fsr(&self) -> (r: bool)
        ensures
            r == self.has_fsr,
    {
        self.has_fsr
    }

    /// Sets the sharpness, at most 10.
    pub fn set_sharpness(&mut self, level: u32)
        ensures
            *final(self) == (GlRenderer {
                sharpness: if level > 10 {
                    10
                } else {
                    level
                },
                ..*old(self)
            }),
    {
        self.sharpness =
        if level > 10 {
            10
        } else {
            level
        };
    }

    /// The sharpness.
    pub fn sharpness_level(&self) -> (r: u32)
        ensures
            r == self.sharpness,
    {
        self.sharpness
    }

    /// Notes that another renderer used the context meanwhile.
    pub fn reclaim_context(&mut self)
        ensures
            *final(self) == (GlRenderer { pixel_store_set: false, ..*old(self) }),
    {
        self.pixel_store_set = false;
    }
}

/// Half of a number, rounded towards zero.
pub open spec fn half(d: int) -> int {
    if d >= 0 {
        d / 2
    } else {
        -((-d) / 2)
    }
}

/// The largest whole factor by which a picture fits, at least one.
pub open spec fn whole_factor(tex_w: u32, tex_h: u32, into_w: u32, into_h: u32) -> int {
    let x = into_w as int / (if tex_w == 0 {
        1
    } else {
        tex_w as int
    });
    let y = into_h as int / (if tex_h == 0 {
        1
    } else {
        tex_h as int
    });
    let m = if x < y {
        x
    } else {
        y
    };
    if m < 1 {
        1
    } else {
        m
    }
}

/// Where a picture is drawn.
#[derive(Clone, Copy, Debug, PartialEq, Eq, Structural)]
pub struct Placement {
    pub width: u32,
    pub height: u32,
    pub x: i32,
    pub y: i32,
}

fn factor(tex_w: u32, tex_h: u32, into_w: u32, into_h: u32) -> (r: u32)
    ensures
        r == whole_factor(tex_w, tex_h, into_w, into_h),
        r == 1 || (r * tex_w <= into_w && r * tex_h <= into_h),
{
    let dw: u32 = if tex_w == 0 {
        1
    } else {
        tex_w
    };
    let dh: u32 = if tex_h == 0 {
        1
    } else {
        tex_h
    };
    let x: u32 = into_w / dw;
    let y: u32 = into_h / dh;
    let m: u32 = if x < y {
        x
    } else {
        y
    };
    proof {
        assert(m * tex_w <= into_w && m * tex_h <= into_h) by (nonlinear_arith)
            requires
                0 <= m <= x,
                m <= y,
                x == into_w as int / dw as int,
                y == into_h as int / dh as int,
                tex_w <= dw,
                tex_h <= dh,
                dw > 0,
                dh > 0,
        ;
    }
    if m < 1 {
        1
    } else {
        m
    }
}

/// The size of a picture scaled by the largest whole factor that fits.
pub fn whole_size(tex_w: u32, tex_h: u32, into_w: u32, into_h: u32) -> (r: (u32, u32))
    ensures
        r.0 == tex_w * whole_factor(tex_w, tex_h, into_w, into_h),
        r.1 == tex_h * whole_factor(tex_w, tex_h, into_w, into_h),
{
    let f: u32 = factor(tex_w, tex_h, into_w, into_h);
    proof {
        assert(tex_w * f <= u32::MAX && tex_h * f <= u32::MAX && 0 <= tex_w * f && 0 <= tex_h * f)
            by (nonlinear_arith)
            requires
                f == 1 || (f * tex_w <= into_w && f * tex_h <= into_h),
                into_w <= u32::MAX,
                into_h <= u32::MAX,
                tex_w <= u32::MAX,
                tex_h <= u32::MAX,
                f >= 1,
        ;
    }
    (tex_w * f, tex_h * f)
}

/// A picture scaled by a whole factor is never larger than what it is to fit
/// into, unless it already is unscaled; and no larger whole factor fits.
pub proof fn law_whole_factor_is_largest(
    tex_w: u32,
    tex_h: u32,
    into_w: u32,
    into_h: u32,
    k: int,
)
    requires
        tex_w > 0,
        tex_h > 0,
        k > whole_factor(tex_w, tex_h, into_w, into_h),
    ensures
        tex_w * k > into_w || tex_h * k > into_h,
        tex_w <= into_w && tex_h <= into_h ==> tex_w * whole_factor(tex_w, tex_h, into_w, into_h)
            <= into_w && tex_h * whole_factor(tex_w, tex_h, into_w, into_h) <= into_h,
{
    let x = into_w as int / tex_w as int;
    let y = into_h as int / tex_h as int;
    let f = whole_factor(tex_w, tex_h, into_w, into_h);
    if x < k {
        assert(tex_w * k > into_w) by (nonlinear_arith)
            requires
                x == into_w as int / tex_w as int,
                x < k,
                tex_w > 0,
        ;
    } else {
        assert(tex_h * k > into_h) by (nonlinear_arith)
            requires
                y == into_h as int / tex_h as int,
                y < k,
                tex_h > 0,
        ;
    }
    if tex_w <= into_w && tex_h <= into_h {
        assert(tex_w * f <= into_w && tex_h * f <= into_h) by (nonlinear_arith)
            requires
                x == into_w as int / tex_w as int,
                y == into_h as int / tex_h as int,
                tex_w > 0,
                tex_h > 0,
                tex_w <= into_w,
                tex_h <= into_h,
                f <= x || f == 1,
                f <= y || f == 1,
        ;
    }
}

/// Where the whole-factor mode draws: in the middle of the window, at the
/// content's size where the window is to be filled, else at the largest whole
/// multiple of the picture that fits into the content.
pub fn integer_placement(
    tex_w: u32,
    tex_h: u32,
    content_w: u32,
    content_h: u32,
    win_w: u32,
    win_h: u32,
    aspect: AspectMode,
) -> (r: Placement)
    requires
        tex_w <= i32::MAX,
        tex_h <= i32::MAX,
        content_w <= i32::MAX,
        content_h <= i32::MAX,
        win_w <= i32::MAX,
        win_h <= i32::MAX,
    ensures
        r.width == (if aspect == AspectMode::Preserve {
            tex_w * whole_factor(tex_w, tex_h, content_w, content_h)
        } else {
            content_w as int
        }),
        r.height == (if aspect == AspectMode::Preserve {
            tex_h * whole_factor(tex_w, tex_h, content_w, content_h)
        } else {
            content_h as int
        }),
        r.x == half(win_w - r.width),
        r.y == half(win_h - r.height),
{
    let (w, h) = match aspect {
        AspectMode::Preserve => whole_size(tex_w, tex_h, content_w, content_h),
        _ => (content_w, content_h),
    };
    proof {
        let f = whole_factor(tex_w, tex_h, content_w, content_h);
        let x = content_w as int / (if tex_w == 0 {
            1
        } else {
            tex_w as int
        });
        let y = content_h as int / (if tex_h == 0 {
            1
        } else {
            tex_h as int
        });
        if f > 1 {
            assert(tex_w * f <= content_w) by (nonlinear_arith)
                requires
                    f <= x,
                    tex_w >= 0,
                    tex_w == 0 || x == content_w as int / tex_w as int,
            ;
            assert(tex_h * f <= content_h) by (nonlinear_arith)
                requires
                    f <= y,
                    tex_h >= 0,
                    tex_h == 0 || y == content_h as int / tex_h as int,
            ;
        }
    }
    Placement {
        width: w,
        height: h,
        x: half_of(win_w as i32 - w as i32),
        y: half_of(win_h as i32 - h as i32),
    }
}

fn half_of(d: i32) -> (r: i32)
    requires
        d > i32::MIN,
    ensures
        r == half(d as int),
{
    if d >= 0 {
        d / 2
    } else {
        -((-d) / 2)
    }
}

/// A character of the font and where it is drawn.
#[derive(Clone, Copy, Debug, PartialEq, Eq, Structural)]
pub struct Glyph {
    /// Place in the font.
    pub index: u32,
    pub x: i32,
}

/// The characters of a text that the font has, each where its place in the text
/// puts it.
pub open spec fn glyphs(s: Seq<char>, x: int, advance: int, first: int, last: int) -> Seq<Glyph>
    decreases s.len(),
{
    if s.len() == 0 {
        Seq::empty()
    } else {
        let before = glyphs(s.drop_last(), x, advance, first, last);
        let code = s.last() as u32;
        if first <= code <= last {
            before.push(
                Glyph {
                    index: (code - first) as u32,
                    x: (x + (s.len() - 1) * advance) as i32,
                },
            )
        } else {
            before
        }
    }
}

/// Lays a text out. `first` and `last` are the codes that the font has, and
/// `advance` the width of a character.
pub fn osd_text(s: &str, x: i32, advance: u32, first: u32, last: u32) -> (r: Vec<Glyph>)
    requires
        x + s@.len() * advance <= i32::MAX,
    ensures
        r@ == glyphs(s@, x as int, advance as int, first as int, last as int),
{
    let c = text::chars_of(s);
    let mut out: Vec<Glyph> = Vec::new();
    let n: usize = c.len();
    let mut i: usize = 0;
    assert(c@.take(0) =~= Seq::<char>::empty());
    while i < n
        invariant
            i <= n == c@.len(),
            x + c@.len() * advance <= i32::MAX,
            out@ == glyphs(
                c@.take(i as int),
                x as int,
                advance as int,
                first as int,
                last as int,
            ),
        decreases n - i,
    {
        assert(c@.take(i + 1).drop_last() =~= c@.take(i as int));
        let code: u32 = c[i] as u32;
        if first <= code && code <= last {
            proof {
                assert(0 <= i * advance <= n * advance) by (nonlinear_arith)
                    requires
                        0 <= i <= n,
                        0 <= advance,
                ;
            }
            let gx: i128 = x as i128 + i as i128 * advance as i128;
            out.push(Glyph { index: code - first, x: gx as i32 });
        }
        i += 1;
    }
    assert(c@.take(i as int) =~= c@);
    out
}

/// State of the graphics context that another renderer relies on.
#[derive(Clone, Copy, Debug)]
pub struct GlSavedState {
    pub program: i32,
    pub active_tex: i32,
    pub texture0: i32,
    pub texture1: i32,
    pub vao: i32,
    pub array_buf: i32,
    pub blend: bool,
    pub blend_src: i32,
    pub blend_dst: i32,
    pub viewport: [i32; 4],
    pub unpack_align: i32,
    pub unpack_row_length: i32,
}

/// The object that a saved name stands for; 0 stands for none.
pub fn saved_object(name: i32) -> (r: Option<u32>)
    ensures
        r == (if name == 0 {
            None
        } else {
            Some(name as u32)
        }),
{
    if name == 0 {
        None
    } else {
        #[verifier::truncate]
        let id: u32 = name as u32;
        Some(id)
    }
}

} // verus!
