//! What the command line and the settings come to before the first frame.

use vstd::prelude::*;

use crate::capture;
use crate::config::Config;
use crate::config::ConfigView;
use crate::config::VkPresentMode;
use crate::framegen::FrameGenMode;
use crate::framegen::FrameGenQuality;
use crate::gl_renderer::ScaleMode;
use crate::menu_sync;
use crate::number;
use crate::paths;
use crate::text;

verus! {

/// What the command line sets in place of the configuration file.
pub struct Overrides {
    pub device: Option<String>,
    pub width: Option<u32>,
    pub height: Option<u32>,
    pub fps: Option<u32>,
    pub format: Option<String>,
}

/// A text with its ASCII letters in lower case.
pub open spec fn folded(s: Seq<char>) -> Seq<char> {
    s.map_values(|c: char| text::ascii_lower(c))
}

fn fold(s: &str) -> (r: Vec<char>)
    ensures
        r@ == folded(s@),
{
    let c = text::chars_of(s);
    let mut out: Vec<char> = Vec::new();
    let mut i: usize = 0;
    while i < c.len()
        invariant
            i <= c@.len(),
            c@ == s@,
            out@ == folded(s@.take(i as int)),
        decreases c@.len() - i,
    {
        let x: char = c[i];
        out.push(text::lower_char(x));
        i += 1;
        assert(out@ =~= folded(s@.take(i as int)));
    }
    assert(s@.take(i as int) =~= s@);
    out
}

/// The format that a name on the command line stands for, whatever the case.
pub open spec fn named_format(s: Seq<char>) -> Option<u32> {
    let low = folded(s);
    if low == "nv12"@ {
        Some(capture::V4L2_PIX_FMT_NV12)
    } else if low == "yuyv"@ || low == "yuy2"@ {
        Some(capture::V4L2_PIX_FMT_YUYV)
    } else if low == "uyvy"@ {
        Some(capture::V4L2_PIX_FMT_UYVY)
    } else if low == "xrgb"@ || low == "rgbx"@ || low == "bgrx"@ {
        Some(capture::V4L2_PIX_FMT_XRGB32)
    } else if low == "p010"@ {
        Some(capture::V4L2_PIX_FMT_P010)
    } else if low == "mjpeg"@ || low == "mjpg"@ {
        Some(capture::V4L2_PIX_FMT_MJPEG)
    } else {
        None
    }
}

/// Reads the name of a format on the command line.
pub fn parse_format(s: &str) -> (r: Option<u32>)
    ensures
        r == named_format(s@),
{
    let low = fold(s);
    let l = low.as_slice();
    if text::spells(l, "nv12") {
        Some(capture::V4L2_PIX_FMT_NV12)
    } else if text::spells(l, "yuyv") || text::spells(l, "yuy2") {
        Some(capture::V4L2_PIX_FMT_YUYV)
    } else if text::spells(l, "uyvy") {
        Some(capture::V4L2_PIX_FMT_UYVY)
    } else if text::spells(l, "xrgb") || text::spells(l, "rgbx") || text::spells(l, "bgrx") {
        Some(capture::V4L2_PIX_FMT_XRGB32)
    } else if text::spells(l, "p010") {
        Some(capture::V4L2_PIX_FMT_P010)
    } else if text::spells(l, "mjpeg") || text::spells(l, "mjpg") {
        Some(capture::V4L2_PIX_FMT_MJPEG)
    } else {
        None
    }
}

/// The settings with what the command line sets, except for the format.
pub open spec fn overridden(c: ConfigView, o: Overrides) -> ConfigView {
    ConfigView {
        device: match o.device {
            Some(d) => d@,
            None => c.device,
        },
        width: match o.width {
            Some(w) => w,
            None => c.width,
        },
        height: match o.height {
            Some(h) => h,
            None => c.height,
        },
        fps: match o.fps {
            Some(f) => f,
            None => c.fps,
        },
        ..c
    }
}

/// Takes what the command line sets over into the settings. An unknown format is
/// given back as the error, with the rest taken over.
pub fn apply_overrides(cfg: &mut Config, o: Overrides) -> (r: Result<(), String>)
    ensures
        match o.format {
            None => r is Ok && final(cfg)@ == overridden(old(cfg)@, o),
            Some(f) => match named_format(f@) {
                Some(p) => r is Ok && final(cfg)@ == (ConfigView {
                    pixfmt: p,
                    ..overridden(old(cfg)@, o)
                }),
                None => r == Err::<(), String>(f) && final(cfg)@ == overridden(old(cfg)@, o),
            },
        },
{
    assert(cfg@ == cfg.state()) by {
        reveal(Config::state);
    }
    if let Some(d) = o.device {
        cfg.set_device(d);
    }
    if let Some(w) = o.width {
        cfg.set_width(w);
    }
    if let Some(h) = o.height {
        cfg.set_height(h);
    }
    if let Some(f) = o.fps {
        cfg.set_fps(f);
    }
    assert(cfg@ == cfg.state()) by {
        reveal(Config::state);
    }
    if let Some(f) = o.format {
        match parse_format(f.as_str()) {
            Some(p) => {
                cfg.set_pixfmt(p);
                assert(cfg@ == cfg.state()) by {
                    reveal(Config::state);
                }
            },
            None => {
                return Err(f);
            },
        }
    }
    Ok(())
}

/// Whether something that the command line or the settings ask for is done:
/// never while debugging.
pub fn unless_debugging(debug: bool, asked: bool, set: bool) -> (r: bool)
    ensures
        r == (!debug && (asked || set)),
{
    !debug && (asked || set)
}

/// Two numbers with an `x` between them.
pub open spec fn size_text(w: u32, h: u32) -> Seq<char> {
    number::decimal(w as nat) + "x"@ + number::decimal(h as nat)
}

fn to_size_text(w: u32, h: u32) -> (r: Vec<char>)
    ensures
        r@ == size_text(w, h),
{
    let mut out = number::to_decimal(w as u64);
    text::extend(&mut out, text::chars_of("x").as_slice());
    text::extend(&mut out, number::to_decimal(h as u64).as_slice());
    out
}

/// A word where a switch is on.
pub open spec fn word_if(on: bool, word: Seq<char>) -> Seq<char> {
    if on {
        word
    } else {
        Seq::empty()
    }
}

/// A name with something before it, where there is one.
pub open spec fn labelled(label: Seq<char>, name: Option<Seq<char>>) -> Seq<char> {
    match name {
        Some(n) => label + n,
        None => Seq::empty(),
    }
}

/// The capture as the line at the start tells it.
pub open spec fn banner_capture(cfg: Config) -> Seq<char> {
    "capview: "@ + cfg.device@ + " "@ + size_text(cfg.width, cfg.height) + "@"@ + number::decimal(
        cfg.fps as nat,
    ) + " "@ + text::lossy_utf8(capture::le_bytes(cfg.pixfmt)) + " buf="@ + number::decimal(
        cfg.buffers as nat,
    )
}

fn to_banner_capture(cfg: &Config) -> (r: Vec<char>)
    ensures
        r@ == banner_capture(*cfg),
{
    let mut out = text::chars_of("capview: ");
    text::extend(&mut out, text::chars_of(cfg.device.as_str()).as_slice());
    text::extend(&mut out, text::chars_of(" ").as_slice());
    text::extend(&mut out, to_size_text(cfg.width, cfg.height).as_slice());
    text::extend(&mut out, text::chars_of("@").as_slice());
    text::extend(&mut out, number::to_decimal(cfg.fps as u64).as_slice());
    text::extend(&mut out, text::chars_of(" ").as_slice());
    let format = capture::format_name(cfg.pixfmt);
    text::extend(&mut out, text::chars_of(format.as_str()).as_slice());
    text::extend(&mut out, text::chars_of(" buf=").as_slice());
    text::extend(&mut out, number::to_decimal(cfg.buffers as u64).as_slice());
    out
}

/// The window as the line at the start tells it.
pub open spec fn banner_window(cfg: Config) -> Seq<char> {
    let size = match (cfg.win_w, cfg.win_h) {
        (Some(w), Some(h)) => " win="@ + size_text(w, h),
        _ => Seq::empty(),
    };
    size + word_if(cfg.vsync, " vsync"@) + word_if(cfg.smooth, " smooth"@) + word_if(
        cfg.fullscreen,
        " fullscreen"@,
    )
}

fn to_banner_window(cfg: &Config) -> (r: Vec<char>)
    ensures
        r@ == banner_window(*cfg),
{
    let mut out: Vec<char> = Vec::new();
    if let Some(w) = cfg.win_w {
        if let Some(h) = cfg.win_h {
            text::extend(&mut out, text::chars_of(" win=").as_slice());
            text::extend(&mut out, to_size_text(w, h).as_slice());
        }
    }
    if cfg.vsync {
        text::extend(&mut out, text::chars_of(" vsync").as_slice());
    }
    if cfg.smooth {
        text::extend(&mut out, text::chars_of(" smooth").as_slice());
    }
    if cfg.fullscreen {
        text::extend(&mut out, text::chars_of(" fullscreen").as_slice());
    }
    assert(out@ =~= banner_window(*cfg));
    out
}

/// The line that is printed at the start.
pub fn banner(cfg: &Config, profile: Option<&str>) -> (r: String)
    ensures
        r@ == banner_capture(*cfg) + banner_window(*cfg) + labelled(
            " profile="@,
            paths::text_of(profile),
        ) + labelled(
            " audio="@,
            match cfg.audio_device {
                Some(d) => Some(d@),
                None => None,
            },
        ),
{
    let mut out = to_banner_capture(cfg);
    text::extend(&mut out, to_banner_window(cfg).as_slice());
    if let Some(p) = profile {
        text::extend(&mut out, text::chars_of(" profile=").as_slice());
        text::extend(&mut out, text::chars_of(p).as_slice());
    }
    if let Some(d) = &cfg.audio_device {
        text::extend(&mut out, text::chars_of(" audio=").as_slice());
        text::extend(&mut out, text::chars_of(d.as_str()).as_slice());
    }
    assert(out@ =~= banner_capture(*cfg) + banner_window(*cfg) + labelled(
        " profile="@,
        paths::text_of(profile),
    ) + labelled(
        " audio="@,
        match cfg.audio_device {
            Some(d) => Some(d@),
            None => None,
        },
    ));
    text::string_of(out.as_slice())
}

/// The size of the window: the one in the settings where both sides are set, else
/// that of the capture.
pub fn window_size(cfg: &Config, cap_w: u32, cap_h: u32) -> (r: (u32, u32))
    ensures
        r == match (cfg.win_w, cfg.win_h) {
            (Some(w), Some(h)) => (w, h),
            _ => (cap_w, cap_h),
        },
{
    match (cfg.win_w, cfg.win_h) {
        (Some(w), Some(h)) => (w, h),
        _ => (cap_w, cap_h),
    }
}

/// The format that renderers get: compressed frames are decoded first.
pub fn effective_format(pixfmt: u32) -> (r: u32)
    ensures
        r == (if pixfmt == capture::V4L2_PIX_FMT_MJPEG {
            capture::PIXFMT_RGB24
        } else {
            pixfmt
        }),
{
    if pixfmt == capture::V4L2_PIX_FMT_MJPEG {
        capture::PIXFMT_RGB24
    } else {
        pixfmt
    }
}

/// How many bytes of a buffer hold a frame: what was used where frames are
/// compressed, else all of it.
pub fn frame_bytes(pixfmt: u32, used: u32, length: u32) -> (r: u32)
    ensures
        r == (if pixfmt == capture::V4L2_PIX_FMT_MJPEG {
            used
        } else {
            length
        }),
{
    if pixfmt == capture::V4L2_PIX_FMT_MJPEG {
        used
    } else {
        length
    }
}

/// The present mode to start with: the immediate one only where it is available.
pub fn usable_present_mode(m: VkPresentMode, immediate: bool) -> (r: VkPresentMode)
    ensures
        r == (if m == VkPresentMode::Immediate && !immediate {
            VkPresentMode::Mailbox
        } else {
            m
        }),
{
    if m == VkPresentMode::Immediate && !immediate {
        VkPresentMode::Mailbox
    } else {
        m
    }
}

/// The pixel formats of the simple renderer's textures.
#[derive(Clone, Copy, Debug, PartialEq, Eq, Structural)]
pub enum TextureFormat {
    Nv12,
    Yuy2,
    Uyvy,
    Bgrx8888,
    Rgb24,
}

/// Why the simple renderer cannot show a format.
#[derive(Clone, Copy, Debug, PartialEq, Eq, Structural)]
pub enum FormatError {
    /// Only the other renderers can.
    NeedsShaders,
    Unsupported,
}

/// The texture format for a pixel format.
pub open spec fn texture_format(pixfmt: u32) -> Result<TextureFormat, FormatError> {
    if pixfmt == capture::V4L2_PIX_FMT_NV12 {
        Ok(TextureFormat::Nv12)
    } else if pixfmt == capture::V4L2_PIX_FMT_YUYV {
        Ok(TextureFormat::Yuy2)
    } else if pixfmt == capture::V4L2_PIX_FMT_UYVY {
        Ok(TextureFormat::Uyvy)
    } else if pixfmt == capture::V4L2_PIX_FMT_XRGB32 {
        Ok(TextureFormat::Bgrx8888)
    } else if pixfmt == capture::PIXFMT_RGB24 {
        Ok(TextureFormat::Rgb24)
    } else if pixfmt == capture::V4L2_PIX_FMT_P010 {
        Err(FormatError::NeedsShaders)
    } else {
        Err(FormatError::Unsupported)
    }
}

/// Chooses the texture format for a pixel format.
pub fn pixfmt_to_sdl(pixfmt: u32) -> (r: Result<TextureFormat, FormatError>)
    ensures
        r == texture_format(pixfmt),
{
    if pixfmt == capture::V4L2_PIX_FMT_NV12 {
        Ok(TextureFormat::Nv12)
    } else if pixfmt == capture::V4L2_PIX_FMT_YUYV {
        Ok(TextureFormat::Yuy2)
    } else if pixfmt == capture::V4L2_PIX_FMT_UYVY {
        Ok(TextureFormat::Uyvy)
    } else if pixfmt == capture::V4L2_PIX_FMT_XRGB32 {
        Ok(TextureFormat::Bgrx8888)
    } else if pixfmt == capture::PIXFMT_RGB24 {
        Ok(TextureFormat::Rgb24)
    } else if pixfmt == capture::V4L2_PIX_FMT_P010 {
        Err(FormatError::NeedsShaders)
    } else {
        Err(FormatError::Unsupported)
    }
}

/// How a frame goes into a texture.
#[derive(Clone, Copy, Debug, PartialEq, Eq, Structural)]
pub enum TextureUpdate {
    /// Two planes: the pitch of both, and where the second begins.
    Planes { pitch: u64, second: u64 },
    /// Rows of so many bytes.
    Rows { pitch: u64 },
    Nothing,
}

/// How a frame of a format goes into a texture.
pub fn texture_update(pixfmt: u32, width: u32, height: u32) -> (r: TextureUpdate)
    ensures
        r == (if pixfmt == capture::V4L2_PIX_FMT_NV12 {
            TextureUpdate::Planes { pitch: width as u64, second: (width * height) as u64 }
        } else if pixfmt == capture::V4L2_PIX_FMT_YUYV || pixfmt == capture::V4L2_PIX_FMT_UYVY {
            TextureUpdate::Rows { pitch: (2 * width) as u64 }
        } else if pixfmt == capture::V4L2_PIX_FMT_XRGB32 {
            TextureUpdate::Rows { pitch: (4 * width) as u64 }
        } else if pixfmt == capture::PIXFMT_RGB24 {
            TextureUpdate::Rows { pitch: (3 * width) as u64 }
        } else {
            TextureUpdate::Nothing
        }),
{
    assert(0 <= width * height <= u32::MAX * u32::MAX) by (nonlinear_arith)
        requires
            0 <= width <= u32::MAX,
            0 <= height <= u32::MAX,
    ;
    if pixfmt == capture::V4L2_PIX_FMT_NV12 {
        TextureUpdate::Planes { pitch: width as u64, second: width as u64 * height as u64 }
    } else if pixfmt == capture::V4L2_PIX_FMT_YUYV || pixfmt == capture::V4L2_PIX_FMT_UYVY {
        TextureUpdate::Rows { pitch: 2 * width as u64 }
    } else if pixfmt == capture::V4L2_PIX_FMT_XRGB32 {
        TextureUpdate::Rows { pitch: 4 * width as u64 }
    } else if pixfmt == capture::PIXFMT_RGB24 {
        TextureUpdate::Rows { pitch: 3 * width as u64 }
    } else {
        TextureUpdate::Nothing
    }
}

/// The address that the stream server binds to: the one asked for where it has a
/// colon, else every interface at the port of the settings.
pub open spec fn bind_text(asked: Option<Seq<char>>, port: u16) -> Seq<char> {
    match asked {
        Some(a) if a.contains(':') => a,
        _ => "0.0.0.0:"@ + number::decimal(port as nat),
    }
}

/// Chooses the address that the stream server binds to.
pub fn bind_address(asked: Option<&str>, port: u16) -> (r: String)
    ensures
        r@ == bind_text(paths::text_of(asked), port),
{
    if let Some(a) = asked {
        let c = text::chars_of(a);
        let at: usize = text::position(c.as_slice(), ':');
        proof {
            text::lemma_find_from(c@, ':', 0);
        }
        if at < c.len() {
            assert(c@[at as int] == ':');
            return a.to_owned();
        }
    }
    let mut out = text::chars_of("0.0.0.0:");
    text::extend(&mut out, number::to_decimal(port as u64).as_slice());
    text::string_of(out.as_slice())
}

/// The scaling to start with: the named one, else by whether pictures are to be
/// smoothed.
pub fn initial_scale_mode(cfg: &Config) -> (r: ScaleMode)
    ensures
        r == match ScaleMode::named(cfg.scale_mode@) {
            Some(m) => m,
            None => if cfg.smooth {
                ScaleMode::Bilinear
            } else {
                ScaleMode::Nearest
            },
        },
{
    match ScaleMode::from_config(cfg.scale_mode.as_str()) {
        Some(m) => m,
        None => if cfg.smooth {
            ScaleMode::Bilinear
        } else {
            ScaleMode::Nearest
        },
    }
}

/// The mode of frame generation that a name stands for. `rife` tells whether a
/// neural model can be run.
pub open spec fn framegen_mode_named(s: Seq<char>, rife: bool) -> FrameGenMode {
    if s == "extrapolate"@ {
        FrameGenMode::Extrapolate
    } else if s == "interpolate"@ {
        FrameGenMode::Interpolate
    } else if s == "rife"@ && rife {
        FrameGenMode::Rife
    } else {
        FrameGenMode::Off
    }
}

/// Reads the mode of frame generation.
pub fn initial_framegen_mode(s: &str, rife: bool) -> (r: FrameGenMode)
    ensures
        r == framegen_mode_named(s@, rife),
{
    if text::same(s, "extrapolate") {
        FrameGenMode::Extrapolate
    } else if text::same(s, "interpolate") {
        FrameGenMode::Interpolate
    } else if rife && text::same(s, "rife") {
        FrameGenMode::Rife
    } else {
        FrameGenMode::Off
    }
}

/// The quality of frame generation that a name stands for.
pub open spec fn framegen_quality_named(s: Seq<char>) -> FrameGenQuality {
    if s == "fast"@ {
        FrameGenQuality::Fast
    } else if s == "quality"@ {
        FrameGenQuality::Quality
    } else {
        FrameGenQuality::Balanced
    }
}

/// Reads the quality of frame generation.
pub fn initial_framegen_quality(s: &str) -> (r: FrameGenQuality)
    ensures
        r == framegen_quality_named(s@),
{
    if text::same(s, "fast") {
        FrameGenQuality::Fast
    } else if text::same(s, "quality") {
        FrameGenQuality::Quality
    } else {
        FrameGenQuality::Balanced
    }
}

/// The names written for modes and qualities of frame generation read back,
/// where the mode is still there.
pub proof fn law_framegen_names_read_back(m: FrameGenMode, q: FrameGenQuality, rife: bool)
    requires
        m.offered(rife),
    ensures
        framegen_mode_named(menu_sync::framegen_mode_name(m), rife) == m,
        framegen_quality_named(menu_sync::framegen_quality_name(q)) == q,
{
    reveal_strlit("off");
    reveal_strlit("extrapolate");
    reveal_strlit("interpolate");
    reveal_strlit("rife");
    reveal_strlit("fast");
    reveal_strlit("balanced");
    reveal_strlit("quality");
    assert("rife"@.len() == 4);
    assert("off"@.len() == 3 && "extrapolate"@.len() == 11 && "interpolate"@.len() == 11);
    assert("extrapolate"@[0] == 'e' && "interpolate"@[0] == 'i');
    assert("fast"@.len() == 4 && "balanced"@.len() == 8 && "quality"@.len() == 7);
}

} // verus!
