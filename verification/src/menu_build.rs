//! What the on-screen menu shows for the present settings.

use vstd::prelude::*;

use crate::config;
use crate::config::AspectMode;
use crate::config::AudioMode;
use crate::config::Config;
use crate::config::Platform;
use crate::config::RendererBackend;
use crate::config::ScreenshotFormat;
use crate::config::VkPresentMode;
use crate::framegen::FrameGenMode;
use crate::framegen::FrameGenQuality;
use crate::gl_renderer::ScaleMode;
use crate::menu;
use crate::menu::ItemView;
use crate::menu::MenuItem;
use crate::number;
use crate::text;

verus! {

/// The lower of two numbers.
pub open spec fn at_most(n: nat, max: nat) -> nat {
    if n < max {
        n
    } else {
        max
    }
}

/// What is shown of the sound besides the settings.
#[derive(Clone, Copy, Debug, PartialEq, Eq, Structural)]
pub struct AudioShown {
    pub volume: i32,
    pub muted: bool,
    pub capture_ms: i32,
    pub playback_ms: i32,
}

/// A volume as a number without sign.
pub open spec fn unsigned(v: i32) -> nat {
    if v < 0 {
        (v + 0x1_0000_0000) as nat
    } else {
        v as nat
    }
}

/// The items on sound.
pub open spec fn audio_items(cfg: Config, a: AudioShown, d: nat) -> Seq<ItemView> {
    let head = seq![
        menu::value(
            d,
            "Audio Mode"@,
            seq!["Capture"@, "Passthrough"@],
            match cfg.audio_mode {
                AudioMode::Capture => 0,
                AudioMode::Passthrough => 1,
            },
        ),
        menu::value(
            d,
            "Device"@,
            seq![match cfg.audio_device {
                Some(s) => s@,
                None => "(none)"@,
            }],
            0,
        ),
    ];
    match cfg.audio_mode {
        AudioMode::Passthrough => head,
        AudioMode::Capture => head + seq![
            menu::value(
                d,
                "Volume"@,
                menu::percent_steps(0, (cfg.max_volume / 5 + 1) as nat),
                at_most(unsigned(a.volume) / 5, (cfg.max_volume / 5) as nat),
            ),
            menu::switch(d, "Mute"@, a.muted),
            menu::separator(d),
            menu::value(d, "Sample Rate"@, seq!["48000 Hz"@], 0),
            menu::value(d, "Channels"@, seq!["2 (Stereo)"@], 0),
            menu::value(
                d,
                "Capture Buffer"@,
                menu::unit_labels(menu::AUDIO_BUF_OPTIONS@, " ms"@),
                menu::place(menu::AUDIO_BUF_OPTIONS@, a.capture_ms as int, 1),
            ),
            menu::value(
                d,
                "Playback Buffer"@,
                menu::unit_labels(menu::AUDIO_BUF_OPTIONS@, " ms"@),
                menu::place(menu::AUDIO_BUF_OPTIONS@, a.playback_ms as int, 1),
            ),
        ],
    }
}

fn volume_place(volume: i32, max_volume: u32) -> (r: usize)
    ensures
        r == at_most(unsigned(volume) / 5, (max_volume / 5) as nat),
{
    let v: i64 = if volume < 0 {
        volume as i64 + 0x1_0000_0000
    } else {
        volume as i64
    };
    let step: u32 = (v / 5) as u32;
    if step < max_volume / 5 {
        step as usize
    } else {
        (max_volume / 5) as usize
    }
}

fn one(word: &str) -> (r: Vec<String>)
    ensures
        config::strings(r@) == seq![word@],
{
    let r = menu::words(&[word]);
    assert(config::strings(r@) =~= seq![word@]);
    r
}

/// Builds the items on sound.
pub fn build_audio_items(cfg: &Config, a: AudioShown, depth: usize) -> (r: Vec<MenuItem>)
    ensures
        menu::items(r@) == audio_items(*cfg, a, depth as nat),
{
    let mut out: Vec<MenuItem> = Vec::new();
    assert(menu::items(out@) =~= Seq::empty());
    let modes = menu::words(&["Capture", "Passthrough"]);
    assert(config::strings(modes@) =~= seq!["Capture"@, "Passthrough"@]);
    let mode_idx: usize = match cfg.audio_mode {
        AudioMode::Capture => 0,
        AudioMode::Passthrough => 1,
    };
    menu::push(&mut out, MenuItem::value(depth, "Audio Mode", modes, mode_idx));
    let device = match &cfg.audio_device {
        Some(s) => one(s.as_str()),
        None => one("(none)"),
    };
    menu::push(&mut out, MenuItem::value(depth, "Device", device, 0));
    if cfg.audio_mode == AudioMode::Capture {
        menu::push(
            &mut out,
            MenuItem::value(
                depth,
                "Volume",
                menu::to_percent_steps(0, cfg.max_volume / 5 + 1),
                volume_place(a.volume, cfg.max_volume),
            ),
        );
        menu::push(&mut out, MenuItem::switch(depth, "Mute", a.muted));
        menu::push(&mut out, MenuItem::separator(depth));
        menu::push(&mut out, MenuItem::value(depth, "Sample Rate", one("48000 Hz"), 0));
        menu::push(&mut out, MenuItem::value(depth, "Channels", one("2 (Stereo)"), 0));
        menu::push(
            &mut out,
            MenuItem::value(
                depth,
                "Capture Buffer",
                menu::to_unit_labels(menu::AUDIO_BUF_OPTIONS.as_slice(), " ms"),
                menu::buf_ms_index(a.capture_ms),
            ),
        );
        menu::push(
            &mut out,
            MenuItem::value(
                depth,
                "Playback Buffer",
                menu::to_unit_labels(menu::AUDIO_BUF_OPTIONS.as_slice(), " ms"),
                menu::buf_ms_index(a.playback_ms),
            ),
        );
    }
    assert(menu::items(out@) =~= audio_items(*cfg, a, depth as nat));
    out
}

/// The items on screenshots.
pub open spec fn screenshot_items(cfg: Config, d: nat) -> Seq<ItemView> {
    let formats = seq!["PNG"@, "JPEG"@];
    match cfg.screenshot_format {
        ScreenshotFormat::Png => seq![menu::value(d, "Format"@, formats, 0)],
        ScreenshotFormat::Jpeg => seq![
            menu::value(d, "Format"@, formats, 1),
            menu::value(
                d,
                "JPEG Quality"@,
                menu::unit_labels(menu::QUALITY_OPTIONS@, "%"@),
                menu::place(menu::QUALITY_OPTIONS@, cfg.jpeg_quality as int, 5),
            ),
        ],
    }
}

/// Builds the items on screenshots.
pub fn build_screenshot_items(cfg: &Config, depth: usize) -> (r: Vec<MenuItem>)
    ensures
        menu::items(r@) == screenshot_items(*cfg, depth as nat),
{
    let mut out: Vec<MenuItem> = Vec::new();
    assert(menu::items(out@) =~= Seq::empty());
    let formats = menu::words(&["PNG", "JPEG"]);
    assert(config::strings(formats@) =~= seq!["PNG"@, "JPEG"@]);
    let fmt_idx: usize = match cfg.screenshot_format {
        ScreenshotFormat::Png => 0,
        ScreenshotFormat::Jpeg => 1,
    };
    menu::push(&mut out, MenuItem::value(depth, "Format", formats, fmt_idx));
    if cfg.screenshot_format == ScreenshotFormat::Jpeg {
        menu::push(
            &mut out,
            MenuItem::value(
                depth,
                "JPEG Quality",
                menu::to_unit_labels(menu::QUALITY_OPTIONS.as_slice(), "%"),
                menu::place_in(menu::QUALITY_OPTIONS.as_slice(), cfg.jpeg_quality, 5),
            ),
        );
    }
    assert(menu::items(out@) =~= screenshot_items(*cfg, depth as nat));
    out
}

/// An address as four numbers with dots between them.
pub open spec fn dotted(ip: Seq<u8>) -> Seq<char> {
    number::decimal(ip[0] as nat) + "."@ + number::decimal(ip[1] as nat) + "."@
        + number::decimal(ip[2] as nat) + "."@ + number::decimal(ip[3] as nat)
}

/// Writes an address.
pub fn to_dotted(ip: &[u8; 4]) -> (r: Vec<char>)
    ensures
        r@ == dotted(ip@),
{
    let dot = text::chars_of(".");
    let mut out = number::to_decimal(ip[0] as u64);
    text::extend(&mut out, dot.as_slice());
    text::extend(&mut out, number::to_decimal(ip[1] as u64).as_slice());
    text::extend(&mut out, dot.as_slice());
    text::extend(&mut out, number::to_decimal(ip[2] as u64).as_slice());
    text::extend(&mut out, dot.as_slice());
    text::extend(&mut out, number::to_decimal(ip[3] as u64).as_slice());
    out
}

/// The items on streaming.
pub open spec fn streaming_items(
    cfg: Config,
    server: bool,
    client: bool,
    platform: Platform,
    d: nat,
) -> Seq<ItemView> {
    let always = seq![
        menu::submenu(d, "Server"@),
        menu::value(
            d + 1,
            "Port"@,
            menu::unit_labels(menu::STREAM_PORT_OPTIONS@, ""@),
            menu::place(menu::STREAM_PORT_OPTIONS@, cfg.stream_port as int, 0),
        ),
        menu::value(
            d + 1,
            "Quality"@,
            menu::unit_labels(menu::STREAM_QUALITY_OPTIONS@, "%"@),
            menu::place(menu::STREAM_QUALITY_OPTIONS@, cfg.stream_quality as int, 4),
        ),
        menu::action(
            d + 1,
            if server {
                "Stop Server"@
            } else {
                "Start Server"@
            },
        ),
        menu::submenu(d, "Client"@),
        menu::field(d + 1, "Address"@, dotted(cfg.stream_client_ip@)),
        menu::field(d + 1, "Port"@, number::decimal(cfg.stream_client_port as nat)),
        menu::action(
            d + 1,
            if client {
                "Disconnect"@
            } else {
                "Connect"@
            },
        ),
    ];
    match platform {
        Platform::Linux => always.push(menu::switch(d, "Virtual Webcam"@, cfg.virtual_webcam)).push(
            menu::switch(d, "Virtual Mic"@, cfg.virtual_mic),
        ),
        Platform::MacOs => always,
    }
}

/// Builds the items on streaming.
pub fn build_streaming_items(
    cfg: &Config,
    server: bool,
    client: bool,
    platform: Platform,
    depth: usize,
) -> (r: Vec<MenuItem>)
    requires
        depth < usize::MAX,
    ensures
        menu::items(r@) == streaming_items(*cfg, server, client, platform, depth as nat),
{
    let mut out: Vec<MenuItem> = Vec::new();
    assert(menu::items(out@) =~= Seq::empty());
    menu::push(&mut out, MenuItem::submenu(depth, "Server"));
    menu::push(
        &mut out,
        MenuItem::value(
            depth + 1,
            "Port",
            menu::to_unit_labels(menu::STREAM_PORT_OPTIONS.as_slice(), ""),
            menu::place_in(menu::STREAM_PORT_OPTIONS.as_slice(), cfg.stream_port as u32, 0),
        ),
    );
    menu::push(
        &mut out,
        MenuItem::value(
            depth + 1,
            "Quality",
            menu::to_unit_labels(menu::STREAM_QUALITY_OPTIONS.as_slice(), "%"),
            menu::place_in(menu::STREAM_QUALITY_OPTIONS.as_slice(), cfg.stream_quality, 4),
        ),
    );
    menu::push(
        &mut out,
        MenuItem::action(
            depth + 1,
            if server {
                "Stop Server"
            } else {
                "Start Server"
            },
        ),
    );
    menu::push(&mut out, MenuItem::submenu(depth, "Client"));
    menu::push(
        &mut out,
        MenuItem::text(
            depth + 1,
            "Address",
            text::string_of(to_dotted(&cfg.stream_client_ip).as_slice()),
        ),
    );
    menu::push(
        &mut out,
        MenuItem::text(
            depth + 1,
            "Port",
            text::string_of(number::to_decimal(cfg.stream_client_port as u64).as_slice()),
        ),
    );
    menu::push(
        &mut out,
        MenuItem::action(
            depth + 1,
            if client {
                "Disconnect"
            } else {
                "Connect"
            },
        ),
    );
    if platform == Platform::Linux {
        menu::push(&mut out, MenuItem::switch(depth, "Virtual Webcam", cfg.virtual_webcam));
        menu::push(&mut out, MenuItem::switch(depth, "Virtual Mic", cfg.virtual_mic));
    }
    assert(menu::items(out@) =~= streaming_items(*cfg, server, client, platform, depth as nat));
    out
}

/// The items on analysis strips.
pub open spec fn strip_items(cfg: Config, d: nat) -> Seq<ItemView> {
    seq![
        menu::value(
            d,
            "Grid Columns"@,
            menu::unit_labels(menu::STRIP_GRID_OPTIONS@, ""@),
            menu::place(menu::STRIP_GRID_OPTIONS@, cfg.strip_cols as int, 0),
        ),
        menu::value(
            d,
            "Grid Rows"@,
            menu::unit_labels(menu::STRIP_GRID_OPTIONS@, ""@),
            menu::place(menu::STRIP_GRID_OPTIONS@, cfg.strip_rows as int, 5),
        ),
    ]
}

/// Builds the items on analysis strips.
pub fn build_strip_items(cfg: &Config, depth: usize) -> (r: Vec<MenuItem>)
    ensures
        menu::items(r@) == strip_items(*cfg, depth as nat),
{
    let mut out: Vec<MenuItem> = Vec::new();
    assert(menu::items(out@) =~= Seq::empty());
    menu::push(
        &mut out,
        MenuItem::value(
            depth,
            "Grid Columns",
            menu::to_unit_labels(menu::STRIP_GRID_OPTIONS.as_slice(), ""),
            menu::place_in(menu::STRIP_GRID_OPTIONS.as_slice(), cfg.strip_cols, 0),
        ),
    );
    menu::push(
        &mut out,
        MenuItem::value(
            depth,
            "Grid Rows",
            menu::to_unit_labels(menu::STRIP_GRID_OPTIONS.as_slice(), ""),
            menu::place_in(menu::STRIP_GRID_OPTIONS.as_slice(), cfg.strip_rows, 5),
        ),
    );
    assert(menu::items(out@) =~= strip_items(*cfg, depth as nat));
    out
}

/// What is shown of the picture besides the settings.
#[derive(Clone, Copy, Debug, PartialEq, Eq, Structural)]
pub struct VideoShown {
    pub fg_mode: FrameGenMode,
    /// Whether a neural model can be run.
    pub rife: bool,
    pub fg_quality: FrameGenQuality,
    pub target_fps: u32,
    pub scale_mode: ScaleMode,
    pub sharpness: u32,
    /// The backend that draws now.
    pub active: RendererBackend,
    pub aspect: AspectMode,
    /// In per cent.
    pub brightness: u32,
    /// In per cent.
    pub contrast: u32,
    /// In tenths.
    pub gamma: u32,
    /// Whether frames can be shown without waiting.
    pub immediate: bool,
}

/// Whether a change of backend takes a restart: where one of the two is Vulkan.
pub open spec fn takes_restart(active: RendererBackend, b: RendererBackend) -> bool {
    (active == RendererBackend::Vulkan) != (b == RendererBackend::Vulkan)
}

/// The label of a backend.
pub open spec fn backend_label(
    name: Seq<char>,
    active: RendererBackend,
    b: RendererBackend,
) -> Seq<char> {
    if takes_restart(active, b) {
        name + " (restart)"@
    } else {
        name
    }
}

fn to_backend_label(name: &str, active: RendererBackend, b: RendererBackend) -> (r: String)
    ensures
        r@ == backend_label(name@, active, b),
{
    let mut out = text::chars_of(name);
    if (active == RendererBackend::Vulkan) != (b == RendererBackend::Vulkan) {
        let suffix = text::chars_of(" (restart)");
        text::extend(&mut out, suffix.as_slice());
    }
    text::string_of(out.as_slice())
}

/// The labels of the backends.
pub open spec fn backends(active: RendererBackend) -> Seq<Seq<char>> {
    seq![
        backend_label("SDL"@, active, RendererBackend::Sdl),
        backend_label("OpenGL"@, active, RendererBackend::OpenGl),
        backend_label("Vulkan"@, active, RendererBackend::Vulkan),
    ]
}

fn to_backends(active: RendererBackend) -> (r: Vec<String>)
    ensures
        config::strings(r@) == backends(active),
{
    let mut out: Vec<String> = Vec::new();
    out.push(to_backend_label("SDL", active, RendererBackend::Sdl));
    out.push(to_backend_label("OpenGL", active, RendererBackend::OpenGl));
    out.push(to_backend_label("Vulkan", active, RendererBackend::Vulkan));
    assert(config::strings(out@) =~= backends(active));
    out
}

/// The place of a backend in the menu.
pub open spec fn backend_place(b: RendererBackend) -> nat {
    match b {
        RendererBackend::Sdl => 0,
        RendererBackend::OpenGl => 1,
        RendererBackend::Vulkan => 2,
    }
}

/// The place of an aspect mode in the menu.
pub open spec fn aspect_place(m: AspectMode) -> nat {
    match m {
        AspectMode::Preserve => 0,
        AspectMode::Zoom => 1,
        AspectMode::Stretch => 2,
    }
}

/// The place of a number in a row of `count` steps that begins at one step.
pub open spec fn step_place(n: nat, step: nat, count: nat) -> nat {
    let k = n / step;
    at_most(
        if k == 0 {
            0
        } else {
            (k - 1) as nat
        },
        (count - 1) as nat,
    )
}

fn to_step_place(n: u32, step: u32, count: u32) -> (r: usize)
    requires
        step > 0,
        count > 0,
    ensures
        r == step_place(n as nat, step as nat, count as nat),
{
    let k: u32 = n / step;
    let p: u32 = if k == 0 {
        0
    } else {
        k - 1
    };
    if p < count - 1 {
        p as usize
    } else {
        (count - 1) as usize
    }
}

/// A number of tenths with one decimal.
pub open spec fn tenths(n: nat) -> Seq<char> {
    number::decimal(n / 10) + "."@ + number::decimal(n % 10)
}

/// The labels from 0.1 to 3.0.
pub open spec fn gamma_labels() -> Seq<Seq<char>> {
    Seq::new(30, |i: int| tenths((i + 1) as nat))
}

fn to_gamma_labels() -> (r: Vec<String>)
    ensures
        config::strings(r@) == gamma_labels(),
{
    let dot = text::chars_of(".");
    let mut out: Vec<String> = Vec::new();
    let mut i: u64 = 0;
    while i < 30
        invariant
            i <= 30,
            dot@ == "."@,
            out@.len() == i,
            forall|j: int| 0 <= j < i ==> (#[trigger] out@[j])@ == tenths((j + 1) as nat),
        decreases 30 - i,
    {
        let mut s = number::to_decimal((i + 1) / 10);
        text::extend(&mut s, dot.as_slice());
        text::extend(&mut s, number::to_decimal((i + 1) % 10).as_slice());
        out.push(text::string_of(s.as_slice()));
        i += 1;
    }
    assert(config::strings(out@) =~= gamma_labels());
    out
}

/// The items that every backend has.
pub open spec fn picture_items(cfg: Config, v: VideoShown, d: nat) -> Seq<ItemView> {
    seq![
        menu::value(d, "Backend"@, backends(v.active), backend_place(cfg.renderer)),
        menu::value(
            d,
            "Aspect"@,
            seq!["Preserve"@, "Zoom"@, "Stretch"@],
            aspect_place(v.aspect),
        ),
        menu::value(
            d,
            "Brightness"@,
            menu::percent_steps(1, 40),
            step_place(v.brightness as nat, 5, 40),
        ),
        menu::value(
            d,
            "Contrast"@,
            menu::percent_steps(1, 40),
            step_place(v.contrast as nat, 5, 40),
        ),
        menu::value(d, "Gamma"@, gamma_labels(), step_place(v.gamma as nat, 1, 30)),
    ]
}

fn build_picture_items(cfg: &Config, v: VideoShown, depth: usize) -> (r: Vec<MenuItem>)
    ensures
        menu::items(r@) == picture_items(*cfg, v, depth as nat),
{
    let mut out: Vec<MenuItem> = Vec::new();
    assert(menu::items(out@) =~= Seq::empty());
    let backend: usize = match cfg.renderer {
        RendererBackend::Sdl => 0,
        RendererBackend::OpenGl => 1,
        RendererBackend::Vulkan => 2,
    };
    menu::push(&mut out, MenuItem::value(depth, "Backend", to_backends(v.active), backend));
    let aspect: usize = match v.aspect {
        AspectMode::Preserve => 0,
        AspectMode::Zoom => 1,
        AspectMode::Stretch => 2,
    };
    let aspects = menu::words(&["Preserve", "Zoom", "Stretch"]);
    assert(config::strings(aspects@) =~= seq!["Preserve"@, "Zoom"@, "Stretch"@]);
    menu::push(&mut out, MenuItem::value(depth, "Aspect", aspects, aspect));
    menu::push(
        &mut out,
        MenuItem::value(
            depth,
            "Brightness",
            menu::to_percent_steps(1, 40),
            to_step_place(v.brightness, 5, 40),
        ),
    );
    menu::push(
        &mut out,
        MenuItem::value(
            depth,
            "Contrast",
            menu::to_percent_steps(1, 40),
            to_step_place(v.contrast, 5, 40),
        ),
    );
    menu::push(
        &mut out,
        MenuItem::value(depth, "Gamma", to_gamma_labels(), to_step_place(v.gamma, 1, 30)),
    );
    assert(menu::items(out@) =~= picture_items(*cfg, v, depth as nat));
    out
}

/// The item for the sharpness, where the scaling has one.
pub open spec fn sharpness_items(v: VideoShown, d: nat) -> Seq<ItemView> {
    if v.scale_mode == ScaleMode::Cas || v.scale_mode == ScaleMode::Fsr || v.scale_mode
        == ScaleMode::IntegerFsr {
        seq![menu::value(
            d,
            "Sharpness"@,
            Seq::new(11, |i: int| number::decimal(i as nat)),
            at_most(v.sharpness as nat, 10),
        )]
    } else {
        Seq::empty()
    }
}

fn build_sharpness_items(v: VideoShown, depth: usize) -> (r: Vec<MenuItem>)
    ensures
        menu::items(r@) == sharpness_items(v, depth as nat),
{
    let mut out: Vec<MenuItem> = Vec::new();
    assert(menu::items(out@) =~= Seq::empty());
    if v.scale_mode.has_sharpness() {
        let mut levels: Vec<String> = Vec::new();
        let mut i: u64 = 0;
        while i < 11
            invariant
                i <= 11,
                levels@.len() == i,
                forall|j: int| 0 <= j < i ==> (#[trigger] levels@[j])@ == number::decimal(j as nat),
            decreases 11 - i,
        {
            levels.push(text::string_of(number::to_decimal(i).as_slice()));
            i += 1;
        }
        assert(config::strings(levels@) =~= Seq::new(11, |i: int| number::decimal(i as nat)));
        let level: usize = if v.sharpness < 10 {
            v.sharpness as usize
        } else {
            10
        };
        menu::push(&mut out, MenuItem::value(depth, "Sharpness", levels, level));
    }
    assert(menu::items(out@) =~= sharpness_items(v, depth as nat));
    out
}

/// The place of a scaling in the menu of Vulkan.
pub open spec fn vk_scale_place(m: ScaleMode) -> nat {
    match m {
        ScaleMode::Nearest => 0,
        ScaleMode::Cas => 2,
        ScaleMode::Fsr => 3,
        ScaleMode::IntegerFsr => 3,
        _ => 1,
    }
}

/// The options of the present mode.
pub open spec fn present_options(immediate: bool) -> Seq<Seq<char>> {
    if immediate {
        seq!["Mailbox"@, "Immediate"@, "VSync (FIFO)"@]
    } else {
        seq!["Mailbox"@, "VSync (FIFO)"@]
    }
}

/// The place of a present mode in the menu.
pub open spec fn present_place(m: VkPresentMode, immediate: bool) -> nat {
    match m {
        VkPresentMode::Mailbox => 0,
        VkPresentMode::Immediate => if immediate {
            1
        } else {
            0
        },
        VkPresentMode::Fifo => if immediate {
            2
        } else {
            1
        },
    }
}

/// The items that only one backend has.
pub open spec fn backend_items(cfg: Config, v: VideoShown, d: nat) -> Seq<ItemView> {
    match cfg.renderer {
        RendererBackend::Sdl => Seq::empty(),
        RendererBackend::OpenGl => seq![menu::value(
            d,
            "Scaling"@,
            seq!["Nearest"@, "Bilinear"@, "Integer"@, "CAS"@, "FSR"@, "Integer+FSR"@],
            v.scale_mode.place() as nat,
        )] + sharpness_items(v, d),
        RendererBackend::Vulkan => (seq![menu::value(
            d,
            "Scaling"@,
            seq!["Nearest"@, "Bilinear"@, "CAS"@, "FSR"@],
            vk_scale_place(v.scale_mode),
        )] + sharpness_items(v, d)).push(
            menu::value(
                d,
                "Present Mode"@,
                present_options(v.immediate),
                present_place(cfg.vk_present_mode, v.immediate),
            ),
        ),
    }
}

fn build_vk_items(cfg: &Config, v: VideoShown, depth: usize) -> (r: Vec<MenuItem>)
    requires
        cfg.renderer == RendererBackend::Vulkan,
    ensures
        menu::items(r@) == backend_items(*cfg, v, depth as nat),
{
    let mut out: Vec<MenuItem> = Vec::new();
    assert(menu::items(out@) =~= Seq::empty());
    let scalings = menu::words(&["Nearest", "Bilinear", "CAS", "FSR"]);
    assert(config::strings(scalings@) =~= seq!["Nearest"@, "Bilinear"@, "CAS"@, "FSR"@]);
    let place: usize = match v.scale_mode {
        ScaleMode::Nearest => 0,
        ScaleMode::Cas => 2,
        ScaleMode::Fsr => 3,
        ScaleMode::IntegerFsr => 3,
        _ => 1,
    };
    menu::push(&mut out, MenuItem::value(depth, "Scaling", scalings, place));
    menu::append(&mut out, build_sharpness_items(v, depth));
    let presents = if v.immediate {
        let w = menu::words(&["Mailbox", "Immediate", "VSync (FIFO)"]);
        assert(config::strings(w@) =~= present_options(true));
        w
    } else {
        let w = menu::words(&["Mailbox", "VSync (FIFO)"]);
        assert(config::strings(w@) =~= present_options(false));
        w
    };
    let present: usize = match cfg.vk_present_mode {
        VkPresentMode::Mailbox => 0,
        VkPresentMode::Immediate => if v.immediate {
            1
        } else {
            0
        },
        VkPresentMode::Fifo => if v.immediate {
            2
        } else {
            1
        },
    };
    menu::push(&mut out, MenuItem::value(depth, "Present Mode", presents, present));
    assert(menu::items(out@) =~= backend_items(*cfg, v, depth as nat));
    out
}

fn build_gl_items(cfg: &Config, v: VideoShown, depth: usize) -> (r: Vec<MenuItem>)
    requires
        cfg.renderer == RendererBackend::OpenGl,
    ensures
        menu::items(r@) == backend_items(*cfg, v, depth as nat),
{
    let mut out: Vec<MenuItem> = Vec::new();
    assert(menu::items(out@) =~= Seq::empty());
    let scalings = menu::words(&["Nearest", "Bilinear", "Integer", "CAS", "FSR", "Integer+FSR"]);
    assert(config::strings(scalings@) =~= seq![
        "Nearest"@,
        "Bilinear"@,
        "Integer"@,
        "CAS"@,
        "FSR"@,
        "Integer+FSR"@,
    ]);
    menu::push(
        &mut out,
        MenuItem::value(depth, "Scaling", scalings, v.scale_mode.index()),
    );
    menu::append(&mut out, build_sharpness_items(v, depth));
    assert(menu::items(out@) =~= backend_items(*cfg, v, depth as nat));
    out
}

/// The place of a quality in the menu.
pub open spec fn quality_place(q: FrameGenQuality) -> nat {
    match q {
        FrameGenQuality::Fast => 0,
        FrameGenQuality::Balanced => 1,
        FrameGenQuality::Quality => 2,
    }
}

/// The options of the display rate.
pub open spec fn rate_options() -> Seq<Seq<char>> {
    seq!["Auto"@, "60"@, "90"@, "120"@, "144"@, "165"@, "180"@, "240"@]
}

/// The options of the mode of frame generation.
pub open spec fn mode_options(rife: bool) -> Seq<Seq<char>> {
    if rife {
        seq!["Off"@, "Extrapolate"@, "Interpolate"@, "RIFE"@]
    } else {
        seq!["Off"@, "Extrapolate"@, "Interpolate"@]
    }
}

/// The items on frame generation. A model knows no quality.
pub open spec fn framegen_items(v: VideoShown, d: nat) -> Seq<ItemView> {
    let mode = menu::value(d, "Frame Gen"@, mode_options(v.rife), v.fg_mode.place() as nat);
    let quality = menu::value(
        d,
        "FG Quality"@,
        seq!["Fast"@, "Balanced"@, "Quality"@],
        quality_place(v.fg_quality),
    );
    let rate = menu::value(
        d,
        "Target FPS"@,
        rate_options(),
        menu::place(menu::TARGET_FPS_OPTIONS@, v.target_fps as int, 0),
    );
    match v.fg_mode {
        FrameGenMode::Off => seq![mode],
        FrameGenMode::Rife => seq![mode, rate],
        _ => seq![mode, quality, rate],
    }
}

fn build_framegen_items(v: VideoShown, depth: usize) -> (r: Vec<MenuItem>)
    ensures
        menu::items(r@) == framegen_items(v, depth as nat),
{
    let mut out: Vec<MenuItem> = Vec::new();
    assert(menu::items(out@) =~= Seq::empty());
    let modes = if v.rife {
        menu::words(&["Off", "Extrapolate", "Interpolate", "RIFE"])
    } else {
        menu::words(&["Off", "Extrapolate", "Interpolate"])
    };
    assert(config::strings(modes@) =~= mode_options(v.rife));
    menu::push(&mut out, MenuItem::value(depth, "Frame Gen", modes, v.fg_mode.index()));
    let warps = match v.fg_mode {
        FrameGenMode::Extrapolate => true,
        FrameGenMode::Interpolate => true,
        _ => false,
    };
    if warps {
        let qualities = menu::words(&["Fast", "Balanced", "Quality"]);
        assert(config::strings(qualities@) =~= seq!["Fast"@, "Balanced"@, "Quality"@]);
        let quality: usize = match v.fg_quality {
            FrameGenQuality::Fast => 0,
            FrameGenQuality::Balanced => 1,
            FrameGenQuality::Quality => 2,
        };
        menu::push(&mut out, MenuItem::value(depth, "FG Quality", qualities, quality));
    }
    if v.fg_mode != FrameGenMode::Off {
        let rates = menu::words(&["Auto", "60", "90", "120", "144", "165", "180", "240"]);
        assert(config::strings(rates@) =~= rate_options());
        menu::push(
            &mut out,
            MenuItem::value(
                depth,
                "Target FPS",
                rates,
                menu::place_in(menu::TARGET_FPS_OPTIONS.as_slice(), v.target_fps, 0),
            ),
        );
    }
    assert(menu::items(out@) =~= framegen_items(v, depth as nat));
    out
}

/// The items on the picture.
pub open spec fn renderer_items(cfg: Config, v: VideoShown, d: nat) -> Seq<ItemView> {
    picture_items(cfg, v, d) + backend_items(cfg, v, d) + (if cfg.renderer
        == RendererBackend::Sdl {
        Seq::empty()
    } else {
        framegen_items(v, d)
    })
}

/// Builds the items on the picture.
pub fn build_renderer_items(cfg: &Config, v: VideoShown, depth: usize) -> (r: Vec<MenuItem>)
    ensures
        menu::items(r@) == renderer_items(*cfg, v, depth as nat),
{
    let mut out = build_picture_items(cfg, v, depth);
    match cfg.renderer {
        RendererBackend::Sdl => {},
        RendererBackend::OpenGl => {
            menu::append(&mut out, build_gl_items(cfg, v, depth));
            menu::append(&mut out, build_framegen_items(v, depth));
        },
        RendererBackend::Vulkan => {
            menu::append(&mut out, build_vk_items(cfg, v, depth));
            menu::append(&mut out, build_framegen_items(v, depth));
        },
    }
    assert(menu::items(out@) =~= renderer_items(*cfg, v, depth as nat));
    out
}

/// The place of a frame rate display in the menu.
pub open spec fn fps_display_place(s: Seq<char>) -> nat {
    if s == "simple"@ {
        1
    } else if s == "verbose"@ {
        2
    } else {
        0
    }
}

/// The first items on everything else.
pub open spec fn option_heads(cfg: Config, d: nat) -> Seq<ItemView> {
    seq![
        menu::value(
            d,
            "FPS"@,
            seq!["Off"@, "Simple"@, "Verbose"@],
            fps_display_place(cfg.fps_display@),
        ),
        menu::value(
            d,
            "OSD Opacity"@,
            menu::percent_steps(0, 21),
            at_most((cfg.osd_opacity / 5) as nat, 20),
        ),
        menu::switch(d, "Pause on Minimize"@, cfg.pause_on_minimize),
        menu::switch(d, "Pause on Background"@, cfg.pause_on_background),
        menu::submenu(d, "Screenshots"@),
    ]
}

/// The items on everything else.
pub open spec fn options_items(cfg: Config, strip: bool, d: nat) -> Seq<ItemView> {
    option_heads(cfg, d) + screenshot_items(cfg, d + 1) + (if strip {
        seq![menu::submenu(d, "Analysis Strip"@)] + strip_items(cfg, d + 1)
    } else {
        Seq::empty()
    })
}

fn build_options_items(cfg: &Config, strip: bool, depth: usize) -> (r: Vec<MenuItem>)
    requires
        depth < usize::MAX,
    ensures
        menu::items(r@) == options_items(*cfg, strip, depth as nat),
{
    let mut out: Vec<MenuItem> = Vec::new();
    assert(menu::items(out@) =~= Seq::empty());
    let displays = menu::words(&["Off", "Simple", "Verbose"]);
    assert(config::strings(displays@) =~= seq!["Off"@, "Simple"@, "Verbose"@]);
    let display: usize = if text::same(cfg.fps_display.as_str(), "simple") {
        1
    } else if text::same(cfg.fps_display.as_str(), "verbose") {
        2
    } else {
        0
    };
    menu::push(&mut out, MenuItem::value(depth, "FPS", displays, display));
    let opacity: usize = if cfg.osd_opacity / 5 < 20 {
        (cfg.osd_opacity / 5) as usize
    } else {
        20
    };
    menu::push(
        &mut out,
        MenuItem::value(depth, "OSD Opacity", menu::to_percent_steps(0, 21), opacity),
    );
    menu::push(&mut out, MenuItem::switch(depth, "Pause on Minimize", cfg.pause_on_minimize));
    menu::push(&mut out, MenuItem::switch(depth, "Pause on Background", cfg.pause_on_background));
    menu::push(&mut out, MenuItem::submenu(depth, "Screenshots"));
    menu::append(&mut out, build_screenshot_items(cfg, depth + 1));
    if strip {
        menu::push(&mut out, MenuItem::submenu(depth, "Analysis Strip"));
        menu::append(&mut out, build_strip_items(cfg, depth + 1));
    }
    assert(menu::items(out@) =~= options_items(*cfg, strip, depth as nat));
    out
}

/// What is shown besides the settings.
#[derive(Clone, Copy, Debug, PartialEq, Eq, Structural)]
pub struct Shown {
    pub server: bool,
    pub client: bool,
    /// Whether the items on analysis strips were revealed.
    pub strip: bool,
    pub video: VideoShown,
    pub audio: AudioShown,
    pub platform: Platform,
}

/// The whole menu.
pub open spec fn root_menu(cfg: Config, s: Shown, build_time: Seq<char>) -> Seq<ItemView> {
    seq![menu::submenu(0, "Video"@)] + renderer_items(cfg, s.video, 1) + seq![
        menu::submenu(0, "Audio"@),
    ] + audio_items(cfg, s.audio, 1) + seq![
        menu::separator(0),
        menu::submenu(0, "Streaming"@),
    ] + streaming_items(cfg, s.server, s.client, s.platform, 1) + seq![
        menu::submenu(0, "Options"@),
    ] + options_items(cfg, s.strip, 1) + seq![menu::info(0, "v"@ + build_time)]
}

proof fn lemma_joined(
    v: ItemView,
    renderer: Seq<ItemView>,
    a: ItemView,
    audio: Seq<ItemView>,
    line: ItemView,
    t: ItemView,
    streaming: Seq<ItemView>,
    o: ItemView,
    options: Seq<ItemView>,
    last: ItemView,
)
    ensures
        ((((Seq::empty().push(v) + renderer).push(a) + audio).push(line).push(t) + streaming).push(o)
            + options).push(last) == seq![v] + renderer + seq![a] + audio + seq![line, t]
            + streaming + seq![o] + options + seq![last],
{
    let b = Seq::empty().push(v) + renderer;
    assert(b.push(a) =~= b + seq![a]);
    let c = b.push(a) + audio;
    assert(c.push(line).push(t) =~= c + seq![line, t]);
    let d = c.push(line).push(t) + streaming;
    assert(d.push(o) =~= d + seq![o]);
    let e = d.push(o) + options;
    assert(e.push(last) =~= e + seq![last]);
}

/// Builds the whole menu.
pub fn build_root_menu(cfg: &Config, s: Shown, build_time: &str) -> (r: Vec<MenuItem>)
    ensures
        menu::items(r@) == root_menu(*cfg, s, build_time@),
{
    let mut out: Vec<MenuItem> = Vec::new();
    assert(menu::items(out@) =~= Seq::empty());
    let renderer = build_renderer_items(cfg, s.video, 1);
    let audio = build_audio_items(cfg, s.audio, 1);
    let streaming = build_streaming_items(cfg, s.server, s.client, s.platform, 1);
    let options = build_options_items(cfg, s.strip, 1);
    let mut version = text::chars_of("v");
    text::extend(&mut version, text::chars_of(build_time).as_slice());
    proof {
        lemma_joined(
            menu::submenu(0, "Video"@),
            menu::items(renderer@),
            menu::submenu(0, "Audio"@),
            menu::items(audio@),
            menu::separator(0),
            menu::submenu(0, "Streaming"@),
            menu::items(streaming@),
            menu::submenu(0, "Options"@),
            menu::items(options@),
            menu::info(0, "v"@ + build_time@),
        );
    }
    menu::push(&mut out, MenuItem::submenu(0, "Video"));
    menu::append(&mut out, renderer);
    menu::push(&mut out, MenuItem::submenu(0, "Audio"));
    menu::append(&mut out, audio);
    menu::push(&mut out, MenuItem::separator(0));
    menu::push(&mut out, MenuItem::submenu(0, "Streaming"));
    menu::append(&mut out, streaming);
    menu::push(&mut out, MenuItem::submenu(0, "Options"));
    menu::append(&mut out, options);
    menu::push(&mut out, MenuItem::info(0, text::string_of(version.as_slice())));
    out
}

/// What the line on streaming says: the server with its port and how many are
/// connected, and where the client is connected to.
pub open spec fn streaming_line(
    server: Option<(u16, usize)>,
    client: Option<(Seq<u8>, u16)>,
) -> Option<Seq<char>> {
    let a = match server {
        Some((port, count)) => "Server :"@ + number::decimal(port as nat) + " ("@
            + number::decimal(count as nat) + ")"@,
        None => Seq::empty(),
    };
    let b = match client {
        Some((ip, port)) => "-> "@ + dotted(ip) + ":"@ + number::decimal(port as nat),
        None => Seq::empty(),
    };
    if server is Some && client is Some {
        Some(a + " | "@ + b)
    } else if server is Some {
        Some(a)
    } else if client is Some {
        Some(b)
    } else {
        None
    }
}

fn server_part(port: u16, count: usize) -> (r: Vec<char>)
    ensures
        r@ == "Server :"@ + number::decimal(port as nat) + " ("@ + number::decimal(count as nat)
            + ")"@,
{
    let mut out = text::chars_of("Server :");
    text::extend(&mut out, number::to_decimal(port as u64).as_slice());
    text::extend(&mut out, text::chars_of(" (").as_slice());
    text::extend(&mut out, number::to_decimal(count as u64).as_slice());
    text::extend(&mut out, text::chars_of(")").as_slice());
    out
}

fn client_part(ip: &[u8; 4], port: u16) -> (r: Vec<char>)
    ensures
        r@ == "-> "@ + dotted(ip@) + ":"@ + number::decimal(port as nat),
{
    let mut out = text::chars_of("-> ");
    text::extend(&mut out, to_dotted(ip).as_slice());
    text::extend(&mut out, text::chars_of(":").as_slice());
    text::extend(&mut out, number::to_decimal(port as u64).as_slice());
    out
}

/// Writes the line on streaming; `None` where there is nothing to tell.
pub fn update_streaming_osd(server: Option<(u16, usize)>, client: bool, cfg: &Config) -> (r: Option<
    String,
>)
    ensures
        match r {
            Some(s) => streaming_line(
                server,
                if client {
                    Some((cfg.stream_client_ip@, cfg.stream_client_port))
                } else {
                    None
                },
            ) == Some(s@),
            None => server is None && !client,
        },
{
    match server {
        Some((port, count)) => {
            let mut out = server_part(port, count);
            if client {
                text::extend(&mut out, text::chars_of(" | ").as_slice());
                text::extend(
                    &mut out,
                    client_part(&cfg.stream_client_ip, cfg.stream_client_port).as_slice(),
                );
            }
            Some(text::string_of(out.as_slice()))
        },
        None => if client {
            Some(
                text::string_of(
                    client_part(&cfg.stream_client_ip, cfg.stream_client_port).as_slice(),
                ),
            )
        } else {
            None
        },
    }
}

} // verus!
