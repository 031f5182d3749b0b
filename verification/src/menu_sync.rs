//! What the on-screen menu changes in the settings, and what of it is written to
//! the configuration file.

use vstd::prelude::*;

use crate::config;
use crate::config::AspectMode;
use crate::config::AudioMode;
use crate::config::Config;
use crate::config::ConfigView;
use crate::config::RendererBackend;
use crate::config::ScreenshotFormat;
use crate::config::VkPresentMode;
use crate::framegen::FrameGenMode;
use crate::framegen::FrameGenQuality;
use crate::gl_renderer::ScaleMode;
use crate::menu;
use crate::menu::ItemView;
use crate::menu::MenuItem;
use crate::number;
use crate::text;

verus! {

/// A key of the configuration file and its new value.
pub struct Saved {
    pub key: String,
    pub value: String,
}

/// What keys and values hold.
pub open spec fn saves(v: Seq<Saved>) -> Seq<(Seq<char>, Seq<char>)> {
    v.map_values(|s: Saved| (s.key@, s.value@))
}

/// Settings, and the keys that were written for them.
#[verifier::ext_equal]
pub struct Synced {
    pub cfg: ConfigView,
    pub saved: Seq<(Seq<char>, Seq<char>)>,
}

impl Synced {
    /// The state after one setting was given its place in `cfg`: its key is
    /// written only where that changes something.
    pub open spec fn with(
        self,
        cfg: ConfigView,
        changed: bool,
        key: Seq<char>,
        value: Seq<char>,
    ) -> Synced {
        Synced {
            cfg,
            saved: if changed {
                self.saved.push((key, value))
            } else {
                self.saved
            },
        }
    }
}

fn save(out: &mut Vec<Saved>, key: &str, value: &str)
    ensures
        saves(final(out)@) == saves(old(out)@).push((key@, value@)),
{
    let ghost before = out@;
    out.push(Saved { key: key.to_owned(), value: value.to_owned() });
    assert(saves(out@) =~= saves(before).push((key@, value@)));
}

fn save_number(out: &mut Vec<Saved>, key: &str, n: u32)
    ensures
        saves(final(out)@) == saves(old(out)@).push((key@, number::decimal(n as nat))),
{
    let value = text::string_of(number::to_decimal(n as u64).as_slice());
    save(out, key, value.as_str());
}

/// The number of a table at a place; what it was where there is no such place.
pub open spec fn picked(table: Seq<u32>, sel: Option<nat>, now: u32) -> u32 {
    match sel {
        Some(i) if i < table.len() => table[i as int],
        _ => now,
    }
}

fn pick(table: &[u32], sel: Option<usize>, now: u32) -> (r: u32)
    ensures
        r == picked(table@, place_of(sel), now),
{
    match sel {
        Some(i) => if i < table.len() {
            table[i]
        } else {
            now
        },
        None => now,
    }
}

/// A place as a number.
pub open spec fn place_of(sel: Option<usize>) -> Option<nat> {
    match sel {
        Some(i) => Some(i as nat),
        None => None,
    }
}

/// The choice that a place in the menu stands for.
pub open spec fn format_at(sel: Option<nat>, now: ScreenshotFormat) -> ScreenshotFormat {
    match sel {
        None => now,
        Some(i) if i == 1 => ScreenshotFormat::Jpeg,
        Some(_) => ScreenshotFormat::Png,
    }
}

/// Its name in the configuration file.
pub open spec fn format_name(v: ScreenshotFormat) -> Seq<char> {
    match v {
        ScreenshotFormat::Jpeg => "jpeg"@,
        ScreenshotFormat::Png => "png"@,
    }
}

/// What the choice under `Format` changes.
pub open spec fn format_step(s: Synced, sel: Option<nat>) -> Synced {
    let v = format_at(sel, s.cfg.screenshot_format);
    s.with(
        ConfigView { screenshot_format: v, ..s.cfg },
        v != s.cfg.screenshot_format,
        "screenshot_format"@,
        format_name(v),
    )
}

fn sync_format(cfg: &mut Config, out: &mut Vec<Saved>, sel: Option<usize>)
    ensures
        (Synced { cfg: final(cfg).state(), saved: saves(final(out)@) }) == format_step(
            Synced { cfg: old(cfg).state(), saved: saves(old(out)@) },
            place_of(sel),
        ),
{
    assert(cfg.screenshot_format == cfg.state().screenshot_format) by {
        reveal(Config::state);
    }
    let v = match sel {
        None => cfg.screenshot_format,
        Some(1) => ScreenshotFormat::Jpeg,
        Some(_) => ScreenshotFormat::Png,
    };
    if v != cfg.screenshot_format {
        cfg.set_screenshot_format(v);
        let name = match v {
            ScreenshotFormat::Jpeg => "jpeg",
            ScreenshotFormat::Png => "png",
        };
        save(out, "screenshot_format", name);
    }
}

/// What the choice under `JPEG Quality` changes, which counts for JPEG only.
pub open spec fn jpeg_quality_step(s: Synced, sel: Option<nat>) -> Synced {
    let v = if s.cfg.screenshot_format == ScreenshotFormat::Jpeg {
        picked(menu::QUALITY_OPTIONS@, sel, s.cfg.jpeg_quality)
    } else {
        s.cfg.jpeg_quality
    };
    s.with(
        ConfigView { jpeg_quality: v, ..s.cfg },
        v != s.cfg.jpeg_quality,
        "jpeg_quality"@,
        number::decimal(v as nat),
    )
}

fn sync_jpeg_quality(cfg: &mut Config, out: &mut Vec<Saved>, sel: Option<usize>)
    ensures
        (Synced { cfg: final(cfg).state(), saved: saves(final(out)@) }) == jpeg_quality_step(
            Synced { cfg: old(cfg).state(), saved: saves(old(out)@) },
            place_of(sel),
        ),
{
    assert(cfg.jpeg_quality == cfg.state().jpeg_quality && cfg.screenshot_format
        == cfg.state().screenshot_format) by {
        reveal(Config::state);
    }
    if cfg.screenshot_format != ScreenshotFormat::Jpeg {
        return;
    }
    let v: u32 = pick(menu::QUALITY_OPTIONS.as_slice(), sel, cfg.jpeg_quality);
    if v != cfg.jpeg_quality {
        cfg.set_jpeg_quality(v);
        save_number(out, "jpeg_quality", v);
    }
}

/// The choice that a place in the menu stands for.
pub open spec fn backend_at(sel: Option<nat>, now: RendererBackend) -> RendererBackend {
    match sel {
        None => now,
        Some(i) if i == 1 => RendererBackend::OpenGl,
        Some(i) if i == 2 => RendererBackend::Vulkan,
        Some(_) => RendererBackend::Sdl,
    }
}

/// Its name in the configuration file.
pub open spec fn backend_name(v: RendererBackend) -> Seq<char> {
    match v {
        RendererBackend::OpenGl => "opengl"@,
        RendererBackend::Vulkan => "vulkan"@,
        RendererBackend::Sdl => "sdl"@,
    }
}

/// What the choice under `Backend` changes.
pub open spec fn backend_step(s: Synced, sel: Option<nat>) -> Synced {
    let v = backend_at(sel, s.cfg.renderer);
    s.with(
        ConfigView { renderer: v, ..s.cfg },
        v != s.cfg.renderer,
        "renderer"@,
        backend_name(v),
    )
}

fn sync_backend(cfg: &mut Config, out: &mut Vec<Saved>, sel: Option<usize>)
    ensures
        (Synced { cfg: final(cfg).state(), saved: saves(final(out)@) }) == backend_step(
            Synced { cfg: old(cfg).state(), saved: saves(old(out)@) },
            place_of(sel),
        ),
{
    assert(cfg.renderer == cfg.state().renderer) by {
        reveal(Config::state);
    }
    let v = match sel {
        None => cfg.renderer,
        Some(1) => RendererBackend::OpenGl,
        Some(2) => RendererBackend::Vulkan,
        Some(_) => RendererBackend::Sdl,
    };
    if v != cfg.renderer {
        cfg.set_renderer(v);
        let name = match v {
            RendererBackend::OpenGl => "opengl",
            RendererBackend::Vulkan => "vulkan",
            RendererBackend::Sdl => "sdl",
        };
        save(out, "renderer", name);
    }
}

/// The aspect mode that a place in the menu stands for.
pub open spec fn aspect_at(sel: Option<nat>, now: AspectMode) -> AspectMode {
    match sel {
        None => now,
        Some(i) if i == 1 => AspectMode::Zoom,
        Some(i) if i == 2 => AspectMode::Stretch,
        Some(_) => AspectMode::Preserve,
    }
}

/// Its name in the configuration file.
pub open spec fn aspect_name(v: AspectMode) -> Seq<char> {
    match v {
        AspectMode::Preserve => "preserve"@,
        AspectMode::Zoom => "zoom"@,
        AspectMode::Stretch => "stretch"@,
    }
}

/// What the choice under `Aspect` changes. It is held against the aspect mode in
/// use, which need not be the one in the settings.
pub open spec fn aspect_step(s: Synced, used: AspectMode, sel: Option<nat>) -> Synced {
    let v = aspect_at(sel, used);
    s.with(
        if v != used {
            ConfigView { aspect_mode: v, ..s.cfg }
        } else {
            s.cfg
        },
        v != used,
        "aspect_mode"@,
        aspect_name(v),
    )
}

fn sync_aspect(
    cfg: &mut Config,
    out: &mut Vec<Saved>,
    used: &mut AspectMode,
    sel: Option<usize>,
)
    ensures
        (Synced { cfg: final(cfg).state(), saved: saves(final(out)@) }) == aspect_step(
            Synced { cfg: old(cfg).state(), saved: saves(old(out)@) },
            *old(used),
            place_of(sel),
        ),
        *final(used) == aspect_at(place_of(sel), *old(used)),
{
    let v = match sel {
        None => *used,
        Some(1) => AspectMode::Zoom,
        Some(2) => AspectMode::Stretch,
        Some(_) => AspectMode::Preserve,
    };
    if v != *used {
        *used = v;
        cfg.set_aspect_mode(v);
        let name = match v {
            AspectMode::Preserve => "preserve",
            AspectMode::Zoom => "zoom",
            AspectMode::Stretch => "stretch",
        };
        save(out, "aspect_mode", name);
    }
}

/// The present mode that a place in the menu stands for. Without the immediate
/// mode the menu has two places.
pub open spec fn present_at(sel: Option<nat>, immediate: bool, now: VkPresentMode) -> VkPresentMode {
    match sel {
        None => now,
        Some(i) if i == 1 => if immediate {
            VkPresentMode::Immediate
        } else {
            VkPresentMode::Fifo
        },
        Some(i) if i == 2 && immediate => VkPresentMode::Fifo,
        Some(_) => VkPresentMode::Mailbox,
    }
}

/// Its name in the configuration file.
pub open spec fn present_name(v: VkPresentMode) -> Seq<char> {
    match v {
        VkPresentMode::Mailbox => "mailbox"@,
        VkPresentMode::Immediate => "immediate"@,
        VkPresentMode::Fifo => "fifo"@,
    }
}

/// What the choice under `Present Mode` changes.
pub open spec fn present_step(s: Synced, immediate: bool, sel: Option<nat>) -> Synced {
    let v = present_at(sel, immediate, s.cfg.vk_present_mode);
    s.with(
        ConfigView { vk_present_mode: v, ..s.cfg },
        v != s.cfg.vk_present_mode,
        "vk_present_mode"@,
        present_name(v),
    )
}

fn sync_present(cfg: &mut Config, out: &mut Vec<Saved>, immediate: bool, sel: Option<usize>)
    ensures
        (Synced { cfg: final(cfg).state(), saved: saves(final(out)@) }) == present_step(
            Synced { cfg: old(cfg).state(), saved: saves(old(out)@) },
            immediate,
            place_of(sel),
        ),
{
    assert(cfg.vk_present_mode == cfg.state().vk_present_mode) by {
        reveal(Config::state);
    }
    let v = match sel {
        None => cfg.vk_present_mode,
        Some(1) => if immediate {
            VkPresentMode::Immediate
        } else {
            VkPresentMode::Fifo
        },
        Some(2) => if immediate {
            VkPresentMode::Fifo
        } else {
            VkPresentMode::Mailbox
        },
        Some(_) => VkPresentMode::Mailbox,
    };
    if v != cfg.vk_present_mode {
        cfg.set_vk_present_mode(v);
        let name = match v {
            VkPresentMode::Mailbox => "mailbox",
            VkPresentMode::Immediate => "immediate",
            VkPresentMode::Fifo => "fifo",
        };
        save(out, "vk_present_mode", name);
    }
}

/// What the choice under `Port` changes.
pub open spec fn stream_port_step(s: Synced, sel: Option<nat>) -> Synced {
    let v = picked(menu::STREAM_PORT_OPTIONS@, sel, s.cfg.stream_port as u32) as u16;
    s.with(
        ConfigView { stream_port: v, ..s.cfg },
        v != s.cfg.stream_port,
        "stream_port"@,
        number::decimal(v as nat),
    )
}

fn sync_stream_port(cfg: &mut Config, out: &mut Vec<Saved>, sel: Option<usize>)
    ensures
        (Synced { cfg: final(cfg).state(), saved: saves(final(out)@) }) == stream_port_step(
            Synced { cfg: old(cfg).state(), saved: saves(old(out)@) },
            place_of(sel),
        ),
{
    assert(cfg.stream_port == cfg.state().stream_port) by {
        reveal(Config::state);
    }
    let v: u32 = pick(menu::STREAM_PORT_OPTIONS.as_slice(), sel, cfg.stream_port as u32);
    assert(v <= 65535);
    if v != cfg.stream_port as u32 {
        cfg.set_stream_port(v as u16);
        save_number(out, "stream_port", v);
    }
}

/// What the choice under `Quality` changes.
pub open spec fn stream_quality_step(s: Synced, sel: Option<nat>) -> Synced {
    let v = picked(menu::STREAM_QUALITY_OPTIONS@, sel, s.cfg.stream_quality);
    s.with(
        ConfigView { stream_quality: v, ..s.cfg },
        v != s.cfg.stream_quality,
        "stream_quality"@,
        number::decimal(v as nat),
    )
}

fn sync_stream_quality(cfg: &mut Config, out: &mut Vec<Saved>, sel: Option<usize>)
    ensures
        (Synced { cfg: final(cfg).state(), saved: saves(final(out)@) }) == stream_quality_step(
            Synced { cfg: old(cfg).state(), saved: saves(old(out)@) },
            place_of(sel),
        ),
{
    assert(cfg.stream_quality == cfg.state().stream_quality) by {
        reveal(Config::state);
    }
    let v: u32 = pick(menu::STREAM_QUALITY_OPTIONS.as_slice(), sel, cfg.stream_quality);
    if v != cfg.stream_quality {
        cfg.set_stream_quality(v);
        save_number(out, "stream_quality", v);
    }
}

/// What the choice under `Grid Columns` changes.
pub open spec fn strip_cols_step(s: Synced, sel: Option<nat>) -> Synced {
    let v = picked(menu::STRIP_GRID_OPTIONS@, sel, s.cfg.strip_cols);
    s.with(
        ConfigView { strip_cols: v, ..s.cfg },
        v != s.cfg.strip_cols,
        "strip_cols"@,
        number::decimal(v as nat),
    )
}

fn sync_strip_cols(cfg: &mut Config, out: &mut Vec<Saved>, sel: Option<usize>)
    ensures
        (Synced { cfg: final(cfg).state(), saved: saves(final(out)@) }) == strip_cols_step(
            Synced { cfg: old(cfg).state(), saved: saves(old(out)@) },
            place_of(sel),
        ),
{
    assert(cfg.strip_cols == cfg.state().strip_cols) by {
        reveal(Config::state);
    }
    let v: u32 = pick(menu::STRIP_GRID_OPTIONS.as_slice(), sel, cfg.strip_cols);
    if v != cfg.strip_cols {
        cfg.set_strip_cols(v);
        save_number(out, "strip_cols", v);
    }
}

/// What the choice under `Grid Rows` changes.
pub open spec fn strip_rows_step(s: Synced, sel: Option<nat>) -> Synced {
    let v = picked(menu::STRIP_GRID_OPTIONS@, sel, s.cfg.strip_rows);
    s.with(
        ConfigView { strip_rows: v, ..s.cfg },
        v != s.cfg.strip_rows,
        "strip_rows"@,
        number::decimal(v as nat),
    )
}

fn sync_strip_rows(cfg: &mut Config, out: &mut Vec<Saved>, sel: Option<usize>)
    ensures
        (Synced { cfg: final(cfg).state(), saved: saves(final(out)@) }) == strip_rows_step(
            Synced { cfg: old(cfg).state(), saved: saves(old(out)@) },
            place_of(sel),
        ),
{
    assert(cfg.strip_rows == cfg.state().strip_rows) by {
        reveal(Config::state);
    }
    let v: u32 = pick(menu::STRIP_GRID_OPTIONS.as_slice(), sel, cfg.strip_rows);
    if v != cfg.strip_rows {
        cfg.set_strip_rows(v);
        save_number(out, "strip_rows", v);
    }
}

/// The choice that a place in the menu stands for.
pub open spec fn audio_mode_at(sel: Option<nat>, now: AudioMode) -> AudioMode {
    match sel {
        None => now,
        Some(i) if i == 1 => AudioMode::Passthrough,
        Some(_) => AudioMode::Capture,
    }
}

/// Its name in the configuration file.
pub open spec fn audio_mode_name(v: AudioMode) -> Seq<char> {
    match v {
        AudioMode::Passthrough => "passthrough"@,
        AudioMode::Capture => "capture"@,
    }
}

/// What the choice under `Audio Mode` changes.
pub open spec fn audio_mode_step(s: Synced, sel: Option<nat>) -> Synced {
    let v = audio_mode_at(sel, s.cfg.audio_mode);
    s.with(
        ConfigView { audio_mode: v, ..s.cfg },
        v != s.cfg.audio_mode,
        "audio_mode"@,
        audio_mode_name(v),
    )
}

fn sync_audio_mode(cfg: &mut Config, out: &mut Vec<Saved>, sel: Option<usize>)
    ensures
        (Synced { cfg: final(cfg).state(), saved: saves(final(out)@) }) == audio_mode_step(
            Synced { cfg: old(cfg).state(), saved: saves(old(out)@) },
            place_of(sel),
        ),
{
    assert(cfg.audio_mode == cfg.state().audio_mode) by {
        reveal(Config::state);
    }
    let v = match sel {
        None => cfg.audio_mode,
        Some(1) => AudioMode::Passthrough,
        Some(_) => AudioMode::Capture,
    };
    if v != cfg.audio_mode {
        cfg.set_audio_mode(v);
        let name = match v {
            AudioMode::Passthrough => "passthrough",
            AudioMode::Capture => "capture",
        };
        save(out, "audio_mode", name);
    }
}

/// The switch that a place in the menu stands for.
pub open spec fn switch_at(sel: Option<nat>, now: nat) -> nat {
    match sel {
        None => now,
        Some(i) if i == 1 => 1,
        Some(_) => 0,
    }
}

/// Its name in the configuration file.
pub open spec fn switch_name(v: nat) -> Seq<char> {
    if v == 1 {
        "true"@
    } else {
        "false"@
    }
}

/// What the choice under `Pause on Minimize` changes.
pub open spec fn pause_on_minimize_step(s: Synced, sel: Option<nat>) -> Synced {
    let v = switch_at(sel, s.cfg.pause_on_minimize);
    s.with(
        ConfigView { pause_on_minimize: v, ..s.cfg },
        v != s.cfg.pause_on_minimize,
        "pause_on_minimize"@,
        switch_name(v),
    )
}

fn sync_pause_on_minimize(cfg: &mut Config, out: &mut Vec<Saved>, sel: Option<usize>)
    ensures
        (Synced { cfg: final(cfg).state(), saved: saves(final(out)@) }) == pause_on_minimize_step(
            Synced { cfg: old(cfg).state(), saved: saves(old(out)@) },
            place_of(sel),
        ),
{
    assert(config::bit(cfg.pause_on_minimize) == cfg.state().pause_on_minimize) by {
        reveal(Config::state);
    }
    let v = match sel {
        None => cfg.pause_on_minimize,
        Some(i) => i == 1,
    };
    if v != cfg.pause_on_minimize {
        cfg.set_pause_on_minimize(v);
        save(
            out,
            "pause_on_minimize",
            if v {
                "true"
            } else {
                "false"
            },
        );
    }
}

/// What the choice under `Pause on Background` changes.
pub open spec fn pause_on_background_step(s: Synced, sel: Option<nat>) -> Synced {
    let v = switch_at(sel, s.cfg.pause_on_background);
    s.with(
        ConfigView { pause_on_background: v, ..s.cfg },
        v != s.cfg.pause_on_background,
        "pause_on_background"@,
        switch_name(v),
    )
}

fn sync_pause_on_background(cfg: &mut Config, out: &mut Vec<Saved>, sel: Option<usize>)
    ensures
        (Synced { cfg: final(cfg).state(), saved: saves(final(out)@) }) == pause_on_background_step(
            Synced { cfg: old(cfg).state(), saved: saves(old(out)@) },
            place_of(sel),
        ),
{
    assert(config::bit(cfg.pause_on_background) == cfg.state().pause_on_background) by {
        reveal(Config::state);
    }
    let v = match sel {
        None => cfg.pause_on_background,
        Some(i) => i == 1,
    };
    if v != cfg.pause_on_background {
        cfg.set_pause_on_background(v);
        save(
            out,
            "pause_on_background",
            if v {
                "true"
            } else {
                "false"
            },
        );
    }
}

/// What the first half of the menu changes.
pub open spec fn synced_picture(
    s: Synced,
    m: Seq<ItemView>,
    used: AspectMode,
    immediate: bool,
) -> Synced {
    let a = format_step(s, menu::selection(m, "Format"@));
    let b = jpeg_quality_step(a, menu::selection(m, "JPEG Quality"@));
    let c = backend_step(b, menu::selection(m, "Backend"@));
    let d = aspect_step(c, used, menu::selection(m, "Aspect"@));
    present_step(d, immediate, menu::selection(m, "Present Mode"@))
}

/// What the second half of the menu changes.
pub open spec fn synced_rest(s: Synced, m: Seq<ItemView>) -> Synced {
    let a = stream_port_step(s, menu::selection(m, "Port"@));
    let b = stream_quality_step(a, menu::selection(m, "Quality"@));
    let c = strip_cols_step(b, menu::selection(m, "Grid Columns"@));
    let d = strip_rows_step(c, menu::selection(m, "Grid Rows"@));
    let e = audio_mode_step(d, menu::selection(m, "Audio Mode"@));
    let f = pause_on_minimize_step(e, menu::selection(m, "Pause on Minimize"@));
    pause_on_background_step(f, menu::selection(m, "Pause on Background"@))
}

/// What the menu changes.
pub open spec fn synced(
    cfg: ConfigView,
    m: Seq<ItemView>,
    used: AspectMode,
    immediate: bool,
) -> Synced {
    synced_rest(synced_picture(Synced { cfg, saved: Seq::empty() }, m, used, immediate), m)
}

fn chosen(m: &[MenuItem], label: &str) -> (r: Option<usize>)
    ensures
        place_of(r) == menu::selection(menu::items(m@), label@),
{
    menu::find_menu_value(m, label)
}

fn sync_picture(
    m: &[MenuItem],
    cfg: &mut Config,
    used: &mut AspectMode,
    immediate: bool,
    out: &mut Vec<Saved>,
)
    ensures
        (Synced { cfg: final(cfg).state(), saved: saves(final(out)@) }) == synced_picture(
            Synced { cfg: old(cfg).state(), saved: saves(old(out)@) },
            menu::items(m@),
            *old(used),
            immediate,
        ),
        *final(used) == aspect_at(menu::selection(menu::items(m@), "Aspect"@), *old(used)),
{
    sync_format(cfg, out, chosen(m, "Format"));
    sync_jpeg_quality(cfg, out, chosen(m, "JPEG Quality"));
    sync_backend(cfg, out, chosen(m, "Backend"));
    sync_aspect(cfg, out, used, chosen(m, "Aspect"));
    sync_present(cfg, out, immediate, chosen(m, "Present Mode"));
}

fn sync_rest(m: &[MenuItem], cfg: &mut Config, out: &mut Vec<Saved>)
    ensures
        (Synced { cfg: final(cfg).state(), saved: saves(final(out)@) }) == synced_rest(
            Synced { cfg: old(cfg).state(), saved: saves(old(out)@) },
            menu::items(m@),
        ),
{
    sync_stream_port(cfg, out, chosen(m, "Port"));
    sync_stream_quality(cfg, out, chosen(m, "Quality"));
    sync_strip_cols(cfg, out, chosen(m, "Grid Columns"));
    sync_strip_rows(cfg, out, chosen(m, "Grid Rows"));
    sync_audio_mode(cfg, out, chosen(m, "Audio Mode"));
    sync_pause_on_minimize(cfg, out, chosen(m, "Pause on Minimize"));
    sync_pause_on_background(cfg, out, chosen(m, "Pause on Background"));
}

/// Takes the choices of the menu over into the settings and gives the keys to
/// write, in order.
pub fn sync_menu_to_config(
    m: &[MenuItem],
    cfg: &mut Config,
    used: &mut AspectMode,
    immediate: bool,
) -> (r: Vec<Saved>)
    ensures
        (Synced { cfg: final(cfg)@, saved: saves(r@) }) == synced(
            old(cfg)@,
            menu::items(m@),
            *old(used),
            immediate,
        ),
        *final(used) == aspect_at(menu::selection(menu::items(m@), "Aspect"@), *old(used)),
{
    let mut out: Vec<Saved> = Vec::new();
    assert(saves(out@) =~= Seq::empty());
    assert(cfg@ == cfg.state()) by {
        reveal(Config::state);
    }
    sync_picture(m, cfg, used, immediate, &mut out);
    sync_rest(m, cfg, &mut out);
    assert(cfg@ == cfg.state()) by {
        reveal(Config::state);
    }
    out
}

/// A menu that was taken over changes nothing more and writes nothing more.
pub proof fn law_sync_settles(
    cfg: ConfigView,
    m: Seq<ItemView>,
    used: AspectMode,
    immediate: bool,
)
    ensures
        ({
            let once = synced(cfg, m, used, immediate).cfg;
            let now = aspect_at(menu::selection(m, "Aspect"@), used);
            synced(once, m, now, immediate) == (Synced { cfg: once, saved: Seq::empty() })
        }),
{
}

/// The menu takes no setting out of its range.
pub proof fn law_sync_keeps_ranges(
    cfg: ConfigView,
    m: Seq<ItemView>,
    used: AspectMode,
    immediate: bool,
)
    requires
        config::in_range(cfg),
    ensures
        config::in_range(synced(cfg, m, used, immediate).cfg),
{
}

/// What the menu says of frame generation and scaling; `None` where it does not
/// show it.
#[derive(Clone, Copy, Debug, PartialEq, Eq, Structural)]
pub struct FramegenChoice {
    pub mode: Option<FrameGenMode>,
    pub quality: Option<FrameGenQuality>,
    pub target_fps: Option<u32>,
    pub scaling: Option<ScaleMode>,
    pub sharpness: Option<u32>,
}

/// The scaling at a place in the menu of Vulkan.
pub open spec fn vk_scale_at(i: nat) -> ScaleMode {
    if i == 0 {
        ScaleMode::Nearest
    } else if i == 2 {
        ScaleMode::Cas
    } else if i == 3 {
        ScaleMode::Fsr
    } else {
        ScaleMode::Bilinear
    }
}

/// The quality at a place in the menu.
pub open spec fn quality_at(i: nat) -> FrameGenQuality {
    if i == 0 {
        FrameGenQuality::Fast
    } else if i == 2 {
        FrameGenQuality::Quality
    } else {
        FrameGenQuality::Balanced
    }
}

/// What a menu says of frame generation and scaling. `rife` tells whether a
/// neural model can be run.
pub open spec fn framegen_choice(m: Seq<ItemView>, use_vk: bool, rife: bool) -> FramegenChoice {
    FramegenChoice {
        mode: match menu::selection(m, "Frame Gen"@) {
            Some(i) => Some(FrameGenMode::at(i as int, rife)),
            None => None,
        },
        quality: match menu::selection(m, "FG Quality"@) {
            Some(i) => Some(quality_at(i)),
            None => None,
        },
        target_fps: match menu::selection(m, "Target FPS"@) {
            Some(i) => Some(picked(menu::TARGET_FPS_OPTIONS@, Some(i), 0)),
            None => None,
        },
        scaling: match menu::selection(m, "Scaling"@) {
            Some(i) => Some(
                if use_vk {
                    vk_scale_at(i)
                } else {
                    ScaleMode::at(i as int)
                },
            ),
            None => None,
        },
        sharpness: match menu::selection(m, "Sharpness"@) {
            Some(i) => Some(i as u32),
            None => None,
        },
    }
}

/// Reads what the menu says of frame generation and scaling.
pub fn read_framegen_menu(m: &[MenuItem], use_vk: bool, rife: bool) -> (r: FramegenChoice)
    ensures
        r == framegen_choice(menu::items(m@), use_vk, rife),
{
    let mode = match menu::find_menu_value(m, "Frame Gen") {
        Some(i) => Some(FrameGenMode::from_index(i, rife)),
        None => None,
    };
    let quality = match menu::find_menu_value(m, "FG Quality") {
        Some(0) => Some(FrameGenQuality::Fast),
        Some(2) => Some(FrameGenQuality::Quality),
        Some(_) => Some(FrameGenQuality::Balanced),
        None => None,
    };
    let target_fps = match menu::find_menu_value(m, "Target FPS") {
        Some(i) => Some(pick(menu::TARGET_FPS_OPTIONS.as_slice(), Some(i), 0)),
        None => None,
    };
    let scaling = match menu::find_menu_value(m, "Scaling") {
        Some(i) => Some(
            if use_vk {
                match i {
                    0 => ScaleMode::Nearest,
                    2 => ScaleMode::Cas,
                    3 => ScaleMode::Fsr,
                    _ => ScaleMode::Bilinear,
                }
            } else {
                ScaleMode::from_index(i)
            },
        ),
        None => None,
    };
    let sharpness = match menu::find_menu_value(m, "Sharpness") {
        Some(i) => Some(i as u32),
        None => None,
    };
    FramegenChoice { mode, quality, target_fps, scaling, sharpness }
}

/// The name of a mode of frame generation in the configuration file.
pub open spec fn framegen_mode_name(m: FrameGenMode) -> Seq<char> {
    match m {
        FrameGenMode::Off => "off"@,
        FrameGenMode::Extrapolate => "extrapolate"@,
        FrameGenMode::Interpolate => "interpolate"@,
        FrameGenMode::Rife => "rife"@,
    }
}

/// Names a mode of frame generation as the configuration file does.
pub fn framegen_mode_str(m: FrameGenMode) -> (r: &'static str)
    ensures
        r@ == framegen_mode_name(m),
{
    match m {
        FrameGenMode::Off => "off",
        FrameGenMode::Extrapolate => "extrapolate",
        FrameGenMode::Interpolate => "interpolate",
        FrameGenMode::Rife => "rife",
    }
}

/// The name of a quality of frame generation in the configuration file.
pub open spec fn framegen_quality_name(q: FrameGenQuality) -> Seq<char> {
    match q {
        FrameGenQuality::Fast => "fast"@,
        FrameGenQuality::Balanced => "balanced"@,
        FrameGenQuality::Quality => "quality"@,
    }
}

/// Names a quality of frame generation as the configuration file does.
pub fn framegen_quality_str(q: FrameGenQuality) -> (r: &'static str)
    ensures
        r@ == framegen_quality_name(q),
{
    match q {
        FrameGenQuality::Fast => "fast",
        FrameGenQuality::Balanced => "balanced",
        FrameGenQuality::Quality => "quality",
    }
}

/// What is to be done about a virtual device.
#[derive(Clone, Copy, Debug, PartialEq, Eq, Structural)]
pub enum DeviceStep {
    Nothing,
    Start,
    Stop,
    /// It needs the sound to be read by this program: tell so, and switch it off
    /// in the menu.
    NeedsCapture,
    /// It needs sound: tell so, and switch it off in the menu.
    NeedsAudio,
}

/// What a switch and a device that runs or does not run come to.
pub open spec fn device_step(sel: Option<nat>, is_on: bool) -> DeviceStep {
    match sel {
        None => DeviceStep::Nothing,
        Some(i) => if (i == 1) == is_on {
            DeviceStep::Nothing
        } else if is_on {
            DeviceStep::Stop
        } else {
            DeviceStep::Start
        },
    }
}

fn next_step(sel: Option<usize>, is_on: bool) -> (r: DeviceStep)
    ensures
        r == device_step(place_of(sel), is_on),
{
    match sel {
        None => DeviceStep::Nothing,
        Some(i) => if (i == 1) == is_on {
            DeviceStep::Nothing
        } else if is_on {
            DeviceStep::Stop
        } else {
            DeviceStep::Start
        },
    }
}

/// Decides about the virtual webcam.
pub fn sync_vcam_menu(m: &[MenuItem], is_on: bool) -> (r: DeviceStep)
    ensures
        r == device_step(menu::selection(menu::items(m@), "Virtual Webcam"@), is_on),
{
    next_step(menu::find_menu_value(m, "Virtual Webcam"), is_on)
}

/// Decides about the virtual microphone, which needs sound that this program
/// reads.
pub fn sync_vmic_menu(m: &[MenuItem], is_on: bool, audio: Option<AudioMode>) -> (r: DeviceStep)
    ensures
        ({
            let step = device_step(menu::selection(menu::items(m@), "Virtual Mic"@), is_on);
            r == (if step != DeviceStep::Start {
                step
            } else {
                match audio {
                    Some(AudioMode::Capture) => DeviceStep::Start,
                    Some(AudioMode::Passthrough) => DeviceStep::NeedsCapture,
                    None => DeviceStep::NeedsAudio,
                }
            })
        }),
{
    let step = next_step(menu::find_menu_value(m, "Virtual Mic"), is_on);
    if step != DeviceStep::Start {
        return step;
    }
    match audio {
        Some(AudioMode::Capture) => DeviceStep::Start,
        Some(AudioMode::Passthrough) => DeviceStep::NeedsCapture,
        None => DeviceStep::NeedsAudio,
    }
}

/// Notes in the settings that the virtual webcam was started or stopped, and
/// gives the key to write. A start that failed changes nothing.
pub fn vcam_done(cfg: &mut Config, on: bool) -> (r: Saved)
    ensures
        final(cfg)@ == (ConfigView { virtual_webcam: config::bit(on), ..old(cfg)@ }),
        r.key@ == "virtual_webcam"@,
        r.value@ == switch_name(config::bit(on)),
{
    assert(cfg@ == cfg.state()) by {
        reveal(Config::state);
    }
    cfg.set_virtual_webcam(on);
    assert(cfg@ == cfg.state()) by {
        reveal(Config::state);
    }
    Saved {
        key: "virtual_webcam".to_owned(),
        value: if on {
            "true".to_owned()
        } else {
            "false".to_owned()
        },
    }
}

/// Notes in the settings that the virtual microphone was started or stopped, and
/// gives the key to write. A start that failed changes nothing.
pub fn vmic_done(cfg: &mut Config, on: bool) -> (r: Saved)
    ensures
        final(cfg)@ == (ConfigView { virtual_mic: config::bit(on), ..old(cfg)@ }),
        r.key@ == "virtual_mic"@,
        r.value@ == switch_name(config::bit(on)),
{
    assert(cfg@ == cfg.state()) by {
        reveal(Config::state);
    }
    cfg.set_virtual_mic(on);
    assert(cfg@ == cfg.state()) by {
        reveal(Config::state);
    }
    Saved {
        key: "virtual_mic".to_owned(),
        value: if on {
            "true".to_owned()
        } else {
            "false".to_owned()
        },
    }
}

} // verus!
