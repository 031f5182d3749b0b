//! What the menu changes besides the plain settings: levels of the picture and of
//! the display, frame generation and scaling, and the sound.

use vstd::prelude::*;

use crate::config;
use crate::config::AudioMode;
use crate::config::Config;
use crate::config::ConfigView;
use crate::framegen::FrameGenMode;
use crate::framegen::FrameGenQuality;
use crate::gl_renderer::ScaleMode;
use crate::menu;
use crate::menu::ItemView;
use crate::menu::MenuItem;
use crate::menu_build::AudioShown;
use crate::menu_sync;
use crate::menu_sync::FramegenChoice;
use crate::menu_sync::Saved;
use crate::menu_sync::Synced;
use crate::number;
use crate::pacing;
use crate::pacing::Pacing;
use crate::text;

verus! {

/// Whether the places chosen for the levels are ones that the menu has.
pub open spec fn levels_fit(m: Seq<ItemView>) -> bool {
    &&& menu::selection(m, "Brightness"@) matches Some(i) ==> i < 40
    &&& menu::selection(m, "Contrast"@) matches Some(i) ==> i < 40
    &&& menu::selection(m, "Gamma"@) matches Some(i) ==> i < 30
    &&& menu::selection(m, "OSD Opacity"@) matches Some(i) ==> i < 21
}

/// The level at a place: so many steps, where the first place is `first` steps.
pub open spec fn level_at(sel: Option<nat>, step: int, first: int, now: u32) -> u32 {
    match sel {
        Some(i) => (step * (first + i)) as u32,
        None => now,
    }
}

fn level(sel: Option<usize>, step: u32, first: u32, now: u32) -> (r: u32)
    requires
        sel matches Some(i) ==> i < 40,
        step <= 10,
        first <= 1,
    ensures
        r == level_at(menu_sync::place_of(sel), step as int, first as int, now),
{
    match sel {
        Some(i) => {
            let steps: u32 = first + i as u32;
            assert(step * steps <= 410) by (nonlinear_arith)
                requires
                    step <= 10,
                    steps <= 41,
            ;
            step * steps
        },
        None => now,
    }
}

/// What the choice of the brightness changes.
pub open spec fn brightness_step(s: Synced, sel: Option<nat>) -> Synced {
    let v = level_at(sel, 5, 1, s.cfg.brightness);
    s.with(
        ConfigView { brightness: v, ..s.cfg },
        v != s.cfg.brightness,
        "brightness"@,
        number::decimal(v as nat),
    )
}

/// What the choice of the contrast changes.
pub open spec fn contrast_step(s: Synced, sel: Option<nat>) -> Synced {
    let v = level_at(sel, 5, 1, s.cfg.contrast);
    s.with(
        ConfigView { contrast: v, ..s.cfg },
        v != s.cfg.contrast,
        "contrast"@,
        number::decimal(v as nat),
    )
}

/// What the choice of the gamma changes.
pub open spec fn gamma_step(s: Synced, sel: Option<nat>) -> Synced {
    let v = level_at(sel, 10, 1, s.cfg.gamma);
    s.with(
        ConfigView { gamma: v, ..s.cfg },
        v != s.cfg.gamma,
        "gamma"@,
        number::decimal(v as nat),
    )
}

/// What the choice of the opacity changes.
pub open spec fn opacity_step(s: Synced, sel: Option<nat>) -> Synced {
    let v = level_at(sel, 5, 0, s.cfg.osd_opacity);
    s.with(
        ConfigView { osd_opacity: v, ..s.cfg },
        v != s.cfg.osd_opacity,
        "osd_opacity"@,
        number::decimal(v as nat),
    )
}

/// What the choices of levels change.
pub open spec fn levelled(cfg: ConfigView, m: Seq<ItemView>) -> Synced {
    let s = Synced { cfg, saved: Seq::empty() };
    let a = brightness_step(s, menu::selection(m, "Brightness"@));
    let b = contrast_step(a, menu::selection(m, "Contrast"@));
    let c = gamma_step(b, menu::selection(m, "Gamma"@));
    opacity_step(c, menu::selection(m, "OSD Opacity"@))
}

fn save_level(out: &mut Vec<Saved>, key: &str, n: u32)
    ensures
        menu_sync::saves(final(out)@) == menu_sync::saves(old(out)@).push(
            (key@, number::decimal(n as nat)),
        ),
{
    let ghost before = out@;
    let value = text::string_of(number::to_decimal(n as u64).as_slice());
    out.push(Saved { key: key.to_owned(), value });
    assert(menu_sync::saves(out@) =~= menu_sync::saves(before).push(
        (key@, number::decimal(n as nat)),
    ));
}

/// Takes the choices of levels over into the settings and gives the keys to
/// write.
pub fn sync_levels(m: &[MenuItem], cfg: &mut Config) -> (r: Vec<Saved>)
    requires
        levels_fit(menu::items(m@)),
    ensures
        (Synced { cfg: final(cfg)@, saved: menu_sync::saves(r@) }) == levelled(
            old(cfg)@,
            menu::items(m@),
        ),
{
    let mut out: Vec<Saved> = Vec::new();
    assert(menu_sync::saves(out@) =~= Seq::empty());
    assert(cfg@ == cfg.state() && cfg.brightness == cfg.state().brightness && cfg.contrast
        == cfg.state().contrast && cfg.gamma == cfg.state().gamma && cfg.osd_opacity
        == cfg.state().osd_opacity) by {
        reveal(Config::state);
    }
    let brightness: u32 = cfg.brightness;
    let contrast: u32 = cfg.contrast;
    let gamma: u32 = cfg.gamma;
    let opacity: u32 = cfg.osd_opacity;
    let v: u32 = level(menu::find_menu_value(m, "Brightness"), 5, 1, brightness);
    if v != brightness {
        cfg.set_brightness(v);
        save_level(&mut out, "brightness", v);
    }
    let v: u32 = level(menu::find_menu_value(m, "Contrast"), 5, 1, contrast);
    if v != contrast {
        cfg.set_contrast(v);
        save_level(&mut out, "contrast", v);
    }
    let v: u32 = level(menu::find_menu_value(m, "Gamma"), 10, 1, gamma);
    if v != gamma {
        cfg.set_gamma(v);
        save_level(&mut out, "gamma", v);
    }
    let v: u32 = level(menu::find_menu_value(m, "OSD Opacity"), 5, 0, opacity);
    if v != opacity {
        cfg.set_osd_opacity(v);
        save_level(&mut out, "osd_opacity", v);
    }
    assert(cfg@ == cfg.state()) by {
        reveal(Config::state);
    }
    out
}

/// The choices of levels stay in their ranges, and taken over once they change
/// nothing more.
pub proof fn law_levels_in_range(cfg: ConfigView, m: Seq<ItemView>)
    requires
        levels_fit(m),
        config::in_range(cfg),
    ensures
        config::in_range(levelled(cfg, m).cfg),
        levelled(levelled(cfg, m).cfg, m) == (Synced {
            cfg: levelled(cfg, m).cfg,
            saved: Seq::empty(),
        }),
{
}

/// What is chosen of frame generation and scaling.
#[derive(Clone, Copy, Debug, PartialEq, Eq, Structural)]
pub struct FramegenState {
    pub mode: FrameGenMode,
    pub quality: FrameGenQuality,
    pub scaling: ScaleMode,
    pub sharpness: u32,
}

/// What changed; `None` where it did not.
#[derive(Clone, Copy, Debug, PartialEq, Eq, Structural)]
pub struct FramegenChange {
    pub mode: Option<FrameGenMode>,
    pub quality: Option<FrameGenQuality>,
    pub target_fps: Option<u32>,
    pub scaling: Option<ScaleMode>,
    pub sharpness: Option<u32>,
}

/// The mode that a chosen one comes to: where it needs a neural model and that
/// failed to load, frame generation is switched off.
pub open spec fn mode_had(m: FrameGenMode, failed: bool) -> FrameGenMode {
    if m == FrameGenMode::Rife && failed {
        FrameGenMode::Off
    } else {
        m
    }
}

/// What a choice changes. `failed` tells whether the model that the chosen mode
/// needs failed to load.
pub open spec fn changes(
    s: FramegenState,
    rate: u32,
    c: FramegenChoice,
    failed: bool,
) -> FramegenChange {
    FramegenChange {
        mode: if c.mode is Some && c.mode->0 != s.mode {
            Some(mode_had(c.mode->0, failed))
        } else {
            None
        },
        quality: if c.quality is Some && c.quality->0 != s.quality {
            c.quality
        } else {
            None
        },
        target_fps: if c.target_fps is Some && c.target_fps->0 != rate {
            c.target_fps
        } else {
            None
        },
        scaling: if c.scaling is Some && c.scaling->0 != s.scaling {
            c.scaling
        } else {
            None
        },
        sharpness: if c.sharpness is Some && c.sharpness->0 != s.sharpness {
            c.sharpness
        } else {
            None
        },
    }
}

/// The state after changes.
pub open spec fn changed(s: FramegenState, d: FramegenChange) -> FramegenState {
    FramegenState {
        mode: match d.mode {
            Some(m) => m,
            None => s.mode,
        },
        quality: match d.quality {
            Some(q) => q,
            None => s.quality,
        },
        scaling: match d.scaling {
            Some(m) => m,
            None => s.scaling,
        },
        sharpness: match d.sharpness {
            Some(n) => n,
            None => s.sharpness,
        },
    }
}

/// A key that is written where there is something to write.
pub open spec fn entry(key: Seq<char>, value: Option<Seq<char>>) -> Seq<(Seq<char>, Seq<char>)> {
    match value {
        Some(v) => seq![(key, v)],
        None => Seq::empty(),
    }
}

/// The keys that are written for changes.
pub open spec fn written(d: FramegenChange) -> Seq<(Seq<char>, Seq<char>)> {
    entry(
        "framegen_mode"@,
        match d.mode {
            Some(m) => Some(menu_sync::framegen_mode_name(m)),
            None => None,
        },
    ) + entry(
        "framegen_quality"@,
        match d.quality {
            Some(q) => Some(menu_sync::framegen_quality_name(q)),
            None => None,
        },
    ) + entry(
        "target_fps"@,
        match d.target_fps {
            Some(n) => Some(number::decimal(n as nat)),
            None => None,
        },
    ) + entry(
        "scale_mode"@,
        match d.scaling {
            Some(m) => Some(m.name()),
            None => None,
        },
    ) + entry(
        "sharpness"@,
        match d.sharpness {
            Some(n) => Some(number::decimal(n as nat)),
            None => None,
        },
    )
}

/// Holds a choice against the state. `failed` tells whether the model that the
/// chosen mode needs failed to load.
pub fn find_changes(s: FramegenState, rate: u32, c: FramegenChoice, failed: bool) -> (r:
    FramegenChange)
    ensures
        r == changes(s, rate, c, failed),
{
    FramegenChange {
        mode: match c.mode {
            Some(m) => if m != s.mode {
                if m == FrameGenMode::Rife && failed {
                    Some(FrameGenMode::Off)
                } else {
                    Some(m)
                }
            } else {
                None
            },
            None => None,
        },
        quality: match c.quality {
            Some(q) => if q != s.quality {
                Some(q)
            } else {
                None
            },
            None => None,
        },
        target_fps: match c.target_fps {
            Some(n) => if n != rate {
                Some(n)
            } else {
                None
            },
            None => None,
        },
        scaling: match c.scaling {
            Some(m) => if m != s.scaling {
                Some(m)
            } else {
                None
            },
            None => None,
        },
        sharpness: match c.sharpness {
            Some(n) => if n != s.sharpness {
                Some(n)
            } else {
                None
            },
            None => None,
        },
    }
}

fn add(out: &mut Vec<Saved>, key: &str, value: &str)
    ensures
        menu_sync::saves(final(out)@) == menu_sync::saves(old(out)@) + seq![(key@, value@)],
{
    let ghost before = out@;
    out.push(Saved { key: key.to_owned(), value: value.to_owned() });
    assert(menu_sync::saves(out@) =~= menu_sync::saves(before) + seq![(key@, value@)]);
}

fn write_changes(d: FramegenChange) -> (r: Vec<Saved>)
    ensures
        menu_sync::saves(r@) == written(d),
{
    let mut out: Vec<Saved> = Vec::new();
    assert(menu_sync::saves(out@) =~= Seq::empty());
    if let Some(m) = d.mode {
        self::add(&mut out, "framegen_mode", menu_sync::framegen_mode_str(m));
    }
    if let Some(q) = d.quality {
        self::add(&mut out, "framegen_quality", menu_sync::framegen_quality_str(q));
    }
    if let Some(n) = d.target_fps {
        save_level(&mut out, "target_fps", n);
    }
    if let Some(m) = d.scaling {
        self::add(&mut out, "scale_mode", m.config_name());
    }
    if let Some(n) = d.sharpness {
        save_level(&mut out, "sharpness", n);
    }
    assert(menu_sync::saves(out@) =~= written(d));
    out
}

/// Takes a choice of the menu over: into the state, into the spreading of frames
/// and into the settings. Gives what changed and the keys to write. Where the model
/// that the chosen mode needs failed to load, off is taken over and written.
pub fn apply_choice(
    s: &mut FramegenState,
    p: &mut Pacing,
    cfg: &mut Config,
    c: FramegenChoice,
    failed: bool,
) -> (r: (FramegenChange, Vec<Saved>))
    requires
        old(p).wf(),
    ensures
        r.0 == changes(*old(s), old(p).target_fps, c, failed),
        *final(s) == changed(*old(s), r.0),
        menu_sync::saves(r.1@) == written(r.0),
        final(p).wf(),
        final(p).source_fps == old(p).source_fps,
        final(p).deadline == old(p).deadline,
        final(p).synths == old(p).synths,
        final(p).target_fps == match r.0.target_fps {
            Some(n) => pacing::rate_of(n as int, old(p).source_fps as int),
            None => old(p).target_fps as int,
        },
        final(cfg)@ == (ConfigView {
            target_fps: match r.0.target_fps {
                Some(n) => n,
                None => old(cfg)@.target_fps,
            },
            sharpness: match r.0.sharpness {
                Some(n) => n,
                None => old(cfg)@.sharpness,
            },
            ..old(cfg)@
        }),
{
    let d = find_changes(*s, p.target_fps, c, failed);
    assert(cfg@ == cfg.state()) by {
        reveal(Config::state);
    }
    if let Some(m) = d.mode {
        s.mode = m;
    }
    if let Some(q) = d.quality {
        s.quality = q;
    }
    if let Some(n) = d.target_fps {
        let _ = p.set_target(n);
        cfg.set_target_fps(n);
    }
    if let Some(m) = d.scaling {
        s.scaling = m;
    }
    if let Some(n) = d.sharpness {
        s.sharpness = n;
        cfg.set_sharpness(n);
    }
    assert(cfg@ == cfg.state()) by {
        reveal(Config::state);
    }
    let saved = write_changes(d);
    (d, saved)
}

/// What the menu asks of the sound; `None` where it asks for nothing new.
#[derive(Clone, Copy, Debug, PartialEq, Eq)]
pub struct AudioChange {
    pub volume: Option<i32>,
    pub muted: Option<bool>,
    pub buffers: Option<(i32, i32)>,
}

/// A buffer size at a place in its table; what it was where there is no such
/// place.
pub open spec fn buffer_at(sel: Option<nat>, now: i32) -> i32 {
    match sel {
        Some(i) if i < menu::AUDIO_BUF_OPTIONS@.len() => menu::AUDIO_BUF_OPTIONS@[i as int] as i32,
        _ => now,
    }
}

fn to_buffer(sel: Option<usize>, now: i32) -> (r: i32)
    ensures
        r == buffer_at(menu_sync::place_of(sel), now),
{
    match sel {
        Some(i) => if i < menu::AUDIO_BUF_OPTIONS.len() {
            menu::AUDIO_BUF_OPTIONS[i] as i32
        } else {
            now
        },
        None => now,
    }
}

/// What a menu asks of the sound.
pub open spec fn audio_change(m: Seq<ItemView>, a: AudioShown) -> AudioChange {
    let cap = buffer_at(menu::selection(m, "Capture Buffer"@), a.capture_ms);
    let play = buffer_at(menu::selection(m, "Playback Buffer"@), a.playback_ms);
    AudioChange {
        volume: match menu::selection(m, "Volume"@) {
            Some(i) if 5 * i != a.volume => Some((5 * i) as i32),
            _ => None,
        },
        muted: match menu::selection(m, "Mute"@) {
            Some(i) if (i == 1) != a.muted => Some(i == 1),
            _ => None,
        },
        buffers: if cap != a.capture_ms || play != a.playback_ms {
            Some((cap, play))
        } else {
            None
        },
    }
}

/// Reads what the menu asks of the sound.
pub fn read_audio_menu(m: &[MenuItem], a: AudioShown) -> (r: AudioChange)
    requires
        menu::selection(menu::items(m@), "Volume"@) matches Some(i) ==> 5 * i <= i32::MAX,
    ensures
        r == audio_change(menu::items(m@), a),
{
    let volume = match menu::find_menu_value(m, "Volume") {
        Some(i) => {
            let v: i32 = 5 * i as i32;
            if v != a.volume {
                Some(v)
            } else {
                None
            }
        },
        None => None,
    };
    let muted = match menu::find_menu_value(m, "Mute") {
        Some(i) => if (i == 1) != a.muted {
            Some(i == 1)
        } else {
            None
        },
        None => None,
    };
    let cap: i32 = to_buffer(menu::find_menu_value(m, "Capture Buffer"), a.capture_ms);
    let play: i32 = to_buffer(menu::find_menu_value(m, "Playback Buffer"), a.playback_ms);
    AudioChange {
        volume,
        muted,
        buffers: if cap != a.capture_ms || play != a.playback_ms {
            Some((cap, play))
        } else {
            None
        },
    }
}

/// The mode of the sound that the menu asks for; `None` where it is the present
/// one.
pub fn read_audio_mode(m: &[MenuItem], now: AudioMode) -> (r: Option<AudioMode>)
    ensures
        ({
            let asked = menu_sync::audio_mode_at(
                menu::selection(menu::items(m@), "Audio Mode"@),
                now,
            );
            r == (if asked != now {
                Some(asked)
            } else {
                None
            })
        }),
{
    let asked = match menu::find_menu_value(m, "Audio Mode") {
        None => now,
        Some(1) => AudioMode::Passthrough,
        Some(_) => AudioMode::Capture,
    };
    if asked != now {
        Some(asked)
    } else {
        None
    }
}

} // verus!
