//! What the menu promises: the option it shows as selected says what the setting
//! is, and the option that is chosen becomes the setting that it says.

use vstd::prelude::*;

use crate::config::{AspectMode, AudioMode, Config, ConfigView, Platform, RendererBackend, ScreenshotFormat, VkPresentMode};
use crate::framegen::{FrameGenMode, FrameGenQuality};
use crate::gl_renderer::ScaleMode;
use crate::menu::{self, ItemView, KindView};
use crate::menu_build::{self, AudioShown, VideoShown};
use crate::menu_levels::{self, FramegenChange, FramegenState};
use crate::menu_sync::{self, DeviceStep, FramegenChoice, Synced};
use crate::number;

verus! {

/// The option that an item shows as selected.
pub open spec fn shown(i: ItemView) -> Seq<char> {
    match i.kind {
        KindView::Value { options, selected } => options[selected as int],
        KindView::Text(t) => t,
        _ => i.label,
    }
}

/// The choices that a table gives.
pub proof fn law_tables()
    ensures
        menu::QUALITY_OPTIONS@ == seq![50u32, 60, 70, 80, 85, 90, 95, 100],
        menu::STREAM_PORT_OPTIONS@ == seq![9000u32, 9001, 9002, 9010, 9100, 8000, 8080],
        menu::STREAM_QUALITY_OPTIONS@ == seq![40u32, 50, 60, 70, 80, 90, 95],
        menu::STRIP_GRID_OPTIONS@ == seq![1u32, 2, 3, 4, 5, 6],
        menu::AUDIO_BUF_OPTIONS@ == seq![5u32, 10, 15, 20, 30, 40, 50],
        menu::TARGET_FPS_OPTIONS@ == seq![0u32, 60, 90, 120, 144, 165, 180, 240],
{
    assert(menu::QUALITY_OPTIONS@ =~= seq![50u32, 60, 70, 80, 85, 90, 95, 100]);
    assert(menu::STREAM_PORT_OPTIONS@ =~= seq![9000u32, 9001, 9002, 9010, 9100, 8000, 8080]);
    assert(menu::STREAM_QUALITY_OPTIONS@ =~= seq![40u32, 50, 60, 70, 80, 90, 95]);
    assert(menu::STRIP_GRID_OPTIONS@ =~= seq![1u32, 2, 3, 4, 5, 6]);
    assert(menu::AUDIO_BUF_OPTIONS@ =~= seq![5u32, 10, 15, 20, 30, 40, 50]);
    assert(menu::TARGET_FPS_OPTIONS@ =~= seq![0u32, 60, 90, 120, 144, 165, 180, 240]);
}

/// The place of a number that a table has is where it stands.
pub proof fn law_place_of_a_number(table: Seq<u32>, n: int, other: nat, i: int)
    requires
        0 <= i < table.len(),
        table[i] == n,
    ensures
        menu::place(table, n, other) <= i,
        table[menu::place(table, n, other) as int] == n,
{
    lemma_place_from(table, n, other, 0, i);
}

proof fn lemma_place_from(table: Seq<u32>, n: int, other: nat, from: int, i: int)
    requires
        0 <= from <= i < table.len(),
        table[i] == n,
    ensures
        from <= menu::place_from(table, n, other, from) <= i,
        table[menu::place_from(table, n, other, from) as int] == n,
    decreases i - from,
{
    if table[from] != n {
        lemma_place_from(table, n, other, from + 1, i);
    }
}

/// A number that a table does not have is shown in the place that stands for it.
pub proof fn law_place_of_a_missing_number(table: Seq<u32>, n: int, other: nat)
    requires
        forall|i: int| 0 <= i < table.len() ==> #[trigger] table[i] != n,
    ensures
        menu::place(table, n, other) == other,
{
    lemma_missing(table, n, other, 0);
}

proof fn lemma_missing(table: Seq<u32>, n: int, other: nat, from: int)
    requires
        0 <= from <= table.len(),
        forall|i: int| 0 <= i < table.len() ==> #[trigger] table[i] != n,
    ensures
        menu::place_from(table, n, other, from) == other,
    decreases table.len() - from,
{
    if from < table.len() {
        assert(table[from] != n);
        lemma_missing(table, n, other, from + 1);
    }
}

/// What is shown for numbers that the tables do not have: 10 ms for a buffer, 90 per
/// cent for JPEG and 80 for streams, the port 9000, a grid of one column and six
/// rows, and the automatic rate.
pub proof fn law_numbers_that_are_not_offered(
    cfg: Config,
    v: VideoShown,
    a: AudioShown,
    platform: Platform,
    d: nat,
)
    requires
        !menu::AUDIO_BUF_OPTIONS@.map_values(|n: u32| n as int).contains(a.capture_ms as int),
        !menu::AUDIO_BUF_OPTIONS@.map_values(|n: u32| n as int).contains(a.playback_ms as int),
        !menu::QUALITY_OPTIONS@.map_values(|n: u32| n as int).contains(cfg.jpeg_quality as int),
        !menu::STREAM_PORT_OPTIONS@.map_values(|n: u32| n as int).contains(cfg.stream_port as int),
        !menu::STREAM_QUALITY_OPTIONS@.map_values(|n: u32| n as int).contains(
            cfg.stream_quality as int,
        ),
        !menu::STRIP_GRID_OPTIONS@.map_values(|n: u32| n as int).contains(cfg.strip_cols as int),
        !menu::STRIP_GRID_OPTIONS@.map_values(|n: u32| n as int).contains(cfg.strip_rows as int),
        !menu::TARGET_FPS_OPTIONS@.map_values(|n: u32| n as int).contains(v.target_fps as int),
        cfg.audio_mode == AudioMode::Capture,
        cfg.screenshot_format == ScreenshotFormat::Jpeg,
        v.fg_mode == FrameGenMode::Extrapolate,
    ensures
        shown(menu_build::audio_items(cfg, a, d)[7]) == number::decimal(10) + " ms"@,
        shown(menu_build::audio_items(cfg, a, d)[8]) == number::decimal(10) + " ms"@,
        shown(menu_build::screenshot_items(cfg, d)[1]) == number::decimal(90) + "%"@,
        shown(menu_build::streaming_items(cfg, true, true, platform, d)[1]) == number::decimal(9000)
            + ""@,
        shown(menu_build::streaming_items(cfg, true, true, platform, d)[2]) == number::decimal(80)
            + "%"@,
        shown(menu_build::strip_items(cfg, d)[0]) == number::decimal(1) + ""@,
        shown(menu_build::strip_items(cfg, d)[1]) == number::decimal(6) + ""@,
        shown(menu_build::framegen_items(v, d)[2]) == "Auto"@,
{
    law_tables();
    lemma_not_offered(menu::AUDIO_BUF_OPTIONS@, a.capture_ms as int, 1);
    lemma_not_offered(menu::AUDIO_BUF_OPTIONS@, a.playback_ms as int, 1);
    lemma_not_offered(menu::QUALITY_OPTIONS@, cfg.jpeg_quality as int, 5);
    lemma_not_offered(menu::STREAM_PORT_OPTIONS@, cfg.stream_port as int, 0);
    lemma_not_offered(menu::STREAM_QUALITY_OPTIONS@, cfg.stream_quality as int, 4);
    lemma_not_offered(menu::STRIP_GRID_OPTIONS@, cfg.strip_cols as int, 0);
    lemma_not_offered(menu::STRIP_GRID_OPTIONS@, cfg.strip_rows as int, 5);
    lemma_not_offered(menu::TARGET_FPS_OPTIONS@, v.target_fps as int, 0);
}

proof fn lemma_not_offered(table: Seq<u32>, n: int, other: nat)
    requires
        !table.map_values(|n: u32| n as int).contains(n),
    ensures
        menu::place(table, n, other) == other,
{
    let t = table.map_values(|n: u32| n as int);
    assert forall|i: int| 0 <= i < table.len() implies #[trigger] table[i] != n by {
        assert(t[i] == table[i]);
    }
    law_place_of_a_missing_number(table, n, other);
}

/// What a setting from a table is shown as: the number with its unit.
proof fn lemma_shown_number(table: Seq<u32>, n: int, other: nat, unit: Seq<char>, i: int)
    requires
        0 <= i < table.len(),
        table[i] == n,
    ensures
        menu::unit_labels(table, unit)[menu::place(table, n, other) as int] == number::decimal(
            n as nat,
        ) + unit,
        menu::place(table, n, other) < table.len(),
{
    law_place_of_a_number(table, n, other, i);
}

/// A level brought to the steps that the menu has: multiples of five from 5 to 200.
pub open spec fn step_of_five(n: nat) -> nat {
    if n < 5 {
        5
    } else if n > 200 {
        200
    } else {
        (n - n % 5) as nat
    }
}

/// The menu shows the picture as it is: what draws, the shape, brightness and
/// contrast in per cent and the gamma with one decimal.
pub proof fn law_picture_is_shown(cfg: Config, v: VideoShown, d: nat)
    ensures
        ({
            let p = menu_build::picture_items(cfg, v, d);
            &&& p[0].label == "Backend"@ && shown(p[0]) == (match cfg.renderer {
                RendererBackend::Sdl => "SDL"@,
                RendererBackend::OpenGl => "OpenGL"@,
                RendererBackend::Vulkan => "Vulkan"@,
            }) + (if (cfg.renderer == RendererBackend::Vulkan) == (v.active
                == RendererBackend::Vulkan) {
                Seq::empty()
            } else {
                " (restart)"@
            })
            &&& p[1].label == "Aspect"@ && shown(p[1]) == (match v.aspect {
                AspectMode::Preserve => "Preserve"@,
                AspectMode::Zoom => "Zoom"@,
                AspectMode::Stretch => "Stretch"@,
            })
            &&& p[2].label == "Brightness"@
            &&& shown(p[2]) == number::decimal(step_of_five(v.brightness as nat)) + "%"@
            &&& p[3].label == "Contrast"@
            &&& shown(p[3]) == number::decimal(step_of_five(v.contrast as nat)) + "%"@
            &&& p[4].label == "Gamma"@
            &&& 1 <= v.gamma <= 30 ==> shown(p[4]) == number::decimal((v.gamma / 10) as nat) + "."@
                + number::decimal((v.gamma % 10) as nat)
            &&& v.gamma < 1 ==> shown(p[4]) == number::decimal(0) + "."@ + number::decimal(1)
            &&& v.gamma > 30 ==> shown(p[4]) == number::decimal(3) + "."@ + number::decimal(0)
        }),
{
    let p = menu_build::picture_items(cfg, v, d);
    assert(shown(p[0]) =~= menu_build::backends(v.active)[menu_build::backend_place(
        cfg.renderer,
    ) as int]);
    let name = match cfg.renderer {
        RendererBackend::Sdl => "SDL"@,
        RendererBackend::OpenGl => "OpenGL"@,
        RendererBackend::Vulkan => "Vulkan"@,
    };
    assert(name + Seq::<char>::empty() =~= name);
    lemma_step_of_five(v.brightness as nat);
    lemma_step_of_five(v.contrast as nat);
}

proof fn lemma_step_of_five(n: nat)
    ensures
        menu_build::step_place(n, 5, 40) < 40,
        5 * (1 + menu_build::step_place(n, 5, 40)) == step_of_five(n),
{
}

/// The menu shows the scaling, how Vulkan presents and the sharpness.
pub proof fn law_scaling_is_shown(cfg: Config, v: VideoShown, d: nat)
    ensures
        cfg.renderer == RendererBackend::Sdl ==> menu_build::backend_items(cfg, v, d).len() == 0,
        cfg.renderer == RendererBackend::OpenGl ==> {
            let p = menu_build::backend_items(cfg, v, d);
            &&& p[0].label == "Scaling"@ && shown(p[0]) == (match v.scale_mode {
                ScaleMode::Nearest => "Nearest"@,
                ScaleMode::Bilinear => "Bilinear"@,
                ScaleMode::IntegerScale => "Integer"@,
                ScaleMode::Cas => "CAS"@,
                ScaleMode::Fsr => "FSR"@,
                ScaleMode::IntegerFsr => "Integer+FSR"@,
            })
        },
        cfg.renderer == RendererBackend::Vulkan ==> {
            let p = menu_build::backend_items(cfg, v, d);
            &&& p[0].label == "Scaling"@
            &&& v.scale_mode == ScaleMode::Nearest ==> shown(p[0]) == "Nearest"@
            &&& v.scale_mode == ScaleMode::Bilinear || v.scale_mode == ScaleMode::IntegerScale
                ==> shown(p[0]) == "Bilinear"@
            &&& v.scale_mode == ScaleMode::Cas ==> shown(p[0]) == "CAS"@
            &&& v.scale_mode == ScaleMode::Fsr || v.scale_mode == ScaleMode::IntegerFsr ==> shown(
                p[0],
            ) == "FSR"@
            &&& p.last().label == "Present Mode"@
            &&& !v.immediate && cfg.vk_present_mode == VkPresentMode::Immediate ==> shown(p.last())
                == "Mailbox"@
            &&& v.immediate || cfg.vk_present_mode != VkPresentMode::Immediate ==> shown(p.last()) == (
            match cfg.vk_present_mode {
                VkPresentMode::Mailbox => "Mailbox"@,
                VkPresentMode::Immediate => "Immediate"@,
                VkPresentMode::Fifo => "VSync (FIFO)"@,
            })
        },
        ({
            let s = menu_build::sharpness_items(v, d);
            &&& s.len() == 1 <==> v.scale_mode == ScaleMode::Cas || v.scale_mode == ScaleMode::Fsr
                || v.scale_mode == ScaleMode::IntegerFsr
            &&& s.len() == 1 ==> s[0].label == "Sharpness"@
            &&& s.len() == 1 ==> shown(s[0]) == number::decimal(
                if v.sharpness <= 10 {
                    v.sharpness as nat
                } else {
                    10
                },
            )
        }),
{
}

/// The menu shows the mode, the quality and the rate of frame generation, each
/// where it means something.
pub proof fn law_framegen_is_shown(v: VideoShown, d: nat)
    requires
        v.fg_mode.offered(v.rife),
    ensures
        ({
            let p = menu_build::framegen_items(v, d);
            &&& p[0].label == "Frame Gen"@ && shown(p[0]) == (match v.fg_mode {
                FrameGenMode::Off => "Off"@,
                FrameGenMode::Extrapolate => "Extrapolate"@,
                FrameGenMode::Interpolate => "Interpolate"@,
                FrameGenMode::Rife => "RIFE"@,
            })
            &&& v.fg_mode == FrameGenMode::Off <==> p.len() == 1
            &&& v.fg_mode == FrameGenMode::Rife <==> p.len() == 2
            &&& p.len() == 3 ==> p[1].label == "FG Quality"@ && shown(p[1]) == (match v.fg_quality {
                FrameGenQuality::Fast => "Fast"@,
                FrameGenQuality::Balanced => "Balanced"@,
                FrameGenQuality::Quality => "Quality"@,
            })
            &&& p.len() > 1 ==> p.last().label == "Target FPS"@
            &&& p.len() > 1 && v.target_fps == 0 ==> shown(p.last()) == "Auto"@
            &&& p.len() > 1 && v.target_fps == 60 ==> shown(p.last()) == "60"@
            &&& p.len() > 1 && v.target_fps == 90 ==> shown(p.last()) == "90"@
            &&& p.len() > 1 && v.target_fps == 120 ==> shown(p.last()) == "120"@
            &&& p.len() > 1 && v.target_fps == 144 ==> shown(p.last()) == "144"@
            &&& p.len() > 1 && v.target_fps == 165 ==> shown(p.last()) == "165"@
            &&& p.len() > 1 && v.target_fps == 180 ==> shown(p.last()) == "180"@
            &&& p.len() > 1 && v.target_fps == 240 ==> shown(p.last()) == "240"@
        }),
{
    law_tables();
    let t = menu::TARGET_FPS_OPTIONS@;
    let n = v.target_fps as int;
    if n == 0 {
        law_place_of_a_number(t, n, 0, 0);
    } else if n == 60 {
        law_place_of_a_number(t, n, 0, 1);
    } else if n == 90 {
        law_place_of_a_number(t, n, 0, 2);
    } else if n == 120 {
        law_place_of_a_number(t, n, 0, 3);
    } else if n == 144 {
        law_place_of_a_number(t, n, 0, 4);
    } else if n == 165 {
        law_place_of_a_number(t, n, 0, 5);
    } else if n == 180 {
        law_place_of_a_number(t, n, 0, 6);
    } else if n == 240 {
        law_place_of_a_number(t, n, 0, 7);
    }
}

/// The menu shows the sound: its mode and device, and where it is captured the
/// volume in per cent, the mute and the buffers in milliseconds.
pub proof fn law_sound_is_shown(cfg: Config, a: AudioShown, d: nat, i: int, j: int)
    ensures
        ({
            let p = menu_build::audio_items(cfg, a, d);
            &&& p[0].label == "Audio Mode"@ && shown(p[0]) == (match cfg.audio_mode {
                AudioMode::Capture => "Capture"@,
                AudioMode::Passthrough => "Passthrough"@,
            })
            &&& p[1].label == "Device"@ && shown(p[1]) == (match cfg.audio_device {
                Some(s) => s@,
                None => "(none)"@,
            })
            &&& cfg.audio_mode == AudioMode::Capture ==> {
                &&& p[2].label == "Volume"@
                &&& 0 <= a.volume <= cfg.max_volume ==> shown(p[2]) == number::decimal(
                    (a.volume - a.volume % 5) as nat,
                ) + "%"@
                &&& a.volume > cfg.max_volume ==> shown(p[2]) == number::decimal(
                    (cfg.max_volume - cfg.max_volume % 5) as nat,
                ) + "%"@
                &&& p[3].label == "Mute"@ && shown(p[3]) == (if a.muted {
                    "On"@
                } else {
                    "Off"@
                })
                &&& p[7].label == "Capture Buffer"@
                &&& 0 <= i < 7 && a.capture_ms == menu::AUDIO_BUF_OPTIONS@[i] ==> shown(p[7])
                    == number::decimal(a.capture_ms as nat) + " ms"@
                &&& p[8].label == "Playback Buffer"@
                &&& 0 <= j < 7 && a.playback_ms == menu::AUDIO_BUF_OPTIONS@[j] ==> shown(p[8])
                    == number::decimal(a.playback_ms as nat) + " ms"@
            }
        }),
{
    let t = menu::AUDIO_BUF_OPTIONS@;
    if 0 <= i < 7 && a.capture_ms == t[i] {
        lemma_shown_number(t, a.capture_ms as int, 1, " ms"@, i);
    }
    if 0 <= j < 7 && a.playback_ms == t[j] {
        lemma_shown_number(t, a.playback_ms as int, 1, " ms"@, j);
    }
    if 0 <= a.volume <= cfg.max_volume {
        assert(menu_build::unsigned(a.volume) / 5 <= cfg.max_volume / 5);
        assert(5 * (menu_build::unsigned(a.volume) / 5) == a.volume - a.volume % 5);
    }
    if a.volume > cfg.max_volume {
        assert(menu_build::unsigned(a.volume) / 5 >= cfg.max_volume / 5);
        assert(5 * (cfg.max_volume / 5) == cfg.max_volume - cfg.max_volume % 5);
    }
}

/// The menu shows how screenshots, streams and strips are set up.
pub proof fn law_files_and_streams_are_shown(
    cfg: Config,
    server: bool,
    client: bool,
    platform: Platform,
    d: nat,
    i: int,
)
    ensures
        ({
            let p = menu_build::screenshot_items(cfg, d);
            &&& p[0].label == "Format"@ && shown(p[0]) == (match cfg.screenshot_format {
                ScreenshotFormat::Png => "PNG"@,
                ScreenshotFormat::Jpeg => "JPEG"@,
            })
            &&& cfg.screenshot_format == ScreenshotFormat::Jpeg ==> p[1].label == "JPEG Quality"@
            &&& cfg.screenshot_format == ScreenshotFormat::Jpeg && 0 <= i < 8 && cfg.jpeg_quality
                == menu::QUALITY_OPTIONS@[i] ==> shown(p[1]) == number::decimal(
                cfg.jpeg_quality as nat,
            ) + "%"@
        }),
        ({
            let p = menu_build::streaming_items(cfg, server, client, platform, d);
            &&& p[1].label == "Port"@
            &&& 0 <= i < 7 && cfg.stream_port == menu::STREAM_PORT_OPTIONS@[i] ==> shown(p[1])
                == number::decimal(cfg.stream_port as nat) + ""@
            &&& p[2].label == "Quality"@
            &&& 0 <= i < 7 && cfg.stream_quality == menu::STREAM_QUALITY_OPTIONS@[i] ==> shown(p[2])
                == number::decimal(cfg.stream_quality as nat) + "%"@
            &&& p[3].label == (if server {
                "Stop Server"@
            } else {
                "Start Server"@
            })
            &&& p[5].label == "Address"@ && shown(p[5]) == menu_build::dotted(cfg.stream_client_ip@)
            &&& p[6].label == "Port"@ && shown(p[6]) == number::decimal(cfg.stream_client_port as nat)
            &&& p[7].label == (if client {
                "Disconnect"@
            } else {
                "Connect"@
            })
            &&& platform == Platform::Linux ==> p.len() == 10 && p[8].label == "Virtual Webcam"@
                && p[9].label == "Virtual Mic"@
            &&& platform == Platform::Linux ==> shown(p[8]) == (if cfg.virtual_webcam {
                "On"@
            } else {
                "Off"@
            }) && shown(p[9]) == (if cfg.virtual_mic {
                "On"@
            } else {
                "Off"@
            })
            &&& platform == Platform::MacOs ==> p.len() == 8
        }),
        ({
            let p = menu_build::strip_items(cfg, d);
            &&& p[0].label == "Grid Columns"@ && p[1].label == "Grid Rows"@
            &&& 1 <= cfg.strip_cols <= 6 ==> shown(p[0]) == number::decimal(cfg.strip_cols as nat) + ""@
            &&& 1 <= cfg.strip_rows <= 6 ==> shown(p[1]) == number::decimal(cfg.strip_rows as nat) + ""@
        }),
{
    if 0 <= i < 8 && cfg.jpeg_quality == menu::QUALITY_OPTIONS@[i] {
        lemma_shown_number(menu::QUALITY_OPTIONS@, cfg.jpeg_quality as int, 5, "%"@, i);
    }
    if 0 <= i < 7 && cfg.stream_port == menu::STREAM_PORT_OPTIONS@[i] {
        lemma_shown_number(menu::STREAM_PORT_OPTIONS@, cfg.stream_port as int, 0, ""@, i);
    }
    if 0 <= i < 7 && cfg.stream_quality == menu::STREAM_QUALITY_OPTIONS@[i] {
        lemma_shown_number(menu::STREAM_QUALITY_OPTIONS@, cfg.stream_quality as int, 4, "%"@, i);
    }
    law_tables();
    let g = menu::STRIP_GRID_OPTIONS@;
    if 1 <= cfg.strip_cols <= 6 {
        assert(g[cfg.strip_cols - 1] == cfg.strip_cols);
        lemma_shown_number(g, cfg.strip_cols as int, 0, ""@, cfg.strip_cols - 1);
    }
    if 1 <= cfg.strip_rows <= 6 {
        assert(g[cfg.strip_rows - 1] == cfg.strip_rows);
        lemma_shown_number(g, cfg.strip_rows as int, 5, ""@, cfg.strip_rows - 1);
    }
}

/// The menu shows the rate display, the opacity and when pictures pause.
pub proof fn law_options_are_shown(cfg: Config, d: nat)
    ensures
        ({
            let p = menu_build::option_heads(cfg, d);
            &&& p[0].label == "FPS"@
            &&& cfg.fps_display@ == "simple"@ ==> shown(p[0]) == "Simple"@
            &&& cfg.fps_display@ == "verbose"@ ==> shown(p[0]) == "Verbose"@
            &&& cfg.fps_display@ != "simple"@ && cfg.fps_display@ != "verbose"@ ==> shown(p[0])
                == "Off"@
            &&& p[1].label == "OSD Opacity"@
            &&& cfg.osd_opacity <= 100 ==> shown(p[1]) == number::decimal(
                (cfg.osd_opacity - cfg.osd_opacity % 5) as nat,
            ) + "%"@
            &&& cfg.osd_opacity > 100 ==> shown(p[1]) == number::decimal(100) + "%"@
            &&& p[2].label == "Pause on Minimize"@ && shown(p[2]) == (if cfg.pause_on_minimize {
                "On"@
            } else {
                "Off"@
            })
            &&& p[3].label == "Pause on Background"@ && shown(p[3]) == (if cfg.pause_on_background {
                "On"@
            } else {
                "Off"@
            })
        }),
{
    reveal_strlit("simple");
    reveal_strlit("verbose");
    assert("simple"@.len() == 6 && "verbose"@.len() == 7);
    assert(5 * (0 + cfg.osd_opacity / 5) == cfg.osd_opacity - cfg.osd_opacity % 5);
}

/// What the places of the menu stand for, and that no choice leaves all as it is.
pub proof fn law_places_stand_for_their_options(
    f: ScreenshotFormat,
    b: RendererBackend,
    m: AspectMode,
    p: VkPresentMode,
    a: AudioMode,
    n: nat,
)
    ensures
        menu_sync::format_at(Some(0), f) == ScreenshotFormat::Png,
        menu_sync::format_at(Some(1), f) == ScreenshotFormat::Jpeg,
        menu_sync::format_at(None, f) == f,
        menu_sync::backend_at(Some(0), b) == RendererBackend::Sdl,
        menu_sync::backend_at(Some(1), b) == RendererBackend::OpenGl,
        menu_sync::backend_at(Some(2), b) == RendererBackend::Vulkan,
        menu_sync::backend_at(None, b) == b,
        menu_sync::aspect_at(Some(0), m) == AspectMode::Preserve,
        menu_sync::aspect_at(Some(1), m) == AspectMode::Zoom,
        menu_sync::aspect_at(Some(2), m) == AspectMode::Stretch,
        menu_sync::aspect_at(None, m) == m,
        menu_sync::present_at(Some(0), true, p) == VkPresentMode::Mailbox,
        menu_sync::present_at(Some(1), true, p) == VkPresentMode::Immediate,
        menu_sync::present_at(Some(2), true, p) == VkPresentMode::Fifo,
        menu_sync::present_at(Some(0), false, p) == VkPresentMode::Mailbox,
        menu_sync::present_at(Some(1), false, p) == VkPresentMode::Fifo,
        menu_sync::present_at(None, false, p) == p,
        menu_sync::audio_mode_at(Some(0), a) == AudioMode::Capture,
        menu_sync::audio_mode_at(Some(1), a) == AudioMode::Passthrough,
        menu_sync::audio_mode_at(None, a) == a,
        menu_sync::switch_at(Some(0), n) == 0,
        menu_sync::switch_at(Some(1), n) == 1,
        menu_sync::switch_at(None, n) == n,
        menu_sync::vk_scale_at(0) == ScaleMode::Nearest,
        menu_sync::vk_scale_at(1) == ScaleMode::Bilinear,
        menu_sync::vk_scale_at(2) == ScaleMode::Cas,
        menu_sync::vk_scale_at(3) == ScaleMode::Fsr,
        menu_sync::quality_at(0) == FrameGenQuality::Fast,
        menu_sync::quality_at(1) == FrameGenQuality::Balanced,
        menu_sync::quality_at(2) == FrameGenQuality::Quality,
        FrameGenMode::at(0, true) == FrameGenMode::Off,
        FrameGenMode::at(1, true) == FrameGenMode::Extrapolate,
        FrameGenMode::at(2, true) == FrameGenMode::Interpolate,
        FrameGenMode::at(3, true) == FrameGenMode::Rife,
        FrameGenMode::at(3, false) == FrameGenMode::Off,
{
}

/// A place beyond the last option: the first option of the choices, off for a switch,
/// and no change of a number.
pub proof fn law_places_beyond(
    i: nat,
    f: ScreenshotFormat,
    b: RendererBackend,
    m: AspectMode,
    p: VkPresentMode,
    a: AudioMode,
    n: nat,
    table: Seq<u32>,
    now: u32,
)
    requires
        i > 2,
    ensures
        menu_sync::format_at(Some(i), f) == ScreenshotFormat::Png,
        menu_sync::backend_at(Some(i), b) == RendererBackend::Sdl,
        menu_sync::aspect_at(Some(i), m) == AspectMode::Preserve,
        menu_sync::present_at(Some(i), true, p) == VkPresentMode::Mailbox,
        menu_sync::present_at(Some(2), false, p) == VkPresentMode::Mailbox,
        menu_sync::audio_mode_at(Some(i), a) == AudioMode::Capture,
        menu_sync::switch_at(Some(i), n) == 0,
        menu_sync::quality_at(i) == FrameGenQuality::Balanced,
        i > 3 ==> menu_sync::vk_scale_at(i) == ScaleMode::Bilinear,
        i >= table.len() ==> menu_sync::picked(table, Some(i), now) == now,
        i < table.len() ==> menu_sync::picked(table, Some(i), now) == table[i as int],
        menu_sync::picked(table, None, now) == now,
{
}

/// The words that are written for choices.
pub proof fn law_written_words()
    ensures
        menu_sync::format_name(ScreenshotFormat::Png) == "png"@,
        menu_sync::format_name(ScreenshotFormat::Jpeg) == "jpeg"@,
        menu_sync::backend_name(RendererBackend::Sdl) == "sdl"@,
        menu_sync::backend_name(RendererBackend::OpenGl) == "opengl"@,
        menu_sync::backend_name(RendererBackend::Vulkan) == "vulkan"@,
        menu_sync::aspect_name(AspectMode::Preserve) == "preserve"@,
        menu_sync::aspect_name(AspectMode::Zoom) == "zoom"@,
        menu_sync::aspect_name(AspectMode::Stretch) == "stretch"@,
        menu_sync::present_name(VkPresentMode::Mailbox) == "mailbox"@,
        menu_sync::present_name(VkPresentMode::Immediate) == "immediate"@,
        menu_sync::present_name(VkPresentMode::Fifo) == "fifo"@,
        menu_sync::audio_mode_name(AudioMode::Capture) == "capture"@,
        menu_sync::audio_mode_name(AudioMode::Passthrough) == "passthrough"@,
        menu_sync::switch_name(1) == "true"@,
        menu_sync::switch_name(0) == "false"@,
        menu_sync::framegen_mode_name(FrameGenMode::Off) == "off"@,
        menu_sync::framegen_mode_name(FrameGenMode::Extrapolate) == "extrapolate"@,
        menu_sync::framegen_mode_name(FrameGenMode::Interpolate) == "interpolate"@,
        menu_sync::framegen_mode_name(FrameGenMode::Rife) == "rife"@,
        menu_sync::framegen_quality_name(FrameGenQuality::Fast) == "fast"@,
        menu_sync::framegen_quality_name(FrameGenQuality::Balanced) == "balanced"@,
        menu_sync::framegen_quality_name(FrameGenQuality::Quality) == "quality"@,
{
}

/// A choice changes the setting that it is for and no other, and its key is written
/// with the new value just where that differs from the old one.
pub proof fn law_each_choice_has_its_setting(s: Synced, sel: Option<nat>, used: AspectMode, immediate: bool)
    ensures
        ({
            let r = menu_sync::backend_step(s, sel);
            let v = menu_sync::backend_at(sel, s.cfg.renderer);
            &&& r.cfg == (ConfigView { renderer: v, ..s.cfg })
            &&& v == s.cfg.renderer ==> r.saved == s.saved
            &&& v != s.cfg.renderer ==> r.saved == s.saved.push(
                ("renderer"@, menu_sync::backend_name(v)),
            )
        }),
        ({
            let r = menu_sync::format_step(s, sel);
            let v = menu_sync::format_at(sel, s.cfg.screenshot_format);
            &&& r.cfg == (ConfigView { screenshot_format: v, ..s.cfg })
            &&& v == s.cfg.screenshot_format ==> r.saved == s.saved
            &&& v != s.cfg.screenshot_format ==> r.saved == s.saved.push(
                ("screenshot_format"@, menu_sync::format_name(v)),
            )
        }),
        ({
            let r = menu_sync::present_step(s, immediate, sel);
            let v = menu_sync::present_at(sel, immediate, s.cfg.vk_present_mode);
            &&& r.cfg == (ConfigView { vk_present_mode: v, ..s.cfg })
            &&& v == s.cfg.vk_present_mode ==> r.saved == s.saved
            &&& v != s.cfg.vk_present_mode ==> r.saved == s.saved.push(
                ("vk_present_mode"@, menu_sync::present_name(v)),
            )
        }),
        ({
            let r = menu_sync::aspect_step(s, used, sel);
            let v = menu_sync::aspect_at(sel, used);
            &&& v == used ==> r == s
            &&& v != used ==> r.cfg == (ConfigView { aspect_mode: v, ..s.cfg }) && r.saved
                == s.saved.push(("aspect_mode"@, menu_sync::aspect_name(v)))
        }),
        ({
            let r = menu_sync::audio_mode_step(s, sel);
            let v = menu_sync::audio_mode_at(sel, s.cfg.audio_mode);
            &&& r.cfg == (ConfigView { audio_mode: v, ..s.cfg })
            &&& v != s.cfg.audio_mode ==> r.saved == s.saved.push(
                ("audio_mode"@, menu_sync::audio_mode_name(v)),
            )
        }),
        ({
            let r = menu_sync::pause_on_minimize_step(s, sel);
            let v = menu_sync::switch_at(sel, s.cfg.pause_on_minimize);
            &&& r.cfg == (ConfigView { pause_on_minimize: v, ..s.cfg })
            &&& v != s.cfg.pause_on_minimize ==> r.saved == s.saved.push(
                ("pause_on_minimize"@, menu_sync::switch_name(v)),
            )
        }),
        ({
            let r = menu_sync::pause_on_background_step(s, sel);
            let v = menu_sync::switch_at(sel, s.cfg.pause_on_background);
            &&& r.cfg == (ConfigView { pause_on_background: v, ..s.cfg })
            &&& v != s.cfg.pause_on_background ==> r.saved == s.saved.push(
                ("pause_on_background"@, menu_sync::switch_name(v)),
            )
        }),
{
}

/// A chosen number is the one that the table has at the place, and is written under
/// its own key where it is new.
pub proof fn law_each_number_has_its_setting(s: Synced, i: nat)
    ensures
        i < 8 && s.cfg.screenshot_format == ScreenshotFormat::Jpeg ==> {
            let r = menu_sync::jpeg_quality_step(s, Some(i));
            let v = menu::QUALITY_OPTIONS@[i as int];
            &&& r.cfg == (ConfigView { jpeg_quality: v, ..s.cfg })
            &&& v != s.cfg.jpeg_quality ==> r.saved == s.saved.push(
                ("jpeg_quality"@, number::decimal(v as nat)),
            )
        },
        s.cfg.screenshot_format == ScreenshotFormat::Png ==> menu_sync::jpeg_quality_step(s, Some(i))
            == s,
        i < 7 ==> {
            let r = menu_sync::stream_port_step(s, Some(i));
            let v = menu::STREAM_PORT_OPTIONS@[i as int] as u16;
            &&& r.cfg == (ConfigView { stream_port: v, ..s.cfg })
            &&& v != s.cfg.stream_port ==> r.saved == s.saved.push(
                ("stream_port"@, number::decimal(v as nat)),
            )
        },
        i < 7 ==> {
            let r = menu_sync::stream_quality_step(s, Some(i));
            let v = menu::STREAM_QUALITY_OPTIONS@[i as int];
            &&& r.cfg == (ConfigView { stream_quality: v, ..s.cfg })
            &&& v != s.cfg.stream_quality ==> r.saved == s.saved.push(
                ("stream_quality"@, number::decimal(v as nat)),
            )
        },
        i < 6 ==> {
            let r = menu_sync::strip_cols_step(s, Some(i));
            &&& r.cfg == (ConfigView { strip_cols: (i + 1) as u32, ..s.cfg })
            &&& i + 1 != s.cfg.strip_cols ==> r.saved == s.saved.push(
                ("strip_cols"@, number::decimal(i + 1)),
            )
        },
        i < 6 ==> {
            let r = menu_sync::strip_rows_step(s, Some(i));
            &&& r.cfg == (ConfigView { strip_rows: (i + 1) as u32, ..s.cfg })
            &&& i + 1 != s.cfg.strip_rows ==> r.saved == s.saved.push(
                ("strip_rows"@, number::decimal(i + 1)),
            )
        },
{
    law_tables();
    if i < 6 {
        assert(menu::STRIP_GRID_OPTIONS@[i as int] == i + 1);
    }
}

/// The levels: brightness and contrast in steps of five per cent from 5 on, gamma in
/// steps of ten from 10 on, and the opacity in steps of five from 0 on.
pub proof fn law_level_steps(s: Synced, i: nat)
    requires
        i < 40,
    ensures
        menu_levels::brightness_step(s, Some(i)).cfg == (ConfigView {
            brightness: (5 * i + 5) as u32,
            ..s.cfg
        }),
        menu_levels::contrast_step(s, Some(i)).cfg == (ConfigView {
            contrast: (5 * i + 5) as u32,
            ..s.cfg
        }),
        menu_levels::gamma_step(s, Some(i)).cfg == (ConfigView { gamma: (10 * i + 10) as u32, ..s.cfg }),
        menu_levels::opacity_step(s, Some(i)).cfg == (ConfigView {
            osd_opacity: (5 * i) as u32,
            ..s.cfg
        }),
        5 * i + 5 != s.cfg.brightness ==> menu_levels::brightness_step(s, Some(i)).saved
            == s.saved.push(("brightness"@, number::decimal(5 * i + 5))),
        5 * i + 5 != s.cfg.contrast ==> menu_levels::contrast_step(s, Some(i)).saved == s.saved.push(
            ("contrast"@, number::decimal(5 * i + 5)),
        ),
        10 * i + 10 != s.cfg.gamma ==> menu_levels::gamma_step(s, Some(i)).saved == s.saved.push(
            ("gamma"@, number::decimal(10 * i + 10)),
        ),
        5 * i != s.cfg.osd_opacity ==> menu_levels::opacity_step(s, Some(i)).saved == s.saved.push(
            ("osd_opacity"@, number::decimal(5 * i)),
        ),
        menu_levels::brightness_step(s, None) == s,
        menu_levels::contrast_step(s, None) == s,
        menu_levels::gamma_step(s, None) == s,
        menu_levels::opacity_step(s, None) == s,
{
    assert(5 * (1 + i) == 5 * i + 5 && 10 * (1 + i) == 10 * i + 10 && 5 * (0 + i) == 5 * i);
}

/// What was chosen is in the state once the change was made; what was not chosen, or
/// was so before, does not change. A mode whose model failed to load is off.
pub proof fn law_choices_become_the_state(s: FramegenState, rate: u32, c: FramegenChoice, failed: bool)
    ensures
        ({
            let d = menu_levels::changes(s, rate, c, failed);
            let n = menu_levels::changed(s, d);
            &&& c.quality matches Some(q) ==> n.quality == q
            &&& c.quality is None ==> n.quality == s.quality
            &&& c.scaling matches Some(m) ==> n.scaling == m
            &&& c.scaling is None ==> n.scaling == s.scaling
            &&& c.sharpness matches Some(k) ==> n.sharpness == k
            &&& c.sharpness is None ==> n.sharpness == s.sharpness
            &&& c.mode is None ==> n.mode == s.mode
            &&& c.mode is Some && (!failed || c.mode->0 != FrameGenMode::Rife) ==> n.mode == c.mode->0
            &&& c.mode == Some(FrameGenMode::Rife) && failed && s.mode != FrameGenMode::Rife ==> n.mode
                == FrameGenMode::Off
            &&& c.target_fps is Some && c.target_fps->0 != rate ==> d.target_fps == c.target_fps
            &&& c.target_fps == Some(rate) || c.target_fps is None ==> d.target_fps is None
            &&& c.quality == Some(s.quality) ==> d.quality is None
            &&& c.scaling == Some(s.scaling) ==> d.scaling is None
            &&& c.mode == Some(s.mode) ==> d.mode is None
        }),
{
}

/// The menu asks of the sound what it shows: the volume in steps of five, the mute
/// where the second option is chosen, and buffers from their table.
pub proof fn law_sound_menu(m: Seq<ItemView>, a: AudioShown)
    ensures
        ({
            let r = menu_levels::audio_change(m, a);
            let volume = menu::selection(m, "Volume"@);
            let mute = menu::selection(m, "Mute"@);
            let cap = menu::selection(m, "Capture Buffer"@);
            let play = menu::selection(m, "Playback Buffer"@);
            let cap_ms = if cap is Some && cap->0 < 7 {
                menu::AUDIO_BUF_OPTIONS@[cap->0 as int] as i32
            } else {
                a.capture_ms
            };
            let play_ms = if play is Some && play->0 < 7 {
                menu::AUDIO_BUF_OPTIONS@[play->0 as int] as i32
            } else {
                a.playback_ms
            };
            &&& volume is None ==> r.volume is None
            &&& volume is Some && 5 * volume->0 == a.volume ==> r.volume is None
            &&& volume is Some && 5 * volume->0 != a.volume ==> r.volume == Some(
                (5 * volume->0) as i32,
            )
            &&& mute is None ==> r.muted is None
            &&& mute == Some(1nat) && !a.muted ==> r.muted == Some(true)
            &&& mute == Some(1nat) && a.muted ==> r.muted is None
            &&& mute is Some && mute->0 != 1 && a.muted ==> r.muted == Some(false)
            &&& mute is Some && mute->0 != 1 && !a.muted ==> r.muted is None
            &&& cap_ms == a.capture_ms && play_ms == a.playback_ms ==> r.buffers is None
            &&& cap_ms != a.capture_ms || play_ms != a.playback_ms ==> r.buffers == Some(
                (cap_ms, play_ms),
            )
        }),
{
}

/// A virtual device is started where it was switched on and does not run, and
/// stopped where it was switched off and runs.
pub proof fn law_device_steps(is_on: bool)
    ensures
        menu_sync::device_step(Some(1), false) == DeviceStep::Start,
        menu_sync::device_step(Some(0), true) == DeviceStep::Stop,
        menu_sync::device_step(Some(1), true) == DeviceStep::Nothing,
        menu_sync::device_step(Some(0), false) == DeviceStep::Nothing,
        menu_sync::device_step(None, is_on) == DeviceStep::Nothing,
{
}

/// What the menu says of frame generation and scaling is what its options say; where
/// an item is not there, nothing is chosen.
pub proof fn law_framegen_menu(m: Seq<ItemView>, use_vk: bool, rife: bool)
    ensures
        ({
            let c = menu_sync::framegen_choice(m, use_vk, rife);
            let mode = menu::selection(m, "Frame Gen"@);
            let quality = menu::selection(m, "FG Quality"@);
            let rate = menu::selection(m, "Target FPS"@);
            let scaling = menu::selection(m, "Scaling"@);
            let sharpness = menu::selection(m, "Sharpness"@);
            &&& mode is Some ==> c.mode == Some(FrameGenMode::at(mode->0 as int, rife))
            &&& mode is None ==> c.mode is None
            &&& quality is Some ==> c.quality == Some(menu_sync::quality_at(quality->0))
            &&& quality is None ==> c.quality is None
            &&& rate is Some && rate->0 < 8 ==> c.target_fps == Some(
                menu::TARGET_FPS_OPTIONS@[rate->0 as int],
            )
            &&& rate is None ==> c.target_fps is None
            &&& scaling is Some && use_vk ==> c.scaling == Some(menu_sync::vk_scale_at(scaling->0))
            &&& scaling is Some && !use_vk ==> c.scaling == Some(ScaleMode::at(scaling->0 as int))
            &&& scaling is None ==> c.scaling is None
            &&& sharpness is Some && sharpness->0 <= 10 ==> c.sharpness == Some(sharpness->0 as u32)
            &&& sharpness is None ==> c.sharpness is None
        }),
{
}

/// What is selected under a label is what the first item of that label has.
pub proof fn law_selection(m: Seq<ItemView>, i: int, label: Seq<char>)
    requires
        0 <= i < m.len(),
        m[i].label == label,
        m[i].kind is Value,
        forall|k: int| 0 <= k < i ==> !((#[trigger] m[k]).label == label && m[k].kind is Value),
    ensures
        menu::selection(m, label) == Some(m[i].kind->selected),
    decreases i,
{
    if i > 0 {
        let t = m.skip(1);
        assert(t[i - 1] == m[i]);
        assert(!(m[0].label == label && m[0].kind is Value));
        assert forall|k: int| 0 <= k < i - 1 implies !((#[trigger] t[k]).label == label
            && t[k].kind is Value) by {
            assert(t[k] == m[k + 1]);
        }
        law_selection(t, i - 1, label);
    }
}

/// The keys that are written for a change of frame generation: each of its own, in
/// this order, and none for what did not change.
pub proof fn law_written_changes(d: FramegenChange)
    ensures
        d.mode is None && d.quality is None && d.target_fps is None && d.scaling is None
            && d.sharpness is None ==> menu_levels::written(d).len() == 0,
        d.mode is Some && d.quality is Some && d.target_fps is Some && d.scaling is Some
            && d.sharpness is Some ==> menu_levels::written(d) == seq![
            ("framegen_mode"@, menu_sync::framegen_mode_name(d.mode->0)),
            ("framegen_quality"@, menu_sync::framegen_quality_name(d.quality->0)),
            ("target_fps"@, number::decimal(d.target_fps->0 as nat)),
            ("scale_mode"@, d.scaling->0.name()),
            ("sharpness"@, number::decimal(d.sharpness->0 as nat)),
        ],
{
}

} // verus!
