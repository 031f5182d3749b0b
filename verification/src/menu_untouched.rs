//! A menu that nobody touched changes nothing.

use vstd::prelude::*;

use crate::config;
use crate::config::AudioMode;
use crate::config::Config;
use crate::config::RendererBackend;
use crate::config::ScreenshotFormat;
use crate::config::VkPresentMode;
use crate::framegen::FrameGenMode;
use crate::gl_renderer::ScaleMode;
use crate::menu;
use crate::menu::ItemView;
use crate::menu_build;
use crate::menu_build::Shown;
use crate::menu_levels;
use crate::menu_levels::FramegenChange;
use crate::menu_levels::FramegenState;
use crate::menu_sync;
use crate::menu_sync::Synced;

verus! {

/// A label's length and first two characters, by which no two items with
/// options are alike.
spec fn told_by(label: Seq<char>, n: nat, a: char, b: char) -> bool {
    label.len() == n && label[0] == a && label[1] == b
}

proof fn lemma_labels()
    ensures
        told_by("Backend"@, 7, 'B', 'a'),
        told_by("Aspect"@, 6, 'A', 's'),
        told_by("Brightness"@, 10, 'B', 'r'),
        told_by("Contrast"@, 8, 'C', 'o'),
        told_by("Gamma"@, 5, 'G', 'a'),
        told_by("Scaling"@, 7, 'S', 'c'),
        told_by("Sharpness"@, 9, 'S', 'h'),
        told_by("Present Mode"@, 12, 'P', 'r'),
        told_by("Frame Gen"@, 9, 'F', 'r'),
        told_by("FG Quality"@, 10, 'F', 'G'),
        told_by("Target FPS"@, 10, 'T', 'a'),
        told_by("Audio Mode"@, 10, 'A', 'u'),
        told_by("Device"@, 6, 'D', 'e'),
        told_by("Volume"@, 6, 'V', 'o'),
        told_by("Mute"@, 4, 'M', 'u'),
        told_by("Sample Rate"@, 11, 'S', 'a'),
        told_by("Channels"@, 8, 'C', 'h'),
        told_by("Capture Buffer"@, 14, 'C', 'a'),
        told_by("Playback Buffer"@, 15, 'P', 'l'),
        told_by("Port"@, 4, 'P', 'o'),
        told_by("Quality"@, 7, 'Q', 'u'),
        told_by("Virtual Webcam"@, 14, 'V', 'i'),
        told_by("Virtual Mic"@, 11, 'V', 'i'),
        told_by("FPS"@, 3, 'F', 'P'),
        told_by("OSD Opacity"@, 11, 'O', 'S'),
        told_by("Pause on Minimize"@, 17, 'P', 'a'),
        told_by("Pause on Background"@, 19, 'P', 'a'),
        told_by("Format"@, 6, 'F', 'o'),
        told_by("JPEG Quality"@, 12, 'J', 'P'),
        told_by("Grid Columns"@, 12, 'G', 'r'),
        told_by("Grid Rows"@, 9, 'G', 'r'),
{
    reveal_strlit("Backend");
    reveal_strlit("Aspect");
    reveal_strlit("Brightness");
    reveal_strlit("Contrast");
    reveal_strlit("Gamma");
    reveal_strlit("Scaling");
    reveal_strlit("Sharpness");
    reveal_strlit("Present Mode");
    reveal_strlit("Frame Gen");
    reveal_strlit("FG Quality");
    reveal_strlit("Target FPS");
    reveal_strlit("Audio Mode");
    reveal_strlit("Device");
    reveal_strlit("Volume");
    reveal_strlit("Mute");
    reveal_strlit("Sample Rate");
    reveal_strlit("Channels");
    reveal_strlit("Capture Buffer");
    reveal_strlit("Playback Buffer");
    reveal_strlit("Port");
    reveal_strlit("Quality");
    reveal_strlit("Virtual Webcam");
    reveal_strlit("Virtual Mic");
    reveal_strlit("FPS");
    reveal_strlit("OSD Opacity");
    reveal_strlit("Pause on Minimize");
    reveal_strlit("Pause on Background");
    reveal_strlit("Format");
    reveal_strlit("JPEG Quality");
    reveal_strlit("Grid Columns");
    reveal_strlit("Grid Rows");
}

/// Whether a menu has no item with options under a label.
spec fn lacks(m: Seq<ItemView>, label: Seq<char>) -> bool {
    forall|j: int| 0 <= j < m.len() && m[j].kind is Value ==> (#[trigger] m[j]).label != label
}

proof fn lemma_lacks(m: Seq<ItemView>, label: Seq<char>)
    requires
        lacks(m, label),
    ensures
        menu::selection(m, label) is None,
    decreases m.len(),
{
    if m.len() > 0 {
        assert(m[0].kind is Value ==> m[0].label != label);
        assert forall|j: int| 0 <= j < m.skip(1).len() && m.skip(1)[j].kind is Value implies (
        #[trigger] m.skip(1)[j]).label != label by {
            assert(m.skip(1)[j] == m[j + 1]);
        }
        lemma_lacks(m.skip(1), label);
    }
}

proof fn lemma_join(a: Seq<ItemView>, b: Seq<ItemView>, label: Seq<char>)
    ensures
        menu::selection(a + b, label) == (match menu::selection(a, label) {
            Some(i) => Some(i),
            None => menu::selection(b, label),
        }),
    decreases a.len(),
{
    if a.len() == 0 {
        assert(a + b =~= b);
    } else {
        assert((a + b)[0] == a[0]);
        assert((a + b).skip(1) =~= a.skip(1) + b);
        lemma_join(a.skip(1), b, label);
    }
}

proof fn lemma_first(m: Seq<ItemView>, i: int, label: Seq<char>)
    requires
        0 <= i < m.len(),
        m[i].kind is Value,
        m[i].label == label,
        forall|j: int| 0 <= j < i && m[j].kind is Value ==> (#[trigger] m[j]).label != label,
    ensures
        menu::selection(m, label) == Some(m[i].kind->selected),
    decreases i,
{
    if i > 0 {
        assert(m[0].kind is Value ==> m[0].label != label);
        let r = m.skip(1);
        assert(r[i - 1] == m[i]);
        assert forall|j: int| 0 <= j < i - 1 && r[j].kind is Value implies (#[trigger] r[j]).label
            != label by {
            assert(r[j] == m[j + 1]);
        }
        lemma_first(r, i - 1, label);
    }
}

/// The parts of the menu that hold items with options, in order.
spec fn part(cfg: Config, s: Shown, k: int) -> Seq<ItemView> {
    if k == 0 {
        menu_build::picture_items(cfg, s.video, 1)
    } else if k == 1 {
        menu_build::backend_items(cfg, s.video, 1)
    } else if k == 2 {
        if cfg.renderer == RendererBackend::Sdl {
            Seq::empty()
        } else {
            menu_build::framegen_items(s.video, 1)
        }
    } else if k == 3 {
        menu_build::audio_items(cfg, s.audio, 1)
    } else if k == 4 {
        menu_build::streaming_items(cfg, s.server, s.client, s.platform, 1)
    } else if k == 5 {
        menu_build::option_heads(cfg, 1)
    } else if k == 6 {
        menu_build::screenshot_items(cfg, 2)
    } else if s.strip {
        seq![menu::submenu(1, "Analysis Strip"@)] + menu_build::strip_items(cfg, 2)
    } else {
        Seq::empty()
    }
}

/// Which option is selected in the parts from one on.
spec fn from_part(cfg: Config, s: Shown, label: Seq<char>, k: int) -> Option<nat>
    decreases 8 - k,
{
    if k < 0 || k >= 8 {
        None
    } else {
        match menu::selection(part(cfg, s, k), label) {
            Some(i) => Some(i),
            None => from_part(cfg, s, label, k + 1),
        }
    }
}

proof fn lemma_parts(cfg: Config, s: Shown, build_time: Seq<char>, label: Seq<char>)
    ensures
        menu::selection(menu_build::root_menu(cfg, s, build_time), label) == from_part(
            cfg,
            s,
            label,
            0,
        ),
{
    let video = seq![menu::submenu(0, "Video"@)];
    let picture = part(cfg, s, 0);
    let backend = part(cfg, s, 1);
    let framegen = part(cfg, s, 2);
    let renderer = menu_build::renderer_items(cfg, s.video, 1);
    let audio_head = seq![menu::submenu(0, "Audio"@)];
    let audio = part(cfg, s, 3);
    let streaming_head = seq![menu::separator(0), menu::submenu(0, "Streaming"@)];
    let streaming = part(cfg, s, 4);
    let options_head = seq![menu::submenu(0, "Options"@)];
    let options = menu_build::options_items(cfg, s.strip, 1);
    let last = seq![menu::info(0, "v"@ + build_time)];
    lemma_lacks(video, label);
    lemma_lacks(audio_head, label);
    lemma_lacks(streaming_head, label);
    lemma_lacks(options_head, label);
    lemma_lacks(last, label);
    lemma_join(picture, backend, label);
    lemma_join(picture + backend, framegen, label);
    assert(renderer == picture + backend + framegen);
    lemma_join(part(cfg, s, 5), part(cfg, s, 6), label);
    lemma_join(part(cfg, s, 5) + part(cfg, s, 6), part(cfg, s, 7), label);
    assert(options == part(cfg, s, 5) + part(cfg, s, 6) + part(cfg, s, 7));
    let a = video + renderer;
    let b = a + audio_head;
    let c = b + audio;
    let d = c + streaming_head;
    let e = d + streaming;
    let f = e + options_head;
    let g = f + options;
    lemma_join(video, renderer, label);
    lemma_join(a, audio_head, label);
    lemma_join(b, audio, label);
    lemma_join(c, streaming_head, label);
    lemma_join(d, streaming, label);
    lemma_join(e, options_head, label);
    lemma_join(f, options, label);
    lemma_join(g, last, label);
    assert(menu_build::root_menu(cfg, s, build_time) == g + last);
    reveal_with_fuel(from_part, 9);
}

proof fn lemma_absent(cfg: Config, s: Shown, label: Seq<char>, k: int)
    requires
        0 <= k <= 8,
        forall|j: int| 0 <= j < k ==> lacks(#[trigger] part(cfg, s, j), label),
    ensures
        from_part(cfg, s, label, 0) == from_part(cfg, s, label, k),
    decreases k,
{
    if k > 0 {
        lemma_absent(cfg, s, label, k - 1);
        lemma_lacks(part(cfg, s, k - 1), label);
    }
}

/// Whether no item of a part goes by a label.
spec fn strange(label: Seq<char>, k: int) -> bool {
    if k == 0 {
        label != "Backend"@ && label != "Aspect"@ && label != "Brightness"@ && label != "Contrast"@ && label != "Gamma"@
    } else if k == 1 {
        label != "Scaling"@ && label != "Sharpness"@ && label != "Present Mode"@
    } else if k == 2 {
        label != "Frame Gen"@ && label != "FG Quality"@ && label != "Target FPS"@
    } else if k == 3 {
        label != "Audio Mode"@ && label != "Device"@ && label != "Volume"@ && label != "Mute"@ && label != "Sample Rate"@ && label != "Channels"@ && label != "Capture Buffer"@ && label != "Playback Buffer"@
    } else if k == 4 {
        label != "Port"@ && label != "Quality"@ && label != "Virtual Webcam"@ && label != "Virtual Mic"@
    } else if k == 5 {
        label != "FPS"@ && label != "OSD Opacity"@ && label != "Pause on Minimize"@ && label != "Pause on Background"@
    } else if k == 6 {
        label != "Format"@ && label != "JPEG Quality"@
    } else {
        label != "Grid Columns"@ && label != "Grid Rows"@
    }
}

proof fn lemma_strange(cfg: Config, s: Shown, label: Seq<char>, k: int)
    requires
        0 <= k < 8,
        strange(label, k),
    ensures
        lacks(part(cfg, s, k), label),
{
}

/// The place that an item of a part has selected is the one that is found in the
/// whole menu, where no part before has an item under its label.
proof fn lemma_found(cfg: Config, s: Shown, build_time: Seq<char>, k: int, i: int)
    requires
        0 <= k < 8,
        0 <= i < part(cfg, s, k).len(),
        part(cfg, s, k)[i].kind is Value,
        forall|j: int| 0 <= j < k ==> #[trigger] strange(part(cfg, s, k)[i].label, j),
        forall|j: int|
            0 <= j < i && part(cfg, s, k)[j].kind is Value ==> (#[trigger] part(cfg, s, k)[j]).label
                != part(cfg, s, k)[i].label,
    ensures
        menu::selection(
            menu_build::root_menu(cfg, s, build_time),
            part(cfg, s, k)[i].label,
        ) == Some(part(cfg, s, k)[i].kind->selected),
{
    let label = part(cfg, s, k)[i].label;
    assert forall|j: int| 0 <= j < k implies lacks(#[trigger] part(cfg, s, j), label) by {
        assert(strange(label, j));
        lemma_strange(cfg, s, label, j);
    }
    lemma_parts(cfg, s, build_time, label);
    lemma_absent(cfg, s, label, k);
    lemma_first(part(cfg, s, k), i, label);
}

/// A label that one part alone could have, and that part lacks it, is not found.
proof fn lemma_missing(cfg: Config, s: Shown, build_time: Seq<char>, label: Seq<char>, k: int)
    requires
        0 <= k < 8,
        lacks(part(cfg, s, k), label),
        forall|j: int| 0 <= j < 8 && j != k ==> #[trigger] strange(label, j),
    ensures
        menu::selection(menu_build::root_menu(cfg, s, build_time), label) is None,
{
    assert forall|j: int| 0 <= j < 8 implies lacks(#[trigger] part(cfg, s, j), label) by {
        if j != k {
            assert(strange(label, j));
            lemma_strange(cfg, s, label, j);
        }
    }
    lemma_parts(cfg, s, build_time, label);
    lemma_absent(cfg, s, label, 8);
}

proof fn lemma_picture(cfg: Config, s: Shown, build_time: Seq<char>)
    ensures
        ({
            let m = menu_build::root_menu(cfg, s, build_time);
            &&& menu::selection(m, "Backend"@) == Some(menu_build::backend_place(cfg.renderer))
            &&& menu::selection(m, "Aspect"@) == Some(menu_build::aspect_place(s.video.aspect))
            &&& menu::selection(m, "Brightness"@) == Some(
                menu_build::step_place(s.video.brightness as nat, 5, 40),
            )
            &&& menu::selection(m, "Contrast"@) == Some(
                menu_build::step_place(s.video.contrast as nat, 5, 40),
            )
            &&& menu::selection(m, "Gamma"@) == Some(
                menu_build::step_place(s.video.gamma as nat, 1, 30),
            )
        }),
{
    lemma_labels();
    lemma_found(cfg, s, build_time, 0, 0);
    lemma_found(cfg, s, build_time, 0, 1);
    lemma_found(cfg, s, build_time, 0, 2);
    lemma_found(cfg, s, build_time, 0, 3);
    lemma_found(cfg, s, build_time, 0, 4);
}

proof fn lemma_present(cfg: Config, s: Shown, build_time: Seq<char>)
    ensures
        menu::selection(menu_build::root_menu(cfg, s, build_time), "Present Mode"@) == (
        if cfg.renderer == RendererBackend::Vulkan {
            Some(menu_build::present_place(cfg.vk_present_mode, s.video.immediate))
        } else {
            None
        }),
{
    lemma_labels();
    if cfg.renderer == RendererBackend::Vulkan {
        let i = part(cfg, s, 1).len() - 1;
        assert(part(cfg, s, 1)[i].label == "Present Mode"@);
        lemma_found(cfg, s, build_time, 1, i);
    } else {
        lemma_missing(cfg, s, build_time, "Present Mode"@, 1);
    }
}

proof fn lemma_sound_and_streaming(cfg: Config, s: Shown, build_time: Seq<char>)
    ensures
        ({
            let m = menu_build::root_menu(cfg, s, build_time);
            &&& menu::selection(m, "Audio Mode"@) == Some(
                match cfg.audio_mode {
                    AudioMode::Capture => 0,
                    AudioMode::Passthrough => 1nat,
                },
            )
            &&& menu::selection(m, "Port"@) == Some(
                menu::place(menu::STREAM_PORT_OPTIONS@, cfg.stream_port as int, 0),
            )
            &&& menu::selection(m, "Quality"@) == Some(
                menu::place(menu::STREAM_QUALITY_OPTIONS@, cfg.stream_quality as int, 4),
            )
        }),
{
    lemma_labels();
    lemma_found(cfg, s, build_time, 3, 0);
    lemma_found(cfg, s, build_time, 4, 1);
    lemma_found(cfg, s, build_time, 4, 2);
}

proof fn lemma_options(cfg: Config, s: Shown, build_time: Seq<char>)
    ensures
        ({
            let m = menu_build::root_menu(cfg, s, build_time);
            &&& menu::selection(m, "OSD Opacity"@) == Some(
                menu_build::at_most((cfg.osd_opacity / 5) as nat, 20),
            )
            &&& menu::selection(m, "Pause on Minimize"@) == Some(
                config::bit(cfg.pause_on_minimize),
            )
            &&& menu::selection(m, "Pause on Background"@) == Some(
                config::bit(cfg.pause_on_background),
            )
            &&& menu::selection(m, "Format"@) == Some(
                match cfg.screenshot_format {
                    ScreenshotFormat::Png => 0,
                    ScreenshotFormat::Jpeg => 1nat,
                },
            )
        }),
{
    lemma_labels();
    lemma_found(cfg, s, build_time, 5, 1);
    lemma_found(cfg, s, build_time, 5, 2);
    lemma_found(cfg, s, build_time, 5, 3);
    lemma_found(cfg, s, build_time, 6, 0);
}

proof fn lemma_shown_where_they_count(cfg: Config, s: Shown, build_time: Seq<char>)
    ensures
        ({
            let m = menu_build::root_menu(cfg, s, build_time);
            &&& cfg.screenshot_format == ScreenshotFormat::Jpeg ==> menu::selection(
                m,
                "JPEG Quality"@,
            ) == Some(menu::place(menu::QUALITY_OPTIONS@, cfg.jpeg_quality as int, 5))
            &&& menu::selection(m, "Grid Columns"@) == if s.strip {
                Some(menu::place(menu::STRIP_GRID_OPTIONS@, cfg.strip_cols as int, 0))
            } else {
                None
            }
            &&& menu::selection(m, "Grid Rows"@) == if s.strip {
                Some(menu::place(menu::STRIP_GRID_OPTIONS@, cfg.strip_rows as int, 5))
            } else {
                None
            }
        }),
{
    lemma_labels();
    if cfg.screenshot_format == ScreenshotFormat::Jpeg {
        lemma_found(cfg, s, build_time, 6, 1);
    }
    if s.strip {
        lemma_found(cfg, s, build_time, 7, 1);
        lemma_found(cfg, s, build_time, 7, 2);
    } else {
        lemma_missing(cfg, s, build_time, "Grid Columns"@, 7);
        lemma_missing(cfg, s, build_time, "Grid Rows"@, 7);
    }
}

proof fn lemma_place(table: Seq<u32>, n: int, other: nat, from: int, at: int)
    requires
        0 <= from <= at < table.len(),
        table[at] == n,
    ensures
        menu::place_from(table, n, other, from) < table.len(),
        table[menu::place_from(table, n, other, from) as int] == n,
    decreases at - from,
{
    if table[from] != n {
        lemma_place(table, n, other, from + 1, at);
    }
}

/// Whether each setting that the menu chooses from a table is in its table, as
/// far as the menu shows it.
pub open spec fn in_tables(cfg: Config, s: Shown) -> bool {
    &&& cfg.screenshot_format == ScreenshotFormat::Jpeg ==> menu::QUALITY_OPTIONS@.contains(
        cfg.jpeg_quality,
    )
    &&& menu::STREAM_PORT_OPTIONS@.contains(cfg.stream_port as u32)
    &&& menu::STREAM_QUALITY_OPTIONS@.contains(cfg.stream_quality)
    &&& s.strip ==> menu::STRIP_GRID_OPTIONS@.contains(cfg.strip_cols)
        && menu::STRIP_GRID_OPTIONS@.contains(cfg.strip_rows)
    &&& cfg.renderer == RendererBackend::Vulkan && cfg.vk_present_mode
        == VkPresentMode::Immediate ==> s.video.immediate
}

proof fn lemma_picked(table: Seq<u32>, n: u32, other: nat)
    requires
        table.contains(n),
    ensures
        menu_sync::picked(table, Some(menu::place(table, n as int, other)), n) == n,
{
    let at = choose|at: int| 0 <= at < table.len() && table[at] == n;
    lemma_place(table, n as int, other, 0, at);
}

/// The menu as it was built changes no setting and writes nothing, where the
/// settings are ones that it can show.
pub proof fn law_untouched_menu_changes_nothing(cfg: Config, s: Shown, build_time: Seq<char>)
    requires
        in_tables(cfg, s),
    ensures
        menu_sync::synced(
            cfg@,
            menu_build::root_menu(cfg, s, build_time),
            s.video.aspect,
            s.video.immediate,
        ) == (Synced { cfg: cfg@, saved: Seq::empty() }),
{
    let m = menu_build::root_menu(cfg, s, build_time);
    lemma_picture(cfg, s, build_time);
    lemma_present(cfg, s, build_time);
    lemma_sound_and_streaming(cfg, s, build_time);
    lemma_options(cfg, s, build_time);
    lemma_shown_where_they_count(cfg, s, build_time);
    if cfg.screenshot_format == ScreenshotFormat::Jpeg {
        lemma_picked(menu::QUALITY_OPTIONS@, cfg.jpeg_quality, 5);
    }
    lemma_picked(menu::STREAM_PORT_OPTIONS@, cfg.stream_port as u32, 0);
    lemma_picked(menu::STREAM_QUALITY_OPTIONS@, cfg.stream_quality, 4);
    if s.strip {
        lemma_picked(menu::STRIP_GRID_OPTIONS@, cfg.strip_cols, 0);
        lemma_picked(menu::STRIP_GRID_OPTIONS@, cfg.strip_rows, 5);
    }
    let start = Synced { cfg: cfg@, saved: Seq::empty() };
    assert(menu_sync::synced_picture(start, m, s.video.aspect, s.video.immediate) == start);
    assert(menu_sync::synced_rest(start, m) == start);
}

/// The levels of the menu as it was built change no setting and write nothing,
/// where the levels shown are those of the settings and the settings are ones
/// that it can show.
pub proof fn law_untouched_levels_change_nothing(cfg: Config, s: Shown, build_time: Seq<char>)
    requires
        s.video.brightness == cfg.brightness,
        s.video.contrast == cfg.contrast,
        10 * s.video.gamma == cfg.gamma,
        cfg.brightness % 5 == 0,
        5 <= cfg.brightness <= 200,
        cfg.contrast % 5 == 0,
        5 <= cfg.contrast <= 200,
        10 <= cfg.gamma <= 300,
        cfg.osd_opacity % 5 == 0,
        cfg.osd_opacity <= 100,
    ensures
        menu_levels::levels_fit(menu_build::root_menu(cfg, s, build_time)),
        menu_levels::levelled(cfg@, menu_build::root_menu(cfg, s, build_time)) == (Synced {
            cfg: cfg@,
            saved: Seq::empty(),
        }),
{
    lemma_picture(cfg, s, build_time);
    lemma_options(cfg, s, build_time);
}

proof fn lemma_scaling(cfg: Config, s: Shown, build_time: Seq<char>)
    ensures
        ({
            let m = menu_build::root_menu(cfg, s, build_time);
            &&& menu::selection(m, "Scaling"@) == (match cfg.renderer {
                RendererBackend::Sdl => None,
                RendererBackend::OpenGl => Some(s.video.scale_mode.place() as nat),
                RendererBackend::Vulkan => Some(menu_build::vk_scale_place(s.video.scale_mode)),
            })
            &&& menu::selection(m, "Sharpness"@) == (if cfg.renderer == RendererBackend::Sdl
                || menu_build::sharpness_items(s.video, 1).len() == 0 {
                None
            } else {
                Some(menu_build::at_most(s.video.sharpness as nat, 10))
            })
        }),
{
    lemma_labels();
    if cfg.renderer == RendererBackend::Sdl {
        lemma_missing(cfg, s, build_time, "Scaling"@, 1);
        lemma_missing(cfg, s, build_time, "Sharpness"@, 1);
    } else {
        assert(part(cfg, s, 1)[0].label == "Scaling"@);
        lemma_found(cfg, s, build_time, 1, 0);
        if menu_build::sharpness_items(s.video, 1).len() == 0 {
            lemma_missing(cfg, s, build_time, "Sharpness"@, 1);
        } else {
            assert(part(cfg, s, 1)[1].label == "Sharpness"@);
            lemma_found(cfg, s, build_time, 1, 1);
        }
    }
}

proof fn lemma_framegen(cfg: Config, s: Shown, build_time: Seq<char>)
    ensures
        ({
            let m = menu_build::root_menu(cfg, s, build_time);
            let v = s.video;
            let shown = cfg.renderer != RendererBackend::Sdl;
            &&& menu::selection(m, "Frame Gen"@) == (if shown {
                Some(v.fg_mode.place() as nat)
            } else {
                None
            })
            &&& menu::selection(m, "FG Quality"@) == (if shown && v.fg_mode.warps() {
                Some(menu_build::quality_place(v.fg_quality))
            } else {
                None
            })
            &&& menu::selection(m, "Target FPS"@) == (if shown && v.fg_mode != FrameGenMode::Off {
                Some(menu::place(menu::TARGET_FPS_OPTIONS@, v.target_fps as int, 0))
            } else {
                None
            })
        }),
{
    lemma_labels();
    let v = s.video;
    if cfg.renderer == RendererBackend::Sdl {
        lemma_missing(cfg, s, build_time, "Frame Gen"@, 2);
        lemma_missing(cfg, s, build_time, "FG Quality"@, 2);
        lemma_missing(cfg, s, build_time, "Target FPS"@, 2);
    } else {
        lemma_found(cfg, s, build_time, 2, 0);
        if v.fg_mode.warps() {
            lemma_found(cfg, s, build_time, 2, 1);
            lemma_found(cfg, s, build_time, 2, 2);
        } else {
            lemma_missing(cfg, s, build_time, "FG Quality"@, 2);
            if v.fg_mode == FrameGenMode::Off {
                lemma_missing(cfg, s, build_time, "Target FPS"@, 2);
            } else {
                lemma_found(cfg, s, build_time, 2, 1);
            }
        }
    }
}

/// The choice of frame generation and scaling in the menu as it was built changes
/// nothing, where what is shown is something that it can show: a mode that is
/// there, a display rate of its table, and for Vulkan a scaling of its list.
pub proof fn law_untouched_framegen_changes_nothing(
    cfg: Config,
    s: Shown,
    build_time: Seq<char>,
    failed: bool,
)
    requires
        s.video.fg_mode.offered(s.video.rife),
        s.video.sharpness <= 10,
        s.video.fg_mode != FrameGenMode::Off ==> menu::TARGET_FPS_OPTIONS@.contains(
            s.video.target_fps,
        ),
        cfg.renderer == RendererBackend::Vulkan ==> s.video.scale_mode != ScaleMode::IntegerScale
            && s.video.scale_mode != ScaleMode::IntegerFsr,
    ensures
        menu_levels::changes(
            FramegenState {
                mode: s.video.fg_mode,
                quality: s.video.fg_quality,
                scaling: s.video.scale_mode,
                sharpness: s.video.sharpness,
            },
            s.video.target_fps,
            menu_sync::framegen_choice(
                menu_build::root_menu(cfg, s, build_time),
                cfg.renderer == RendererBackend::Vulkan,
                s.video.rife,
            ),
            failed,
        ) == (FramegenChange {
            mode: None,
            quality: None,
            target_fps: None,
            scaling: None,
            sharpness: None,
        }),
{
    lemma_scaling(cfg, s, build_time);
    lemma_framegen(cfg, s, build_time);
    if s.video.fg_mode != FrameGenMode::Off {
        let table = menu::TARGET_FPS_OPTIONS@;
        let n = s.video.target_fps;
        let at = choose|at: int| 0 <= at < table.len() && table[at] == n;
        lemma_place(table, n as int, 0, 0, at);
    }
}

} // verus!
