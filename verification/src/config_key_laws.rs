//! What the keys of the configuration file promise: each sets the setting of its
//! own name and no other, numbers are held to their ranges, switches know three
//! words, and each name of a choice means what it says.

use vstd::prelude::*;

use crate::capture;
use crate::config::{self, AspectMode, AudioMode, ConfigView, Platform, PriorityFlags, RecordResolution, RendererBackend, ScreenshotFormat, VkPresentMode};
use crate::menu_laws;
use crate::number;
use crate::text;

verus! {

/// `width` takes a number; what is none is refused.
pub proof fn law_width_key(c: ConfigView, n: u32, val: Seq<char>)
    ensures
        number::number(val) == Some(n as nat) ==> config::applied(c, "width"@, val) == Some(
            (ConfigView {
                width: n,
                ..c
            }),
        ),
        number::number(val) is None || number::number(val)->0 > 0xffff_ffff ==> config::applied(
            c,
            "width"@,
            val,
        ) is None,
{
    menu_laws::lemma_keys_differ();
}

/// `height` takes a number; what is none is refused.
pub proof fn law_height_key(c: ConfigView, n: u32, val: Seq<char>)
    ensures
        number::number(val) == Some(n as nat) ==> config::applied(c, "height"@, val) == Some(
            (ConfigView {
                height: n,
                ..c
            }),
        ),
        number::number(val) is None || number::number(val)->0 > 0xffff_ffff ==> config::applied(
            c,
            "height"@,
            val,
        ) is None,
{
    menu_laws::lemma_keys_differ();
}

/// `fps` takes a number; what is none is refused.
pub proof fn law_fps_key(c: ConfigView, n: u32, val: Seq<char>)
    ensures
        number::number(val) == Some(n as nat) ==> config::applied(c, "fps"@, val) == Some(
            (ConfigView {
                fps: n,
                ..c
            }),
        ),
        number::number(val) is None || number::number(val)->0 > 0xffff_ffff ==> config::applied(
            c,
            "fps"@,
            val,
        ) is None,
{
    menu_laws::lemma_keys_differ();
}

/// `buffers` takes a number and holds it between 2 and 8; what is no number is refused.
pub proof fn law_buffers_key(c: ConfigView, n: u32, val: Seq<char>)
    ensures
        number::number(val) == Some(n as nat) ==> config::applied(c, "buffers"@, val) == Some(
            (ConfigView {
                buffers: if n < 2 {
                        2
                    } else if n > 8 {
                        8
                    } else {
                        n
                    },
                ..c
            }),
        ),
        number::number(val) is None || number::number(val)->0 > 0xffff_ffff ==> config::applied(
            c,
            "buffers"@,
            val,
        ) is None,
{
    menu_laws::lemma_keys_differ();
}

/// `jpeg_quality` takes a number and holds it between 1 and 100; what is no number is refused.
pub proof fn law_jpeg_quality_key(c: ConfigView, n: u32, val: Seq<char>)
    ensures
        number::number(val) == Some(n as nat) ==> config::applied(c, "jpeg_quality"@, val) == Some(
            (ConfigView {
                jpeg_quality: if n < 1 {
                        1
                    } else if n > 100 {
                        100
                    } else {
                        n
                    },
                ..c
            }),
        ),
        number::number(val) is None || number::number(val)->0 > 0xffff_ffff ==> config::applied(
            c,
            "jpeg_quality"@,
            val,
        ) is None,
{
    menu_laws::lemma_keys_differ();
}

/// `max_volume` takes a number and holds it to at least 100; what is no number is refused.
pub proof fn law_max_volume_key(c: ConfigView, n: u32, val: Seq<char>)
    ensures
        number::number(val) == Some(n as nat) ==> config::applied(c, "max_volume"@, val) == Some(
            (ConfigView {
                max_volume: if n < 100 {
                        100
                    } else {
                        n
                    },
                ..c
            }),
        ),
        number::number(val) is None || number::number(val)->0 > 0xffff_ffff ==> config::applied(
            c,
            "max_volume"@,
            val,
        ) is None,
{
    menu_laws::lemma_keys_differ();
}

/// `audio_capture_buf` takes a number and holds it between 1 and 100; what is no number is refused.
pub proof fn law_audio_capture_buf_key(c: ConfigView, n: u32, val: Seq<char>)
    ensures
        number::number(val) == Some(n as nat) ==> config::applied(c, "audio_capture_buf"@, val) == Some(
            (ConfigView {
                audio_capture_buf: if n < 1 {
                        1
                    } else if n > 100 {
                        100
                    } else {
                        n
                    },
                ..c
            }),
        ),
        number::number(val) is None || number::number(val)->0 > 0xffff_ffff ==> config::applied(
            c,
            "audio_capture_buf"@,
            val,
        ) is None,
{
    menu_laws::lemma_keys_differ();
}

/// `audio_playback_buf` takes a number and holds it between 1 and 100; what is no number is refused.
pub proof fn law_audio_playback_buf_key(c: ConfigView, n: u32, val: Seq<char>)
    ensures
        number::number(val) == Some(n as nat) ==> config::applied(c, "audio_playback_buf"@, val) == Some(
            (ConfigView {
                audio_playback_buf: if n < 1 {
                        1
                    } else if n > 100 {
                        100
                    } else {
                        n
                    },
                ..c
            }),
        ),
        number::number(val) is None || number::number(val)->0 > 0xffff_ffff ==> config::applied(
            c,
            "audio_playback_buf"@,
            val,
        ) is None,
{
    menu_laws::lemma_keys_differ();
}

/// `target_fps` takes a number and holds it to at most 480; what is no number is refused.
pub proof fn law_target_fps_key(c: ConfigView, n: u32, val: Seq<char>)
    ensures
        number::number(val) == Some(n as nat) ==> config::applied(c, "target_fps"@, val) == Some(
            (ConfigView {
                target_fps: if n > 480 {
                        480
                    } else {
                        n
                    },
                ..c
            }),
        ),
        number::number(val) is None || number::number(val)->0 > 0xffff_ffff ==> config::applied(
            c,
            "target_fps"@,
            val,
        ) is None,
{
    menu_laws::lemma_keys_differ();
}

/// `sharpness` takes a number and holds it to at most 10; what is no number is refused.
pub proof fn law_sharpness_key(c: ConfigView, n: u32, val: Seq<char>)
    ensures
        number::number(val) == Some(n as nat) ==> config::applied(c, "sharpness"@, val) == Some(
            (ConfigView {
                sharpness: if n > 10 {
                        10
                    } else {
                        n
                    },
                ..c
            }),
        ),
        number::number(val) is None || number::number(val)->0 > 0xffff_ffff ==> config::applied(
            c,
            "sharpness"@,
            val,
        ) is None,
{
    menu_laws::lemma_keys_differ();
}

/// `brightness` takes a number and holds it to at most 200; what is no number is refused.
pub proof fn law_brightness_key(c: ConfigView, n: u32, val: Seq<char>)
    ensures
        number::number(val) == Some(n as nat) ==> config::applied(c, "brightness"@, val) == Some(
            (ConfigView {
                brightness: if n > 200 {
                        200
                    } else {
                        n
                    },
                ..c
            }),
        ),
        number::number(val) is None || number::number(val)->0 > 0xffff_ffff ==> config::applied(
            c,
            "brightness"@,
            val,
        ) is None,
{
    menu_laws::lemma_keys_differ();
}

/// `contrast` takes a number and holds it to at most 200; what is no number is refused.
pub proof fn law_contrast_key(c: ConfigView, n: u32, val: Seq<char>)
    ensures
        number::number(val) == Some(n as nat) ==> config::applied(c, "contrast"@, val) == Some(
            (ConfigView {
                contrast: if n > 200 {
                        200
                    } else {
                        n
                    },
                ..c
            }),
        ),
        number::number(val) is None || number::number(val)->0 > 0xffff_ffff ==> config::applied(
            c,
            "contrast"@,
            val,
        ) is None,
{
    menu_laws::lemma_keys_differ();
}

/// `gamma` takes a number and holds it between 10 and 300; what is no number is refused.
pub proof fn law_gamma_key(c: ConfigView, n: u32, val: Seq<char>)
    ensures
        number::number(val) == Some(n as nat) ==> config::applied(c, "gamma"@, val) == Some(
            (ConfigView {
                gamma: if n < 10 {
                        10
                    } else if n > 300 {
                        300
                    } else {
                        n
                    },
                ..c
            }),
        ),
        number::number(val) is None || number::number(val)->0 > 0xffff_ffff ==> config::applied(
            c,
            "gamma"@,
            val,
        ) is None,
{
    menu_laws::lemma_keys_differ();
}

/// `osd_opacity` takes a number and holds it to at most 100; what is no number is refused.
pub proof fn law_osd_opacity_key(c: ConfigView, n: u32, val: Seq<char>)
    ensures
        number::number(val) == Some(n as nat) ==> config::applied(c, "osd_opacity"@, val) == Some(
            (ConfigView {
                osd_opacity: if n > 100 {
                        100
                    } else {
                        n
                    },
                ..c
            }),
        ),
        number::number(val) is None || number::number(val)->0 > 0xffff_ffff ==> config::applied(
            c,
            "osd_opacity"@,
            val,
        ) is None,
{
    menu_laws::lemma_keys_differ();
}

/// `stream_quality` takes a number and holds it between 1 and 100; what is no number is refused.
pub proof fn law_stream_quality_key(c: ConfigView, n: u32, val: Seq<char>)
    ensures
        number::number(val) == Some(n as nat) ==> config::applied(c, "stream_quality"@, val) == Some(
            (ConfigView {
                stream_quality: if n < 1 {
                        1
                    } else if n > 100 {
                        100
                    } else {
                        n
                    },
                ..c
            }),
        ),
        number::number(val) is None || number::number(val)->0 > 0xffff_ffff ==> config::applied(
            c,
            "stream_quality"@,
            val,
        ) is None,
{
    menu_laws::lemma_keys_differ();
}

/// `strip_cols` takes a number and holds it between 1 and 6; what is no number is refused.
pub proof fn law_strip_cols_key(c: ConfigView, n: u32, val: Seq<char>)
    ensures
        number::number(val) == Some(n as nat) ==> config::applied(c, "strip_cols"@, val) == Some(
            (ConfigView {
                strip_cols: if n < 1 {
                        1
                    } else if n > 6 {
                        6
                    } else {
                        n
                    },
                ..c
            }),
        ),
        number::number(val) is None || number::number(val)->0 > 0xffff_ffff ==> config::applied(
            c,
            "strip_cols"@,
            val,
        ) is None,
{
    menu_laws::lemma_keys_differ();
}

/// `strip_rows` takes a number and holds it between 1 and 6; what is no number is refused.
pub proof fn law_strip_rows_key(c: ConfigView, n: u32, val: Seq<char>)
    ensures
        number::number(val) == Some(n as nat) ==> config::applied(c, "strip_rows"@, val) == Some(
            (ConfigView {
                strip_rows: if n < 1 {
                        1
                    } else if n > 6 {
                        6
                    } else {
                        n
                    },
                ..c
            }),
        ),
        number::number(val) is None || number::number(val)->0 > 0xffff_ffff ==> config::applied(
            c,
            "strip_rows"@,
            val,
        ) is None,
{
    menu_laws::lemma_keys_differ();
}

/// `stream_port` takes a number that fits a port; any other is refused.
pub proof fn law_stream_port_key(c: ConfigView, n: nat, val: Seq<char>)
    ensures
        number::number(val) == Some(n) && n <= 65535 ==> config::applied(c, "stream_port"@, val) == Some(
            (ConfigView { stream_port: n as u16, ..c }),
        ),
        number::number(val) == Some(n) && n > 65535 ==> config::applied(c, "stream_port"@, val) is None,
        number::number(val) is None ==> config::applied(c, "stream_port"@, val) is None,
{
    menu_laws::lemma_keys_differ();
}

/// `stream_client_port` takes a number that fits a port; any other is refused.
pub proof fn law_stream_client_port_key(c: ConfigView, n: nat, val: Seq<char>)
    ensures
        number::number(val) == Some(n) && n <= 65535 ==> config::applied(c, "stream_client_port"@, val) == Some(
            (ConfigView { stream_client_port: n as u16, ..c }),
        ),
        number::number(val) == Some(n) && n > 65535 ==> config::applied(c, "stream_client_port"@, val) is None,
        number::number(val) is None ==> config::applied(c, "stream_client_port"@, val) is None,
{
    menu_laws::lemma_keys_differ();
}

/// `vsync` is switched on by `true`, `1` and `yes`, and off by all else.
pub proof fn law_vsync_key(c: ConfigView, val: Seq<char>)
    ensures
        config::applied(c, "vsync"@, "true"@) == Some((ConfigView { vsync: 1, ..c })),
        config::applied(c, "vsync"@, "1"@) == Some((ConfigView { vsync: 1, ..c })),
        config::applied(c, "vsync"@, "yes"@) == Some((ConfigView { vsync: 1, ..c })),
        val != "true"@ && val != "1"@ && val != "yes"@ ==> config::applied(c, "vsync"@, val) == Some(
            (ConfigView { vsync: 0, ..c }),
        ),
{
    menu_laws::lemma_keys_differ();
}

/// `smooth` is switched on by `true`, `1` and `yes`, and off by all else.
pub proof fn law_smooth_key(c: ConfigView, val: Seq<char>)
    ensures
        config::applied(c, "smooth"@, "true"@) == Some((ConfigView { smooth: 1, ..c })),
        config::applied(c, "smooth"@, "1"@) == Some((ConfigView { smooth: 1, ..c })),
        config::applied(c, "smooth"@, "yes"@) == Some((ConfigView { smooth: 1, ..c })),
        val != "true"@ && val != "1"@ && val != "yes"@ ==> config::applied(c, "smooth"@, val) == Some(
            (ConfigView { smooth: 0, ..c }),
        ),
{
    menu_laws::lemma_keys_differ();
}

/// `fullscreen` is switched on by `true`, `1` and `yes`, and off by all else.
pub proof fn law_fullscreen_key(c: ConfigView, val: Seq<char>)
    ensures
        config::applied(c, "fullscreen"@, "true"@) == Some((ConfigView { fullscreen: 1, ..c })),
        config::applied(c, "fullscreen"@, "1"@) == Some((ConfigView { fullscreen: 1, ..c })),
        config::applied(c, "fullscreen"@, "yes"@) == Some((ConfigView { fullscreen: 1, ..c })),
        val != "true"@ && val != "1"@ && val != "yes"@ ==> config::applied(c, "fullscreen"@, val) == Some(
            (ConfigView { fullscreen: 0, ..c }),
        ),
{
    menu_laws::lemma_keys_differ();
}

/// `quiet` is switched on by `true`, `1` and `yes`, and off by all else.
pub proof fn law_quiet_key(c: ConfigView, val: Seq<char>)
    ensures
        config::applied(c, "quiet"@, "true"@) == Some((ConfigView { quiet: 1, ..c })),
        config::applied(c, "quiet"@, "1"@) == Some((ConfigView { quiet: 1, ..c })),
        config::applied(c, "quiet"@, "yes"@) == Some((ConfigView { quiet: 1, ..c })),
        val != "true"@ && val != "1"@ && val != "yes"@ ==> config::applied(c, "quiet"@, val) == Some(
            (ConfigView { quiet: 0, ..c }),
        ),
{
    menu_laws::lemma_keys_differ();
}

/// `daemonize` is switched on by `true`, `1` and `yes`, and off by all else.
pub proof fn law_daemonize_key(c: ConfigView, val: Seq<char>)
    ensures
        config::applied(c, "daemonize"@, "true"@) == Some((ConfigView { daemonize: 1, ..c })),
        config::applied(c, "daemonize"@, "1"@) == Some((ConfigView { daemonize: 1, ..c })),
        config::applied(c, "daemonize"@, "yes"@) == Some((ConfigView { daemonize: 1, ..c })),
        val != "true"@ && val != "1"@ && val != "yes"@ ==> config::applied(c, "daemonize"@, val) == Some(
            (ConfigView { daemonize: 0, ..c }),
        ),
{
    menu_laws::lemma_keys_differ();
}

/// `pause_on_minimize` is switched on by `true`, `1` and `yes`, and off by all else.
pub proof fn law_pause_on_minimize_key(c: ConfigView, val: Seq<char>)
    ensures
        config::applied(c, "pause_on_minimize"@, "true"@) == Some((ConfigView { pause_on_minimize: 1, ..c })),
        config::applied(c, "pause_on_minimize"@, "1"@) == Some((ConfigView { pause_on_minimize: 1, ..c })),
        config::applied(c, "pause_on_minimize"@, "yes"@) == Some((ConfigView { pause_on_minimize: 1, ..c })),
        val != "true"@ && val != "1"@ && val != "yes"@ ==> config::applied(c, "pause_on_minimize"@, val) == Some(
            (ConfigView { pause_on_minimize: 0, ..c }),
        ),
{
    menu_laws::lemma_keys_differ();
}

/// `pause_on_background` is switched on by `true`, `1` and `yes`, and off by all else.
pub proof fn law_pause_on_background_key(c: ConfigView, val: Seq<char>)
    ensures
        config::applied(c, "pause_on_background"@, "true"@) == Some((ConfigView { pause_on_background: 1, ..c })),
        config::applied(c, "pause_on_background"@, "1"@) == Some((ConfigView { pause_on_background: 1, ..c })),
        config::applied(c, "pause_on_background"@, "yes"@) == Some((ConfigView { pause_on_background: 1, ..c })),
        val != "true"@ && val != "1"@ && val != "yes"@ ==> config::applied(c, "pause_on_background"@, val) == Some(
            (ConfigView { pause_on_background: 0, ..c }),
        ),
{
    menu_laws::lemma_keys_differ();
}

/// `virtual_webcam` is switched on by `true`, `1` and `yes`, and off by all else.
pub proof fn law_virtual_webcam_key(c: ConfigView, val: Seq<char>)
    ensures
        config::applied(c, "virtual_webcam"@, "true"@) == Some((ConfigView { virtual_webcam: 1, ..c })),
        config::applied(c, "virtual_webcam"@, "1"@) == Some((ConfigView { virtual_webcam: 1, ..c })),
        config::applied(c, "virtual_webcam"@, "yes"@) == Some((ConfigView { virtual_webcam: 1, ..c })),
        val != "true"@ && val != "1"@ && val != "yes"@ ==> config::applied(c, "virtual_webcam"@, val) == Some(
            (ConfigView { virtual_webcam: 0, ..c }),
        ),
{
    menu_laws::lemma_keys_differ();
}

/// `virtual_mic` is switched on by `true`, `1` and `yes`, and off by all else.
pub proof fn law_virtual_mic_key(c: ConfigView, val: Seq<char>)
    ensures
        config::applied(c, "virtual_mic"@, "true"@) == Some((ConfigView { virtual_mic: 1, ..c })),
        config::applied(c, "virtual_mic"@, "1"@) == Some((ConfigView { virtual_mic: 1, ..c })),
        config::applied(c, "virtual_mic"@, "yes"@) == Some((ConfigView { virtual_mic: 1, ..c })),
        val != "true"@ && val != "1"@ && val != "yes"@ ==> config::applied(c, "virtual_mic"@, val) == Some(
            (ConfigView { virtual_mic: 0, ..c }),
        ),
{
    menu_laws::lemma_keys_differ();
}

/// Texts are taken as they are, or without white space around them.
pub proof fn law_text_keys(c: ConfigView, val: Seq<char>)
    ensures
        config::applied(c, "device"@, val) == Some((ConfigView { device: val, ..c })),
        config::applied(c, "screenshot_dir"@, val) == Some((ConfigView { screenshot_dir: val, ..c })),
        config::applied(c, "framegen_mode"@, val) == Some((ConfigView { framegen_mode: val, ..c })),
        config::applied(c, "framegen_quality"@, val) == Some(
            (ConfigView { framegen_quality: val, ..c }),
        ),
        config::applied(c, "scale_mode"@, val) == Some((ConfigView { scale_mode: val, ..c })),
        config::applied(c, "virtual_mic_sink"@, val) == Some(
            (ConfigView { virtual_mic_sink: text::trimmed(val), ..c }),
        ),
        config::applied(c, "virtual_webcam_device"@, val) == Some(
            (ConfigView { virtual_webcam_device: text::trimmed(val), ..c }),
        ),
        text::trimmed(val).len() > 0 ==> config::applied(c, "audio_device"@, val) == Some(
            (ConfigView { audio_device: Some(text::trimmed(val)), ..c }),
        ),
        text::trimmed(val).len() == 0 ==> config::applied(c, "audio_device"@, val) == Some(
            (ConfigView { audio_device: None, ..c }),
        ),
        text::trimmed(val).len() > 0 ==> config::applied(c, "plugin"@, val) == Some(
            (ConfigView { plugins: c.plugins.push(text::trimmed(val)), ..c }),
        ),
        config::applied(c, "plugins"@, val) == config::applied(c, "plugin"@, val),
        text::trimmed(val).len() == 0 ==> config::applied(c, "plugin"@, val) == Some(c),
{
    menu_laws::lemma_keys_differ();
}

/// `format` takes the name of a pixel format in any case.
pub proof fn law_format_key(c: ConfigView, val: Seq<char>)
    ensures
        config::applied(c, "format"@, val) == Some(
            (ConfigView { pixfmt: config::pixfmt_of(text::lower(val)), ..c }),
        ),
{
    menu_laws::lemma_keys_differ();
}

/// The words for the recorded size, whatever their case: `native` and `full`,
/// `window` and `win`; another changes nothing.
pub proof fn law_record_resolution_key(c: ConfigView, val: Seq<char>)
    ensures
        text::lower(val) == "native"@ || text::lower(val) == "full"@ ==> config::applied(
            c,
            "record_resolution"@,
            val,
        ) == Some((ConfigView { record_resolution: RecordResolution::Native, ..c })),
        text::lower(val) == "window"@ || text::lower(val) == "win"@ ==> config::applied(
            c,
            "record_resolution"@,
            val,
        ) == Some((ConfigView { record_resolution: RecordResolution::Window, ..c })),
        config::applied(c, "record_res"@, val) == config::applied(c, "record_resolution"@, val),
{
    menu_laws::lemma_keys_differ();
    reveal_strlit("native");
    reveal_strlit("full");
    reveal_strlit("window");
    reveal_strlit("win");
    assert("native"@.len() == 6 && "full"@.len() == 4 && "window"@.len() == 6 && "win"@.len() == 3);
    assert("native"@[0] == 'n' && "window"@[0] == 'w');
}

/// The words for the format of screenshots, whatever their case: `png`, and `jpeg`
/// or `jpg`.
pub proof fn law_screenshot_format_key(c: ConfigView, val: Seq<char>)
    ensures
        text::lower(val) == "png"@ ==> config::applied(c, "screenshot_format"@, val) == Some(
            (ConfigView { screenshot_format: ScreenshotFormat::Png, ..c }),
        ),
        text::lower(val) == "jpeg"@ || text::lower(val) == "jpg"@ ==> config::applied(
            c,
            "screenshot_format"@,
            val,
        ) == Some((ConfigView { screenshot_format: ScreenshotFormat::Jpeg, ..c })),
        config::applied(c, "screenshot_fmt"@, val) == config::applied(c, "screenshot_format"@, val),
{
    menu_laws::lemma_keys_differ();
    menu_laws::lemma_values_differ();
}

/// The words for what draws, whatever their case: `sdl` and `sdl2`, `gl` and
/// `opengl`, `vk` and `vulkan`; another changes nothing.
pub proof fn law_renderer_key(c: ConfigView, val: Seq<char>)
    ensures
        ({
            let low = text::lower(val);
            let r = config::applied(c, "renderer"@, val);
            &&& low == "sdl"@ || low == "sdl2"@ ==> r == Some(
                (ConfigView { renderer: RendererBackend::Sdl, ..c }),
            )
            &&& low == "gl"@ || low == "opengl"@ ==> r == Some(
                (ConfigView { renderer: RendererBackend::OpenGl, ..c }),
            )
            &&& low == "vk"@ || low == "vulkan"@ ==> r == Some(
                (ConfigView { renderer: RendererBackend::Vulkan, ..c }),
            )
            &&& r == Some(c) || r is Some && r->0 == (ConfigView { renderer: r->0.renderer, ..c })
            &&& config::applied(c, "render_backend"@, val) == r
        }),
{
    menu_laws::lemma_keys_differ();
    menu_laws::lemma_values_differ();
}

/// The words for how Vulkan presents, whatever their case: `mailbox`, `immediate`,
/// and `fifo` or `vsync`.
pub proof fn law_present_mode_key(c: ConfigView, val: Seq<char>)
    ensures
        ({
            let low = text::lower(val);
            let r = config::applied(c, "vk_present_mode"@, val);
            &&& low == "mailbox"@ ==> r == Some(
                (ConfigView { vk_present_mode: VkPresentMode::Mailbox, ..c }),
            )
            &&& low == "immediate"@ ==> r == Some(
                (ConfigView { vk_present_mode: VkPresentMode::Immediate, ..c }),
            )
            &&& low == "fifo"@ || low == "vsync"@ ==> r == Some(
                (ConfigView { vk_present_mode: VkPresentMode::Fifo, ..c }),
            )
            &&& config::applied(c, "present_mode"@, val) == r
        }),
{
    menu_laws::lemma_keys_differ();
    menu_laws::lemma_values_differ();
}

/// The words for the shape, whatever their case: `stretch`, `zoom`, and any other
/// for keeping it. The older key stretches where it is switched on, and else
/// changes nothing.
pub proof fn law_aspect_keys(c: ConfigView, val: Seq<char>)
    ensures
        ({
            let low = text::lower(val);
            let r = config::applied(c, "aspect_mode"@, val);
            &&& low == "stretch"@ ==> r == Some((ConfigView { aspect_mode: AspectMode::Stretch, ..c }))
            &&& low == "zoom"@ ==> r == Some((ConfigView { aspect_mode: AspectMode::Zoom, ..c }))
            &&& low != "stretch"@ && low != "zoom"@ ==> r == Some(
                (ConfigView { aspect_mode: AspectMode::Preserve, ..c }),
            )
        }),
        config::applied(c, "stretch"@, "true"@) == Some(
            (ConfigView { aspect_mode: AspectMode::Stretch, ..c }),
        ),
        val != "true"@ && val != "1"@ && val != "yes"@ ==> config::applied(c, "stretch"@, val) == Some(
            c,
        ),
{
    menu_laws::lemma_keys_differ();
    menu_laws::lemma_values_differ();
}

/// Sound is passed through where `audio_mode` says `passthrough`, else captured;
/// and the rate display shows what `fps_display` says, or nothing.
pub proof fn law_choice_keys(c: ConfigView, val: Seq<char>)
    ensures
        config::applied(c, "audio_mode"@, "passthrough"@) == Some(
            (ConfigView { audio_mode: AudioMode::Passthrough, ..c }),
        ),
        val != "passthrough"@ ==> config::applied(c, "audio_mode"@, val) == Some(
            (ConfigView { audio_mode: AudioMode::Capture, ..c }),
        ),
        val == "simple"@ || val == "verbose"@ ==> config::applied(c, "fps_display"@, val) == Some(
            (ConfigView { fps_display: val, ..c }),
        ),
        val != "simple"@ && val != "verbose"@ ==> config::applied(c, "fps_display"@, val) == Some(
            (ConfigView { fps_display: "off"@, ..c }),
        ),
{
    menu_laws::lemma_keys_differ();
}

/// `window` takes two numbers with an `x` between them as width and height, and
/// leaves the window alone where there is no `x`.
pub proof fn law_window_key(c: ConfigView, w: u32, h: u32, val: Seq<char>)
    ensures
        config::applied(
            c,
            "window"@,
            number::decimal(w as nat) + seq!['x'] + number::decimal(h as nat),
        ) == Some((ConfigView { win_w: Some(w), win_h: Some(h), ..c })),
        (forall|i: int| 0 <= i < val.len() ==> #[trigger] val[i] != 'x') ==> config::applied(
            c,
            "window"@,
            val,
        ) == Some(c),
{
    menu_laws::lemma_keys_differ();
    let a = number::decimal(w as nat);
    let b = number::decimal(h as nat);
    let s = a + seq!['x'] + b;
    number::lemma_decimal(w as nat);
    number::lemma_decimal(h as nat);
    number::law_decimal_reads_back(w as nat);
    number::law_decimal_reads_back(h as nat);
    assert forall|i: int| 0 <= i < a.len() implies #[trigger] s[i] != 'x' by {
        assert(number::is_digit(a[i]));
    }
    text::lemma_find_unique(s, 'x', a.len() as int);
    assert(s.take(a.len() as int) =~= a);
    assert(s.skip(a.len() as int + 1) =~= b);
    assert(number::is_digit(a[0]) && number::is_digit(a.last()));
    assert(number::is_digit(b[0]) && number::is_digit(b.last()));
    assert(text::trimmed(a) =~= a);
    assert(text::trimmed(b) =~= b);
    if forall|i: int| 0 <= i < val.len() ==> #[trigger] val[i] != 'x' {
        text::lemma_find_unique(val, 'x', val.len() as int);
    }
}

/// The measures of `priority` and their bits.
pub proof fn law_priority_names()
    ensures
        config::flag_bits("timer_slack"@) == 1,
        config::flag_bits("realtime"@) == 2 && config::flag_bits("rt"@) == 2,
        config::flag_bits("cpu_pin"@) == 4 && config::flag_bits("affinity"@) == 4,
        config::flag_bits("mlock"@) == 8,
        config::flag_bits("idle_inhibit"@) == 16 && config::flag_bits("idle"@) == 16,
        config::flag_bits("no_compositor"@) == 32 && config::flag_bits("no_comp"@) == 32,
        config::flag_bits("io_prio"@) == 64 && config::flag_bits("ioprio"@) == 64,
        config::flag_bits("sig_mask"@) == 128 && config::flag_bits("signals"@) == 128,
        config::priority_bits("all"@) == 255,
        config::priority_bits("none"@) == 0 && config::priority_bits("off"@) == 0,
{
    reveal_strlit("timer_slack");
    reveal_strlit("realtime");
    reveal_strlit("rt");
    reveal_strlit("cpu_pin");
    reveal_strlit("affinity");
    reveal_strlit("mlock");
    reveal_strlit("idle_inhibit");
    reveal_strlit("idle");
    reveal_strlit("no_compositor");
    reveal_strlit("no_comp");
    reveal_strlit("io_prio");
    reveal_strlit("ioprio");
    reveal_strlit("sig_mask");
    reveal_strlit("signals");
    reveal_strlit("all");
    reveal_strlit("true");
    reveal_strlit("1");
    reveal_strlit("yes");
    reveal_strlit("none");
    reveal_strlit("off");
    assert("timer_slack"@.len() == 11 && "realtime"@.len() == 8 && "rt"@.len() == 2);
    assert("cpu_pin"@.len() == 7 && "affinity"@.len() == 8 && "mlock"@.len() == 5);
    assert("idle_inhibit"@.len() == 12 && "idle"@.len() == 4 && "no_compositor"@.len() == 13);
    assert("no_comp"@.len() == 7 && "io_prio"@.len() == 7 && "ioprio"@.len() == 6);
    assert("sig_mask"@.len() == 8 && "signals"@.len() == 7);
    assert("cpu_pin"@[0] == 'c' && "no_comp"@[0] == 'n' && "io_prio"@[0] == 'i' && "signals"@[0] == 's');
    assert("realtime"@[0] == 'r' && "affinity"@[0] == 'a' && "sig_mask"@[0] == 's');
    assert("all"@[0] == 'a' && "none"@[0] == 'n' && "off"@[0] == 'o' && "yes"@[0] == 'y');
    assert("all"@.len() == 3 && "none"@.len() == 4 && "off"@.len() == 3 && "yes"@.len() == 3);
    assert("true"@.len() == 4 && "true"@[0] == 't' && "1"@.len() == 1);
}

/// A list of measures stands for all of them together, in whatever order.
pub proof fn law_priority_lists(a: Seq<char>, b: Seq<char>)
    requires
        text::trimmed(a) == a,
        text::trimmed(b) == b,
    ensures
        config::list_bits(seq![a, b]) == config::flag_bits(a) | config::flag_bits(b),
        config::list_bits(seq![a, b]) == config::list_bits(seq![b, a]),
        config::list_bits(seq![a]) == config::flag_bits(a),
{
    let x = config::flag_bits(a);
    let y = config::flag_bits(b);
    reveal_with_fuel(config::list_bits, 3);
    assert(seq![a, b].drop_last() =~= seq![a]);
    assert(seq![b, a].drop_last() =~= seq![b]);
    assert(seq![a].drop_last() =~= Seq::<Seq<char>>::empty());
    assert(seq![b].drop_last() =~= Seq::<Seq<char>>::empty());
    assert(0u32 | x == x && 0u32 | y == y && x | y == y | x) by (bit_vector);
}

/// The settings before anything was read: full HD at 60 frames in NV12 from the
/// first device, two buffers, a plain picture, PNG screenshots, streams on port
/// 9000, strips of one column and six rows, and a pause while minimized.
pub proof fn law_defaults(p: Platform)
    ensures
        ({
            let d = config::defaults(p);
            &&& d.device == (match p {
                Platform::Linux => "/dev/video0"@,
                Platform::MacOs => "0"@,
            })
            &&& d.width == 1920 && d.height == 1080 && d.fps == 60 && d.buffers == 2
            &&& d.pixfmt == capture::V4L2_PIX_FMT_NV12
            &&& d.screenshot_dir == "~/Pictures"@ && d.screenshot_format == ScreenshotFormat::Png
            &&& d.jpeg_quality == 90 && d.record_resolution == RecordResolution::Native
            &&& d.win_w is None && d.win_h is None
            &&& d.vsync == 0 && d.smooth == 0 && d.fullscreen == 0 && d.quiet == 0 && d.daemonize
                == 0
            &&& d.pause_on_minimize == 1 && d.pause_on_background == 0
            &&& d.audio_device is None && d.max_volume == 100 && d.audio_capture_buf == 5
                && d.audio_playback_buf == 10 && d.audio_mode == AudioMode::Capture
            &&& d.renderer == RendererBackend::Sdl && d.vk_present_mode == VkPresentMode::Mailbox
            &&& d.target_fps == 0 && d.sharpness == 5 && d.aspect_mode == AspectMode::Preserve
            &&& d.framegen_mode.len() == 0 && d.framegen_quality.len() == 0 && d.scale_mode.len() == 0
            &&& d.brightness == 100 && d.contrast == 100 && d.gamma == 100 && d.osd_opacity == 63
            &&& d.fps_display == "off"@
            &&& d.priority == PriorityFlags(255)
            &&& d.plugins.len() == 0
            &&& d.stream_port == 9000 && d.stream_client_port == 9000 && d.stream_quality == 80
            &&& d.stream_client_ip == seq![192u8, 168u8, 1u8, 1u8]
            &&& d.strip_cols == 1 && d.strip_rows == 6
            &&& d.virtual_webcam == 0 && d.virtual_webcam_device == "/dev/video10"@
            &&& d.virtual_mic == 0 && d.virtual_mic_sink == "capview_mic"@
        }),
{
}

} // verus!
