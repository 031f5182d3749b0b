//! What is written for a choice of the menu is what the next start reads.

use vstd::prelude::*;

use crate::config;
use crate::config::AspectMode;
use crate::config::AudioMode;
use crate::config::ConfigView;
use crate::config::RendererBackend;
use crate::config::ScreenshotFormat;
use crate::config::VkPresentMode;
use crate::menu_build;
use crate::menu_sync;
use crate::number;
use crate::text;

verus! {

/// Enough of the keys to tell them apart.
pub proof fn lemma_keys_differ()
    ensures
        "fps"@.len() == 3,
        "width"@.len() == 5 && "width"@[0] == 'w',
        "vsync"@.len() == 5 && "vsync"@[0] == 'v',
        "quiet"@.len() == 5 && "quiet"@[0] == 'q',
        "gamma"@.len() == 5 && "gamma"@[0] == 'g',
        "device"@.len() == 6 && "device"@[0] == 'd',
        "height"@.len() == 6 && "height"@[0] == 'h',
        "format"@.len() == 6 && "format"@[0] == 'f',
        "window"@.len() == 6 && "window"@[0] == 'w',
        "smooth"@.len() == 6 && "smooth"@[0] == 's',
        "plugin"@.len() == 6 && "plugin"@[0] == 'p',
        "buffers"@.len() == 7 && "buffers"@[0] == 'b',
        "stretch"@.len() == 7 && "stretch"@[0] == 's',
        "plugins"@.len() == 7 && "plugins"@[0] == 'p',
        "renderer"@.len() == 8 && "renderer"@[0] == 'r',
        "contrast"@.len() == 8 && "contrast"@[0] == 'c',
        "priority"@.len() == 8 && "priority"@[0] == 'p',
        "daemonize"@.len() == 9 && "daemonize"@[0] == 'd',
        "sharpness"@.len() == 9 && "sharpness"@[0] == 's',
        "record_res"@.len() == 10 && "record_res"@[0] == 'r' && "record_res"@[6] == '_',
        "fullscreen"@.len() == 10 && "fullscreen"@[0] == 'f' && "fullscreen"@[6] == 'r',
        "max_volume"@.len() == 10 && "max_volume"@[0] == 'm' && "max_volume"@[6] == 'l',
        "audio_mode"@.len() == 10 && "audio_mode"@[0] == 'a' && "audio_mode"@[6] == 'm',
        "target_fps"@.len() == 10 && "target_fps"@[0] == 't' && "target_fps"@[6] == '_',
        "scale_mode"@.len() == 10 && "scale_mode"@[0] == 's' && "scale_mode"@[6] == 'm',
        "brightness"@.len() == 10 && "brightness"@[0] == 'b' && "brightness"@[6] == 'n',
        "strip_cols"@.len() == 10 && "strip_cols"@[0] == 's' && "strip_cols"@[6] == 'c',
        "strip_rows"@.len() == 10 && "strip_rows"@[0] == 's' && "strip_rows"@[6] == 'r',
        "virtual_mic"@.len() == 11 && "virtual_mic"@[0] == 'v',
        "aspect_mode"@.len() == 11 && "aspect_mode"@[0] == 'a',
        "fps_display"@.len() == 11 && "fps_display"@[0] == 'f',
        "osd_opacity"@.len() == 11 && "osd_opacity"@[0] == 'o',
        "stream_port"@.len() == 11 && "stream_port"@[0] == 's',
        "jpeg_quality"@.len() == 12 && "jpeg_quality"@[0] == 'j',
        "audio_device"@.len() == 12 && "audio_device"@[0] == 'a',
        "present_mode"@.len() == 12 && "present_mode"@[0] == 'p',
        "framegen_mode"@.len() == 13,
        "screenshot_dir"@.len() == 14 && "screenshot_dir"@[11] == 'd',
        "screenshot_fmt"@.len() == 14 && "screenshot_fmt"@[11] == 'f',
        "render_backend"@.len() == 14 && "render_backend"@[11] == 'e',
        "stream_quality"@.len() == 14 && "stream_quality"@[11] == 'i',
        "virtual_webcam"@.len() == 14 && "virtual_webcam"@[11] == 'c',
        "vk_present_mode"@.len() == 15,
        "virtual_mic_sink"@.len() == 16 && "virtual_mic_sink"@[0] == 'v',
        "framegen_quality"@.len() == 16 && "framegen_quality"@[0] == 'f',
        "stream_client_ip"@.len() == 16 && "stream_client_ip"@[0] == 's',
        "record_resolution"@.len() == 17 && "record_resolution"@[0] == 'r',
        "screenshot_format"@.len() == 17 && "screenshot_format"@[0] == 's',
        "pause_on_minimize"@.len() == 17 && "pause_on_minimize"@[0] == 'p',
        "audio_capture_buf"@.len() == 17 && "audio_capture_buf"@[0] == 'a',
        "audio_playback_buf"@.len() == 18 && "audio_playback_buf"@[0] == 'a',
        "stream_client_port"@.len() == 18 && "stream_client_port"@[0] == 's',
        "pause_on_background"@.len() == 19,
        "virtual_webcam_device"@.len() == 21,
{
    reveal_strlit("fps");
    reveal_strlit("width");
    reveal_strlit("vsync");
    reveal_strlit("quiet");
    reveal_strlit("gamma");
    reveal_strlit("device");
    reveal_strlit("height");
    reveal_strlit("format");
    reveal_strlit("window");
    reveal_strlit("smooth");
    reveal_strlit("plugin");
    reveal_strlit("buffers");
    reveal_strlit("stretch");
    reveal_strlit("plugins");
    reveal_strlit("renderer");
    reveal_strlit("contrast");
    reveal_strlit("priority");
    reveal_strlit("daemonize");
    reveal_strlit("sharpness");
    reveal_strlit("record_res");
    reveal_strlit("fullscreen");
    reveal_strlit("max_volume");
    reveal_strlit("audio_mode");
    reveal_strlit("target_fps");
    reveal_strlit("scale_mode");
    reveal_strlit("brightness");
    reveal_strlit("strip_cols");
    reveal_strlit("strip_rows");
    reveal_strlit("virtual_mic");
    reveal_strlit("aspect_mode");
    reveal_strlit("fps_display");
    reveal_strlit("osd_opacity");
    reveal_strlit("stream_port");
    reveal_strlit("jpeg_quality");
    reveal_strlit("audio_device");
    reveal_strlit("present_mode");
    reveal_strlit("framegen_mode");
    reveal_strlit("screenshot_dir");
    reveal_strlit("screenshot_fmt");
    reveal_strlit("render_backend");
    reveal_strlit("stream_quality");
    reveal_strlit("virtual_webcam");
    reveal_strlit("vk_present_mode");
    reveal_strlit("virtual_mic_sink");
    reveal_strlit("framegen_quality");
    reveal_strlit("stream_client_ip");
    reveal_strlit("record_resolution");
    reveal_strlit("screenshot_format");
    reveal_strlit("pause_on_minimize");
    reveal_strlit("audio_capture_buf");
    reveal_strlit("audio_playback_buf");
    reveal_strlit("stream_client_port");
    reveal_strlit("pause_on_background");
    reveal_strlit("virtual_webcam_device");
}

/// Enough of the values to tell them apart.
pub proof fn lemma_values_differ()
    ensures
        "1"@.len() == 1,
        "gl"@.len() == 2 && "gl"@[0] == 'g',
        "vk"@.len() == 2 && "vk"@[0] == 'v',
        "png"@.len() == 3 && "png"@[0] == 'p',
        "jpg"@.len() == 3 && "jpg"@[0] == 'j',
        "sdl"@.len() == 3 && "sdl"@[0] == 's',
        "yes"@.len() == 3 && "yes"@[0] == 'y',
        "jpeg"@.len() == 4 && "jpeg"@[0] == 'j',
        "sdl2"@.len() == 4 && "sdl2"@[0] == 's',
        "fifo"@.len() == 4 && "fifo"@[0] == 'f',
        "zoom"@.len() == 4 && "zoom"@[0] == 'z',
        "true"@.len() == 4 && "true"@[0] == 't',
        "vsync"@.len() == 5 && "vsync"@[0] == 'v',
        "false"@.len() == 5 && "false"@[0] == 'f',
        "opengl"@.len() == 6 && "opengl"@[0] == 'o',
        "vulkan"@.len() == 6 && "vulkan"@[0] == 'v',
        "mailbox"@.len() == 7 && "mailbox"@[0] == 'm',
        "stretch"@.len() == 7 && "stretch"@[0] == 's',
        "capture"@.len() == 7 && "capture"@[0] == 'c',
        "preserve"@.len() == 8,
        "immediate"@.len() == 9,
        "passthrough"@.len() == 11,
{
    reveal_strlit("1");
    reveal_strlit("gl");
    reveal_strlit("vk");
    reveal_strlit("png");
    reveal_strlit("jpg");
    reveal_strlit("sdl");
    reveal_strlit("yes");
    reveal_strlit("jpeg");
    reveal_strlit("sdl2");
    reveal_strlit("fifo");
    reveal_strlit("zoom");
    reveal_strlit("true");
    reveal_strlit("vsync");
    reveal_strlit("false");
    reveal_strlit("opengl");
    reveal_strlit("vulkan");
    reveal_strlit("mailbox");
    reveal_strlit("stretch");
    reveal_strlit("capture");
    reveal_strlit("preserve");
    reveal_strlit("immediate");
    reveal_strlit("passthrough");
}

/// A text in lower case stays as it is.
proof fn lemma_lower(s: Seq<char>)
    requires
        forall|i: int| 0 <= i < s.len() ==> 'a' <= #[trigger] s[i] <= 'z',
    ensures
        text::lower(s) == s,
{
    assert(text::lower(s) =~= s);
}

/// What is written under `screenshot_format` reads back.
pub proof fn law_screenshot_format_reads_back(c: ConfigView, f: ScreenshotFormat)
    ensures
        config::applied(
            c,
            "screenshot_format"@,
            menu_sync::format_name(f),
        ) == Some(ConfigView { screenshot_format: f, ..c }),
{
    lemma_keys_differ();
    lemma_values_differ();
    reveal_strlit("png");
    reveal_strlit("jpeg");
    lemma_lower(menu_sync::format_name(f));
}

/// What is written under `renderer` reads back.
pub proof fn law_renderer_reads_back(c: ConfigView, b: RendererBackend)
    ensures
        config::applied(
            c,
            "renderer"@,
            menu_sync::backend_name(b),
        ) == Some(ConfigView { renderer: b, ..c }),
{
    lemma_keys_differ();
    lemma_values_differ();
    reveal_strlit("sdl");
    reveal_strlit("opengl");
    reveal_strlit("vulkan");
    lemma_lower(menu_sync::backend_name(b));
}

/// What is written under `vk_present_mode` reads back.
pub proof fn law_vk_present_mode_reads_back(c: ConfigView, m: VkPresentMode)
    ensures
        config::applied(
            c,
            "vk_present_mode"@,
            menu_sync::present_name(m),
        ) == Some(ConfigView { vk_present_mode: m, ..c }),
{
    lemma_keys_differ();
    lemma_values_differ();
    reveal_strlit("mailbox");
    reveal_strlit("immediate");
    reveal_strlit("fifo");
    lemma_lower(menu_sync::present_name(m));
}

/// What is written under `aspect_mode` reads back.
pub proof fn law_aspect_mode_reads_back(c: ConfigView, m: AspectMode)
    ensures
        config::applied(
            c,
            "aspect_mode"@,
            menu_sync::aspect_name(m),
        ) == Some(ConfigView { aspect_mode: m, ..c }),
{
    lemma_keys_differ();
    lemma_values_differ();
    reveal_strlit("stretch");
    reveal_strlit("zoom");
    reveal_strlit("preserve");
    lemma_lower(menu_sync::aspect_name(m));
}

/// What is written under `audio_mode` reads back.
pub proof fn law_audio_mode_reads_back(c: ConfigView, m: AudioMode)
    ensures
        config::applied(
            c,
            "audio_mode"@,
            menu_sync::audio_mode_name(m),
        ) == Some(ConfigView { audio_mode: m, ..c }),
{
    lemma_keys_differ();
    lemma_values_differ();
}

/// What is written under `jpeg_quality` reads back.
pub proof fn law_jpeg_quality_reads_back(c: ConfigView, n: u32)
    requires
        1 <= n <= 100,
    ensures
        config::applied(
            c,
            "jpeg_quality"@,
            number::decimal(n as nat),
        ) == Some(ConfigView { jpeg_quality: n, ..c }),
{
    lemma_keys_differ();
    number::law_decimal_reads_back(n as nat);
}

/// What is written under `stream_quality` reads back.
pub proof fn law_stream_quality_reads_back(c: ConfigView, n: u32)
    requires
        1 <= n <= 100,
    ensures
        config::applied(
            c,
            "stream_quality"@,
            number::decimal(n as nat),
        ) == Some(ConfigView { stream_quality: n, ..c }),
{
    lemma_keys_differ();
    number::law_decimal_reads_back(n as nat);
}

/// What is written under `strip_cols` reads back.
pub proof fn law_strip_cols_reads_back(c: ConfigView, n: u32)
    requires
        1 <= n <= 6,
    ensures
        config::applied(
            c,
            "strip_cols"@,
            number::decimal(n as nat),
        ) == Some(ConfigView { strip_cols: n, ..c }),
{
    lemma_keys_differ();
    number::law_decimal_reads_back(n as nat);
}

/// What is written under `strip_rows` reads back.
pub proof fn law_strip_rows_reads_back(c: ConfigView, n: u32)
    requires
        1 <= n <= 6,
    ensures
        config::applied(
            c,
            "strip_rows"@,
            number::decimal(n as nat),
        ) == Some(ConfigView { strip_rows: n, ..c }),
{
    lemma_keys_differ();
    number::law_decimal_reads_back(n as nat);
}

/// What is written under `target_fps` reads back.
pub proof fn law_target_fps_reads_back(c: ConfigView, n: u32)
    requires
        0 <= n <= 480,
    ensures
        config::applied(
            c,
            "target_fps"@,
            number::decimal(n as nat),
        ) == Some(ConfigView { target_fps: n, ..c }),
{
    lemma_keys_differ();
    number::law_decimal_reads_back(n as nat);
}

/// What is written under `sharpness` reads back.
pub proof fn law_sharpness_reads_back(c: ConfigView, n: u32)
    requires
        0 <= n <= 10,
    ensures
        config::applied(
            c,
            "sharpness"@,
            number::decimal(n as nat),
        ) == Some(ConfigView { sharpness: n, ..c }),
{
    lemma_keys_differ();
    number::law_decimal_reads_back(n as nat);
}

/// What is written under `brightness` reads back.
pub proof fn law_brightness_reads_back(c: ConfigView, n: u32)
    requires
        n <= 200,
    ensures
        config::applied(
            c,
            "brightness"@,
            number::decimal(n as nat),
        ) == Some(ConfigView { brightness: n, ..c }),
{
    lemma_keys_differ();
    number::law_decimal_reads_back(n as nat);
}

/// What is written under `contrast` reads back.
pub proof fn law_contrast_reads_back(c: ConfigView, n: u32)
    requires
        n <= 200,
    ensures
        config::applied(
            c,
            "contrast"@,
            number::decimal(n as nat),
        ) == Some(ConfigView { contrast: n, ..c }),
{
    lemma_keys_differ();
    number::law_decimal_reads_back(n as nat);
}

/// What is written under `gamma` reads back.
pub proof fn law_gamma_reads_back(c: ConfigView, n: u32)
    requires
        10 <= n <= 300,
    ensures
        config::applied(
            c,
            "gamma"@,
            number::decimal(n as nat),
        ) == Some(ConfigView { gamma: n, ..c }),
{
    lemma_keys_differ();
    number::law_decimal_reads_back(n as nat);
}

/// What is written under `osd_opacity` reads back.
pub proof fn law_osd_opacity_reads_back(c: ConfigView, n: u32)
    requires
        0 <= n <= 100,
    ensures
        config::applied(
            c,
            "osd_opacity"@,
            number::decimal(n as nat),
        ) == Some(ConfigView { osd_opacity: n, ..c }),
{
    lemma_keys_differ();
    number::law_decimal_reads_back(n as nat);
}

/// What is written under `audio_capture_buf` reads back.
pub proof fn law_audio_capture_buf_reads_back(c: ConfigView, n: u32)
    requires
        1 <= n <= 100,
    ensures
        config::applied(
            c,
            "audio_capture_buf"@,
            number::decimal(n as nat),
        ) == Some(ConfigView { audio_capture_buf: n, ..c }),
{
    lemma_keys_differ();
    number::law_decimal_reads_back(n as nat);
}

/// What is written under `audio_playback_buf` reads back.
pub proof fn law_audio_playback_buf_reads_back(c: ConfigView, n: u32)
    requires
        1 <= n <= 100,
    ensures
        config::applied(
            c,
            "audio_playback_buf"@,
            number::decimal(n as nat),
        ) == Some(ConfigView { audio_playback_buf: n, ..c }),
{
    lemma_keys_differ();
    number::law_decimal_reads_back(n as nat);
}

/// What is written under `stream_client_port` reads back.
pub proof fn law_stream_client_port_reads_back(c: ConfigView, n: u16)
    ensures
        config::applied(
            c,
            "stream_client_port"@,
            number::decimal(n as nat),
        ) == Some(ConfigView { stream_client_port: n, ..c }),
{
    lemma_keys_differ();
    number::law_decimal_reads_back(n as nat);
}

/// What is written under `framegen_mode` reads back.
pub proof fn law_framegen_mode_reads_back(c: ConfigView, s: Seq<char>)
    ensures
        config::applied(
            c,
            "framegen_mode"@,
            s,
        ) == Some(ConfigView { framegen_mode: s, ..c }),
{
    lemma_keys_differ();
}

/// What is written under `framegen_quality` reads back.
pub proof fn law_framegen_quality_reads_back(c: ConfigView, s: Seq<char>)
    ensures
        config::applied(
            c,
            "framegen_quality"@,
            s,
        ) == Some(ConfigView { framegen_quality: s, ..c }),
{
    lemma_keys_differ();
}

/// What is written under `scale_mode` reads back.
pub proof fn law_scale_mode_reads_back(c: ConfigView, s: Seq<char>)
    ensures
        config::applied(
            c,
            "scale_mode"@,
            s,
        ) == Some(ConfigView { scale_mode: s, ..c }),
{
    lemma_keys_differ();
}

/// What is written under `stream_port` reads back.
pub proof fn law_stream_port_reads_back(c: ConfigView, n: u16)
    ensures
        config::applied(
            c,
            "stream_port"@,
            number::decimal(n as nat),
        ) == Some(ConfigView { stream_port: n, ..c }),
{
    lemma_keys_differ();
    number::law_decimal_reads_back(n as nat);
}

/// What is written under `pause_on_minimize` reads back.
pub proof fn law_pause_on_minimize_reads_back(c: ConfigView, b: bool)
    ensures
        config::applied(
            c,
            "pause_on_minimize"@,
            menu_sync::switch_name(config::bit(b)),
        ) == Some(ConfigView { pause_on_minimize: config::bit(b), ..c }),
{
    lemma_keys_differ();
    lemma_values_differ();
}

/// What is written under `pause_on_background` reads back.
pub proof fn law_pause_on_background_reads_back(c: ConfigView, b: bool)
    ensures
        config::applied(
            c,
            "pause_on_background"@,
            menu_sync::switch_name(config::bit(b)),
        ) == Some(ConfigView { pause_on_background: config::bit(b), ..c }),
{
    lemma_keys_differ();
    lemma_values_differ();
}

/// What is written under `virtual_webcam` reads back.
pub proof fn law_virtual_webcam_reads_back(c: ConfigView, b: bool)
    ensures
        config::applied(
            c,
            "virtual_webcam"@,
            menu_sync::switch_name(config::bit(b)),
        ) == Some(ConfigView { virtual_webcam: config::bit(b), ..c }),
{
    lemma_keys_differ();
    lemma_values_differ();
}

/// What is written under `virtual_mic` reads back.
pub proof fn law_virtual_mic_reads_back(c: ConfigView, b: bool)
    ensures
        config::applied(
            c,
            "virtual_mic"@,
            menu_sync::switch_name(config::bit(b)),
        ) == Some(ConfigView { virtual_mic: config::bit(b), ..c }),
{
    lemma_keys_differ();
    lemma_values_differ();
}

/// What is written under `fps_display` reads back.
pub proof fn law_fps_display_reads_back(c: ConfigView, s: Seq<char>)
    requires
        s == "off"@ || s == "simple"@ || s == "verbose"@,
    ensures
        config::applied(c, "fps_display"@, s) == Some(ConfigView { fps_display: s, ..c }),
{
    lemma_keys_differ();
    reveal_strlit("off");
    reveal_strlit("simple");
    reveal_strlit("verbose");
    assert("off"@.len() == 3 && "simple"@.len() == 6 && "verbose"@.len() == 7);
}

/// A part without a separator is the first piece.
proof fn lemma_first_piece(a: Seq<char>, rest: Seq<char>)
    requires
        forall|i: int| 0 <= i < a.len() ==> #[trigger] a[i] != '.',
    ensures
        text::pieces(a + seq!['.'] + rest, '.') == seq![a] + text::pieces(rest, '.'),
        text::pieces(a, '.') == seq![a],
{
    let s = a + seq!['.'] + rest;
    text::lemma_find_unique(s, '.', a.len() as int);
    assert(s.take(a.len() as int) =~= a);
    assert(s.skip(a.len() as int + 1) =~= rest);
    text::lemma_find_unique(a, '.', a.len() as int);
}

/// A number reads back as a part of an address.
proof fn lemma_octet(n: u8)
    ensures
        config::octet(number::decimal(n as nat)) == Some(n as nat),
        forall|i: int|
            0 <= i < number::decimal(n as nat).len() ==> #[trigger] number::decimal(n as nat)[i]
                != '.',
{
    let d = number::decimal(n as nat);
    number::law_decimal_reads_back(n as nat);
    number::lemma_decimal(n as nat);
    assert(number::is_digit(d[0]) && number::is_digit(d.last()));
    assert(text::trimmed(d) =~= d);
}

/// What is written under `stream_client_ip` reads back.
pub proof fn law_stream_client_ip_reads_back(c: ConfigView, ip: Seq<u8>)
    requires
        ip.len() == 4,
    ensures
        config::applied(c, "stream_client_ip"@, menu_build::dotted(ip)) == Some(
            ConfigView { stream_client_ip: ip, ..c },
        ),
{
    lemma_keys_differ();
    let a = number::decimal(ip[0] as nat);
    let b = number::decimal(ip[1] as nat);
    let d = number::decimal(ip[2] as nat);
    let e = number::decimal(ip[3] as nat);
    let dot = seq!['.'];
    reveal_strlit(".");
    assert("."@ =~= dot);
    assert(menu_build::dotted(ip) =~= a + dot + (b + dot + (d + dot + e)));
    lemma_octet(ip[0]);
    lemma_octet(ip[1]);
    lemma_octet(ip[2]);
    lemma_octet(ip[3]);
    lemma_first_piece(a, b + dot + (d + dot + e));
    lemma_first_piece(b, d + dot + e);
    lemma_first_piece(d, e);
    lemma_first_piece(e, e);
    let p = text::pieces(menu_build::dotted(ip), '.');
    assert(p =~= seq![a, b, d, e]);
    assert(config::address(menu_build::dotted(ip))->0 =~= ip);
}

} // verus!
