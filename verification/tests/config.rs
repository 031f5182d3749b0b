use capview::capture::{V4L2_PIX_FMT_MJPEG, V4L2_PIX_FMT_NV12, V4L2_PIX_FMT_YUYV};
use capview::config::{
    apply_config_key, parse_bool, parse_pixfmt, AspectMode, AudioMode, Config, ConfigError, Platform,
    PriorityFlags, RecordResolution, RendererBackend, ScreenshotFormat, VkPresentMode, MAX_BUFFERS,
};
use capview::config_file::{save_key, DEFAULT_CONFIG};
use capview::config_warnings::{warnings, Cause};

#[test]
fn parse_bool_accepts_truthy_only() {
    for v in ["true", "1", "yes"] {
        assert!(parse_bool(v), "{v} should be true");
    }
    for v in ["false", "0", "no", "off", "TRUE", ""] {
        assert!(!parse_bool(v), "{v} should be false");
    }
}

#[test]
fn priority_flags_keywords() {
    assert_eq!(PriorityFlags::parse("all"), PriorityFlags::all());
    assert_eq!(PriorityFlags::parse("  ALL "), PriorityFlags::all());
    assert_eq!(PriorityFlags::parse("none"), PriorityFlags::none());
    assert_eq!(PriorityFlags::parse("off"), PriorityFlags::none());
}

#[test]
fn priority_flags_list_and_aliases() {
    let f = PriorityFlags::parse("rt, mlock,ioprio");
    assert!(f.has(PriorityFlags::realtime()));
    assert!(f.has(PriorityFlags::mlock()));
    assert!(f.has(PriorityFlags::io_prio()));
    assert!(!f.has(PriorityFlags::cpu_pin()));
    // Unknown tokens are ignored, not fatal.
    assert_eq!(PriorityFlags::parse("bogus"), PriorityFlags::none());
}

#[test]
fn pixfmt_known_and_fallback() {
    assert_eq!(parse_pixfmt("nv12", 1).unwrap(), V4L2_PIX_FMT_NV12);
    assert_eq!(parse_pixfmt("YUY2", 1).unwrap(), V4L2_PIX_FMT_YUYV);
    assert_eq!(parse_pixfmt("mjpg", 1).unwrap(), V4L2_PIX_FMT_MJPEG);
    // Unknown formats fall back to NV12 rather than erroring.
    assert_eq!(parse_pixfmt("bogus", 1).unwrap(), V4L2_PIX_FMT_NV12);
}

#[test]
fn apply_config_key_parses_and_clamps() {
    let mut cfg = Config::default();
    apply_config_key(&mut cfg, "width", "2560", 1).unwrap();
    assert_eq!(cfg.width, 2560);
    apply_config_key(&mut cfg, "buffers", "99", 1).unwrap();
    assert_eq!(cfg.buffers, MAX_BUFFERS);
    apply_config_key(&mut cfg, "window", "960x540", 1).unwrap();
    assert_eq!((cfg.win_w, cfg.win_h), (Some(960), Some(540)));
    apply_config_key(&mut cfg, "vsync", "yes", 1).unwrap();
    assert!(cfg.vsync);
    assert!(apply_config_key(&mut cfg, "fps", "not-a-number", 1).is_err());
}

#[test]
fn no_priority_bit_stands_for_nothing() {
    let every = "timer_slack,rt,cpu_pin,mlock,idle,no_comp,ioprio,signals,bogus";
    assert_eq!(PriorityFlags::parse(every), PriorityFlags::all());
    assert_eq!(PriorityFlags::all(), PriorityFlags(0xff));
}

#[test]
fn defaults_of_both_platforms() {
    let linux = Config::defaults(Platform::Linux);
    assert_eq!(linux.device, "/dev/video0");
    assert_eq!((linux.width, linux.height, linux.fps), (1920, 1080, 60));
    assert_eq!(linux.buffers, 2);
    assert_eq!(linux.osd_opacity, 63);
    assert!(linux.pause_on_minimize);
    assert_eq!(linux.stream_client_ip, [192, 168, 1, 1]);
    let mac = Config::defaults(Platform::MacOs);
    assert_eq!(mac.device, "0");
}

#[test]
fn every_numeric_key_is_clamped() {
    let mut cfg = Config::default();
    let cases = [
        ("buffers", "1"),
        ("max_volume", "5"),
        ("jpeg_quality", "0"),
        ("stream_quality", "500"),
        ("strip_cols", "0"),
        ("strip_rows", "7"),
        ("target_fps", "1000"),
        ("sharpness", "11"),
        ("audio_capture_buf", "0"),
        ("audio_playback_buf", "101"),
        ("brightness", "1"),
        ("contrast", "500"),
        ("gamma", "1"),
        ("osd_opacity", "101"),
    ];
    for (k, v) in cases {
        apply_config_key(&mut cfg, k, v, 1).unwrap();
    }
    assert_eq!(cfg.buffers, 2);
    assert_eq!(cfg.max_volume, 100);
    assert_eq!(cfg.jpeg_quality, 1);
    assert_eq!(cfg.stream_quality, 100);
    assert_eq!((cfg.strip_cols, cfg.strip_rows), (1, 6));
    assert_eq!(cfg.target_fps, 480);
    assert_eq!(cfg.sharpness, 10);
    assert_eq!((cfg.audio_capture_buf, cfg.audio_playback_buf), (1, 100));
    assert_eq!((cfg.brightness, cfg.contrast, cfg.gamma), (1, 200, 10));
    apply_config_key(&mut cfg, "brightness", "0", 1).unwrap();
    apply_config_key(&mut cfg, "contrast", "0", 1).unwrap();
    assert_eq!((cfg.brightness, cfg.contrast), (0, 0));
    assert_eq!(cfg.osd_opacity, 100);
}

#[test]
fn words_of_the_config_file() {
    let mut cfg = Config::default();
    let cases = [
        ("renderer", "GL"),
        ("vk_present_mode", "VSync"),
        ("aspect_mode", "zoom"),
        ("audio_mode", "passthrough"),
        ("record_resolution", "Win"),
        ("screenshot_format", "JPG"),
        ("stream_client_ip", "10.0.0.7"),
        ("plugins", " a.so "),
        ("plugin", "b.so"),
        ("audio_device", "  "),
        ("fps_display", "loud"),
        ("nonsense", "whatever"),
    ];
    for (k, v) in cases {
        apply_config_key(&mut cfg, k, v, 1).unwrap();
    }
    assert_eq!(cfg.renderer, RendererBackend::OpenGl);
    assert_eq!(cfg.vk_present_mode, VkPresentMode::Fifo);
    assert_eq!(cfg.aspect_mode, AspectMode::Zoom);
    assert_eq!(cfg.audio_mode, AudioMode::Passthrough);
    assert_eq!(cfg.record_resolution, RecordResolution::Window);
    assert_eq!(cfg.screenshot_format, ScreenshotFormat::Jpeg);
    assert_eq!(cfg.stream_client_ip, [10, 0, 0, 7]);
    assert_eq!(cfg.plugins, vec!["a.so".to_string(), "b.so".to_string()]);
    assert_eq!(cfg.audio_device, None);
    assert_eq!(cfg.fps_display, "off");
}

#[test]
fn numbers_out_of_range_are_errors() {
    let mut cfg = Config::default();
    assert!(matches!(
        apply_config_key(&mut cfg, "width", "4294967296", 1),
        Err(ConfigError::Invalid(_))
    ));
    assert!(apply_config_key(&mut cfg, "stream_port", "65536", 1).is_err());
    assert!(apply_config_key(&mut cfg, "stream_port", "+65535", 1).is_ok());
    assert_eq!(cfg.stream_port, 65535);
    assert!(apply_config_key(&mut cfg, "width", "-1", 1).is_err());
}

#[test]
fn default_file_sets_the_defaults() {
    let cfg = Config::load(Platform::Linux, Some(DEFAULT_CONFIG), None).unwrap();
    assert_eq!((cfg.width, cfg.height, cfg.fps), (1920, 1080, 60));
    assert_eq!(cfg.pixfmt, V4L2_PIX_FMT_NV12);
}

#[test]
fn profiles_override_the_top() {
    let file = "# comment\nwidth = 1280\nfps = \"30\"\n\n[fast]\nfps = 120\n[empty]\n";
    let base = Config::load(Platform::Linux, Some(file), None).unwrap();
    assert_eq!((base.width, base.fps), (1280, 30));
    let fast = Config::load(Platform::Linux, Some(file), Some("fast")).unwrap();
    assert_eq!((fast.width, fast.fps), (1280, 120));
    assert!(matches!(
        Config::load(Platform::Linux, Some(file), Some("missing")),
        Err(ConfigError::ProfileNotFound(_))
    ));
    assert!(Config::list_profiles(file).contains(&"fast".to_string()));
}

#[test]
fn saved_keys_read_back() {
    let file = "width = 1280\n[game]\nfps = 60\n";
    let once = save_key(Some(file), None, "height", "720");
    let cfg = Config::load(Platform::Linux, Some(&once), None).unwrap();
    assert_eq!((cfg.width, cfg.height), (1280, 720));
    let twice = save_key(Some(&once), Some("game"), "fps", "144");
    let game = Config::load(Platform::Linux, Some(&twice), Some("game")).unwrap();
    assert_eq!((game.height, game.fps), (720, 144));
    let top = Config::load(Platform::Linux, Some(&twice), None).unwrap();
    assert_eq!(top.fps, 60);
    let fresh = save_key(None, None, "vsync", "true");
    assert!(Config::load(Platform::Linux, Some(&fresh), None).unwrap().vsync);
}

#[test]
fn setting_a_saved_value_in_a_profile_keeps_the_others() {
    let file = "width = 1280\n[a]\nfps = 30\n[b]\nfps = 50\n";
    let after = save_key(Some(file), Some("a"), "fps", "31");
    let a = Config::load(Platform::Linux, Some(&after), Some("a")).unwrap();
    let b = Config::load(Platform::Linux, Some(&after), Some("b")).unwrap();
    assert_eq!((a.fps, b.fps), (31, 50));
    assert_eq!((a.width, b.width), (1280, 1280));
}

#[test]
fn strange_lines_and_words_are_told() {
    let file = "what is this\n\nformat = nv13\nWindow = 9\n[p]\nrenderer = metal\n\
                no_such_key = 1\npriority = rt, bogus,, mlock\n";
    let told = |profile: Option<&str>| -> Vec<(usize, Cause, String)> {
        warnings(Platform::Linux, file, profile)
            .into_iter()
            .map(|w| (w.line, w.cause, w.word))
            .collect()
    };
    let globals = vec![
        (1, Cause::Malformed, String::new()),
        (3, Cause::Format, "nv13".to_string()),
        (4, Cause::Window, "9".to_string()),
    ];
    assert_eq!(told(None), globals);
    assert_eq!(told(Some("none")), globals);
    let mut own = globals;
    own.push((6, Cause::Renderer, "metal".to_string()));
    own.push((7, Cause::Key, "no_such_key".to_string()));
    own.push((8, Cause::PriorityFlag, "bogus".to_string()));
    own.push((8, Cause::PriorityFlag, String::new()));
    assert_eq!(told(Some("P")), own);
    assert!(warnings(Platform::Linux, DEFAULT_CONFIG, None).is_empty());
}

#[test]
fn nothing_is_told_behind_a_bad_number() {
    let file = "fps = fast\nformat = nv13\n[p]\nrenderer = metal\nbad line\n";
    let told = warnings(Platform::Linux, file, Some("p"));
    assert_eq!(told.len(), 1);
    assert_eq!((told[0].line, told[0].cause), (5, Cause::Malformed));
}

#[test]
fn warnings_have_words() {
    let one = |line: &str| warnings(Platform::Linux, line, None)[0].message();
    assert_eq!(one("oops"), "capview.conf:1: malformed line");
    assert_eq!(one("\nnope = 1"), "capview.conf:2: unknown key 'nope'");
    assert_eq!(one("format = X"), "capview.conf:1: unknown format 'X'");
    assert_eq!(one("window = 9"), "capview.conf:1: bad window size '9' (want WxH)");
    assert_eq!(
        one("record_res = x"),
        "capview.conf:1: unknown record_resolution 'x' (native|window)"
    );
    assert_eq!(
        one("screenshot_fmt = bmp"),
        "capview.conf:1: unknown screenshot_format 'bmp' (png|jpeg)"
    );
    assert_eq!(
        one("renderer = x"),
        "capview.conf:1: unknown renderer 'x' (sdl|opengl|vulkan)"
    );
    assert_eq!(
        one("present_mode = x"),
        "capview.conf:1: unknown present mode 'x' (mailbox|immediate|fifo)"
    );
    assert_eq!(
        one("stream_client_ip = 1.2.3.x"),
        "capview.conf:1: bad stream_client_ip '1.2.3.x'"
    );
    assert_eq!(
        one("stream_client_ip = 1.2.3"),
        "capview.conf:1: bad stream_client_ip '1.2.3' (want A.B.C.D)"
    );
    assert_eq!(one("priority = warp"), "capview: unknown priority flag 'warp'");
}
