use capview::analysis_strip::OutputMode;
use capview::capture::{PIXFMT_RGB24, V4L2_PIX_FMT_MJPEG, V4L2_PIX_FMT_NV12, V4L2_PIX_FMT_P010};
use capview::config::{
    apply_config_key, AspectMode, AudioMode, Config, Platform, RendererBackend, ScreenshotFormat,
    VkPresentMode,
};
use capview::framegen::{FrameGenMode, FrameGenQuality};
use capview::gl_renderer::ScaleMode;
use capview::keys::{
    backend_switch, brighter, can_be_typed, can_share, connect_target, connected, darker,
    enforce_aspect, framegen_key, menu_step, needs_table, plain_key, screenshot_key,
    upload_source, BackendSwitch, FramegenKey, Fullscreen, FullscreenStep, Geometry, Pending, PlainKey,
    PlainStep, RestartNote, StripKeys, StripStep, Upload,
};
use capview::menu::{buf_ms_index, find_menu_value, Kind, MenuItem};
use capview::menu_build::{
    build_root_menu, update_streaming_osd, AudioShown, Shown, VideoShown,
};
use capview::menu_levels::{
    apply_choice, read_audio_menu, read_audio_mode, sync_levels, FramegenState,
};
use capview::menu_sync::{
    framegen_mode_str, read_framegen_menu, sync_menu_to_config, sync_vcam_menu, sync_vmic_menu,
    vcam_done, vmic_done, DeviceStep,
};
use capview::pacing::{FrameWait, Pacing};
use capview::paths::{config_path, rife_model_candidates, rife_model_path};
use capview::pause::{PauseEvent, PauseRules, PauseState, PauseStep};
use capview::startup::{
    apply_overrides, banner, bind_address, effective_format, frame_bytes, initial_framegen_mode,
    initial_framegen_quality, initial_scale_mode, parse_format, pixfmt_to_sdl, texture_update,
    unless_debugging, usable_present_mode, window_size, FormatError, Overrides, TextureFormat,
    TextureUpdate,
};
use capview::stats::{
    cpu_ticks, frame_hash, renderer_tag, scale_tag, window_title, Counters, FpsShow, GapRing,
};

fn shown() -> Shown {
    Shown {
        server: false,
        client: false,
        strip: false,
        video: VideoShown {
            fg_mode: FrameGenMode::Off,
            rife: false,
            fg_quality: FrameGenQuality::Balanced,
            target_fps: 120,
            scale_mode: ScaleMode::Cas,
            sharpness: 5,
            active: RendererBackend::OpenGl,
            aspect: AspectMode::Preserve,
            brightness: 100,
            contrast: 100,
            gamma: 10,
            immediate: true,
        },
        audio: AudioShown { volume: 100, muted: false, capture_ms: 5, playback_ms: 10 },
        platform: Platform::Linux,
    }
}

fn pick(menu: &mut [MenuItem], label: &str, place: usize) {
    for item in menu.iter_mut() {
        if item.label == label {
            if let Kind::Value { selected, .. } = &mut item.kind {
                *selected = place;
                return;
            }
        }
    }
    panic!("no item {label}");
}

fn options(menu: &[MenuItem], label: &str) -> Vec<String> {
    for item in menu {
        if item.label == label {
            if let Kind::Value { options, .. } = &item.kind {
                return options.clone();
            }
        }
    }
    panic!("no item {label}");
}

#[test]
fn the_menu_shows_the_settings() {
    let mut cfg = Config::default();
    cfg.renderer = RendererBackend::OpenGl;
    cfg.screenshot_format = ScreenshotFormat::Jpeg;
    let m = build_root_menu(&cfg, shown(), "20240101-000000");
    assert_eq!(m[0].label, "Video");
    assert_eq!(m[0].depth, 0);
    assert_eq!(options(&m, "Backend"), vec!["SDL", "OpenGL", "Vulkan (restart)"]);
    assert_eq!(find_menu_value(&m, "Backend"), Some(1));
    assert_eq!(find_menu_value(&m, "Brightness"), Some(19));
    assert_eq!(find_menu_value(&m, "Gamma"), Some(9));
    assert_eq!(options(&m, "Gamma")[29], "3.0");
    assert_eq!(options(&m, "Gamma")[0], "0.1");
    assert_eq!(find_menu_value(&m, "Scaling"), Some(3));
    assert_eq!(find_menu_value(&m, "Sharpness"), Some(5));
    assert_eq!(find_menu_value(&m, "JPEG Quality"), Some(5));
    assert_eq!(options(&m, "JPEG Quality")[5], "90%");
    assert_eq!(options(&m, "Volume").len(), 21);
    assert_eq!(find_menu_value(&m, "Volume"), Some(20));
    assert_eq!(options(&m, "Capture Buffer")[0], "5 ms");
    assert_eq!(find_menu_value(&m, "FG Quality"), None);
    assert_eq!(find_menu_value(&m, "Virtual Webcam"), Some(0));
    assert_eq!(m.last().unwrap().label, "v20240101-000000");
    let mut mac = shown();
    mac.platform = Platform::MacOs;
    mac.strip = true;
    let n = build_root_menu(&cfg, mac, "x");
    assert_eq!(find_menu_value(&n, "Virtual Webcam"), None);
    assert_eq!(find_menu_value(&n, "Grid Rows"), Some(5));
}

#[test]
fn an_untouched_menu_writes_nothing() {
    let mut cfg = Config::default();
    cfg.osd_opacity = 70;
    let m = build_root_menu(&cfg, shown(), "x");
    let mut used = AspectMode::Preserve;
    assert!(sync_menu_to_config(&m, &mut cfg, &mut used, true).is_empty());
    assert!(sync_levels(&m, &mut cfg).is_empty());
}

#[test]
fn choices_are_taken_over_and_load_again() {
    let mut cfg = Config::default();
    cfg.screenshot_format = ScreenshotFormat::Jpeg;
    cfg.renderer = RendererBackend::Vulkan;
    let mut s = shown();
    s.strip = true;
    let mut m = build_root_menu(&cfg, s, "x");
    pick(&mut m, "JPEG Quality", 7);
    pick(&mut m, "Backend", 1);
    pick(&mut m, "Aspect", 2);
    pick(&mut m, "Present Mode", 1);
    pick(&mut m, "Port", 6);
    pick(&mut m, "Quality", 0);
    pick(&mut m, "Grid Columns", 3);
    pick(&mut m, "Grid Rows", 0);
    pick(&mut m, "Audio Mode", 1);
    pick(&mut m, "Pause on Minimize", 0);
    pick(&mut m, "Pause on Background", 1);
    let mut used = AspectMode::Preserve;
    let saved = sync_menu_to_config(&m, &mut cfg, &mut used, true);
    assert_eq!(saved.len(), 11);
    assert_eq!(used, AspectMode::Stretch);
    assert_eq!(cfg.jpeg_quality, 100);
    assert_eq!(cfg.stream_port, 8080);
    assert_eq!(cfg.vk_present_mode, VkPresentMode::Immediate);
    let mut again = Config::default();
    for k in &saved {
        apply_config_key(&mut again, &k.key, &k.value, 1).unwrap();
    }
    assert_eq!(again.renderer, RendererBackend::OpenGl);
    assert_eq!(again.aspect_mode, AspectMode::Stretch);
    assert_eq!(again.vk_present_mode, VkPresentMode::Immediate);
    assert_eq!((again.stream_port, again.stream_quality), (8080, 40));
    assert_eq!((again.strip_cols, again.strip_rows), (4, 1));
    assert_eq!(again.audio_mode, AudioMode::Passthrough);
    assert!(!again.pause_on_minimize && again.pause_on_background);
    assert!(sync_menu_to_config(&m, &mut cfg, &mut used, true).is_empty());
}

#[test]
fn levels_are_taken_over() {
    let mut cfg = Config::default();
    let mut m = build_root_menu(&cfg, shown(), "x");
    pick(&mut m, "Brightness", 0);
    pick(&mut m, "Gamma", 29);
    pick(&mut m, "OSD Opacity", 20);
    let saved = sync_levels(&m, &mut cfg);
    assert_eq!(saved.len(), 3);
    assert_eq!((cfg.brightness, cfg.contrast, cfg.gamma, cfg.osd_opacity), (5, 100, 300, 100));
    assert_eq!(saved[1].key, "gamma");
    assert_eq!(saved[1].value, "300");
}

#[test]
fn frame_generation_is_taken_over() {
    let mut cfg = Config::default();
    cfg.renderer = RendererBackend::OpenGl;
    let mut s = shown();
    s.video.fg_mode = FrameGenMode::Extrapolate;
    let mut m = build_root_menu(&cfg, s, "x");
    pick(&mut m, "Frame Gen", 2);
    pick(&mut m, "FG Quality", 0);
    pick(&mut m, "Target FPS", 4);
    pick(&mut m, "Scaling", 4);
    let c = read_framegen_menu(&m, false, false);
    assert_eq!(c.mode, Some(FrameGenMode::Interpolate));
    assert_eq!(c.scaling, Some(ScaleMode::Fsr));
    assert_eq!(read_framegen_menu(&m, true, false).scaling, Some(ScaleMode::Bilinear));
    let mut st = FramegenState {
        mode: FrameGenMode::Extrapolate,
        quality: FrameGenQuality::Balanced,
        scaling: ScaleMode::Cas,
        sharpness: 5,
    };
    let mut p = Pacing::new(0, 60, 0);
    let (d, saved) = apply_choice(&mut st, &mut p, &mut cfg, c, false);
    assert_eq!(d.target_fps, Some(144));
    assert_eq!(d.sharpness, None);
    assert_eq!(st.quality, FrameGenQuality::Fast);
    assert_eq!((p.target_fps, p.interval, p.synths_per_real), (144, 6944, 2));
    assert_eq!(cfg.target_fps, 144);
    let keys: Vec<&str> = saved.iter().map(|s| s.key.as_str()).collect();
    assert_eq!(keys, ["framegen_mode", "framegen_quality", "target_fps", "scale_mode"]);
}

#[test]
fn an_untouched_choice_changes_nothing() {
    let mut cfg = Config::default();
    for renderer in [RendererBackend::Sdl, RendererBackend::OpenGl, RendererBackend::Vulkan] {
        cfg.renderer = renderer;
        for place in 0..FrameGenMode::count(true) {
            let mut s = shown();
            s.video.rife = true;
            s.video.fg_mode = FrameGenMode::from_index(place, true);
            let m = build_root_menu(&cfg, s, "x");
            let c = read_framegen_menu(&m, renderer == RendererBackend::Vulkan, true);
            let mut st = FramegenState {
                mode: s.video.fg_mode,
                quality: s.video.fg_quality,
                scaling: s.video.scale_mode,
                sharpness: s.video.sharpness,
            };
            let before = st;
            let mut p = Pacing::new(120, 60, 0);
            let (_, saved) = apply_choice(&mut st, &mut p, &mut cfg, c, false);
            assert!(saved.is_empty());
            assert_eq!((st, p.target_fps), (before, 120));
        }
    }
}

#[test]
fn a_model_that_fails_to_load_is_off() {
    let mut cfg = Config::default();
    cfg.renderer = RendererBackend::OpenGl;
    let mut s = shown();
    s.video.rife = true;
    let mut m = build_root_menu(&cfg, s, "x");
    pick(&mut m, "Frame Gen", 3);
    let c = read_framegen_menu(&m, false, true);
    assert_eq!(c.mode, Some(FrameGenMode::Rife));
    for (failed, mode, name) in
        [(true, FrameGenMode::Off, "off"), (false, FrameGenMode::Rife, "rife")]
    {
        let mut st = FramegenState {
            mode: FrameGenMode::Interpolate,
            quality: s.video.fg_quality,
            scaling: s.video.scale_mode,
            sharpness: s.video.sharpness,
        };
        let mut p = Pacing::new(120, 60, 0);
        let (d, saved) = apply_choice(&mut st, &mut p, &mut cfg, c, failed);
        assert_eq!((d.mode, st.mode), (Some(mode), mode));
        assert_eq!((saved[0].key.as_str(), saved[0].value.as_str()), ("framegen_mode", name));
    }
}

#[test]
fn a_model_is_offered_in_the_menu() {
    let mut cfg = Config::default();
    cfg.renderer = RendererBackend::OpenGl;
    let mut s = shown();
    s.video.rife = true;
    s.video.fg_mode = FrameGenMode::Rife;
    let m = build_root_menu(&cfg, s, "x");
    let c = read_framegen_menu(&m, false, true);
    assert_eq!((c.mode, c.quality), (Some(FrameGenMode::Rife), None));
    assert!(c.target_fps.is_some());
    assert_eq!(read_framegen_menu(&m, false, false).mode, Some(FrameGenMode::Off));
    let item = m.iter().find(|i| i.label == "Frame Gen").unwrap();
    match &item.kind {
        Kind::Value { options, .. } => assert_eq!(options.last().unwrap(), "RIFE"),
        _ => panic!("a value is offered"),
    }
}

#[test]
fn frames_are_due_right_after_a_captured_one() {
    let mut p = Pacing::new(100, 50, 1000);
    assert!(!p.is_due(true, true, 2000));
    assert!(p.is_due_after(true, 2000));
    assert!(!p.is_due_after(false, 2000));
    p.presented(true, true, 2000);
    assert_eq!(p.deadline, 12000);
    assert!(!p.is_due_after(true, 11999));
    assert!(p.is_due_after(true, 12000));
    p.presented(false, true, 50000);
    assert_eq!(p.deadline, 60000);
    assert!(!p.is_due_after(true, 50000));
}

#[test]
fn sound_is_read_from_the_menu() {
    let cfg = Config::default();
    let a = shown().audio;
    let mut m = build_root_menu(&cfg, shown(), "x");
    assert_eq!(read_audio_menu(&m, a).volume, None);
    pick(&mut m, "Volume", 10);
    pick(&mut m, "Mute", 1);
    pick(&mut m, "Playback Buffer", 6);
    let c = read_audio_menu(&m, a);
    assert_eq!((c.volume, c.muted, c.buffers), (Some(50), Some(true), Some((5, 50))));
    assert_eq!(read_audio_mode(&m, AudioMode::Capture), None);
    assert_eq!(read_audio_mode(&m, AudioMode::Passthrough), Some(AudioMode::Capture));
    assert_eq!(buf_ms_index(30), 4);
    assert_eq!(buf_ms_index(31), 1);
    assert_eq!(buf_ms_index(-5), 1);
}

#[test]
fn virtual_devices_follow_their_switches() {
    let mut cfg = Config::default();
    let mut m = build_root_menu(&cfg, shown(), "x");
    assert_eq!(sync_vcam_menu(&m, false), DeviceStep::Nothing);
    assert_eq!(sync_vcam_menu(&m, true), DeviceStep::Stop);
    pick(&mut m, "Virtual Webcam", 1);
    pick(&mut m, "Virtual Mic", 1);
    assert_eq!(sync_vcam_menu(&m, false), DeviceStep::Start);
    assert_eq!(sync_vmic_menu(&m, false, Some(AudioMode::Capture)), DeviceStep::Start);
    assert_eq!(sync_vmic_menu(&m, false, Some(AudioMode::Passthrough)), DeviceStep::NeedsCapture);
    assert_eq!(sync_vmic_menu(&m, false, None), DeviceStep::NeedsAudio);
    let k = vcam_done(&mut cfg, true);
    assert!(cfg.virtual_webcam);
    assert_eq!((k.key.as_str(), k.value.as_str()), ("virtual_webcam", "true"));
    cfg.virtual_mic = true;
    let k = vmic_done(&mut cfg, false);
    assert!(!cfg.virtual_mic);
    assert_eq!((k.key.as_str(), k.value.as_str()), ("virtual_mic", "false"));
}

#[test]
fn streaming_is_told() {
    let cfg = Config::default();
    assert_eq!(update_streaming_osd(None, false, &cfg), None);
    assert_eq!(
        update_streaming_osd(Some((9000, 2)), true, &cfg),
        Some("Server :9000 (2) | -> 192.168.1.1:9000".to_string())
    );
    assert_eq!(window_title(None, false, &cfg), "capview");
    assert_eq!(window_title(Some((9000, 1)), false, &cfg), "capview <streaming on :9000, 1 client>");
    assert_eq!(
        window_title(Some((9000, 0)), true, &cfg),
        "capview <streaming on :9000, 0 clients | connected to 192.168.1.1:9000>"
    );
}

fn rules() -> PauseRules {
    PauseRules { on_minimize: true, on_background: false, focus_is_all: false }
}

#[test]
fn a_minimized_window_pauses_and_comes_back() {
    let mut p = PauseState::new();
    assert_eq!(
        p.handle(PauseEvent::Minimized, rules(), Some(false)),
        PauseStep { redraw: true, mute: Some(true) }
    );
    assert!(p.paused);
    assert_eq!(
        p.handle(PauseEvent::FocusGained { still_minimized: true }, rules(), Some(true)),
        PauseStep { redraw: false, mute: None }
    );
    assert_eq!(
        p.handle(PauseEvent::Restored, rules(), Some(true)),
        PauseStep { redraw: true, mute: Some(false) }
    );
    assert!(!p.paused);
}

#[test]
fn a_pause_by_key_is_ended_by_key() {
    let mut p = PauseState::new();
    assert_eq!(p.handle(PauseEvent::Key, rules(), Some(true)).mute, None);
    assert!(!p.handle(PauseEvent::Restored, rules(), Some(true)).redraw);
    assert!(p.paused);
    assert_eq!(p.handle(PauseEvent::Key, rules(), Some(true)).mute, None);
    assert!(!p.paused);
}

#[test]
fn the_watcher_pauses() {
    let mut p = PauseState::new();
    assert!(p.handle(PauseEvent::Watched { minimized: true }, rules(), None).redraw);
    assert!(!p.handle(PauseEvent::Watched { minimized: true }, rules(), None).redraw);
    assert!(p.handle(PauseEvent::Watched { minimized: false }, rules(), None).redraw);
    assert!(!p.paused);
    let mut r = rules();
    r.focus_is_all = true;
    assert!(p.handle(PauseEvent::FocusLost, r, None).redraw);
    let mut q = PauseState::new();
    assert!(!q.handle(PauseEvent::FocusLost, rules(), None).redraw);
}

#[test]
fn frames_are_paced() {
    let mut p = Pacing::new(0, 60, 1000);
    assert_eq!((p.target_fps, p.interval, p.synths_per_real), (120, 8333, 1));
    assert_eq!(p.wait(false, 0), FrameWait::Millis(16));
    assert_eq!(p.wait(true, 400), FrameWait::Micros(600));
    assert_eq!(p.wait(true, 1000), FrameWait::Look);
    assert!(p.is_due(false, true, 1000) && !p.is_due(true, true, 1000));
    p.presented(true, true, 2000);
    assert_eq!(p.deadline, 10333);
    p.presented(false, true, 10400);
    assert_eq!(p.deadline, 18666);
    p.presented(false, true, 90000);
    assert_eq!(p.deadline, 98333);
    assert_eq!(p.next_synth(), (1, 2));
    p.drew_captured();
    assert_eq!(p.next_synth(), (1, 2));
    assert!(!p.is_stutter(24999) && p.is_stutter(25000));
    assert_eq!(Pacing::new(0, 200, 0).target_fps, 240);
    assert_eq!(Pacing::new(0, 0, 0).interval, 1_000_000);
    assert!(!p.set_target(120));
    assert!(p.set_target(0));
}

#[test]
fn frames_are_hashed() {
    assert_eq!(frame_hash(&[]), 0xcbf29ce484222325);
    assert_eq!(frame_hash(b"a"), 0xaf63dc4c8601ec8c);
    assert_ne!(frame_hash(&[0; 1000]), frame_hash(&[1; 1000]));
}

#[test]
fn gaps_are_kept() {
    let mut g = GapRing::new();
    assert_eq!(g.last(), 0);
    assert_eq!(g.variance(), None);
    g.note(10);
    g.note(14);
    assert_eq!(g.last(), 14);
    assert_eq!(g.variance(), Some(4));
    assert_eq!(g.longest, 14);
    g.shown();
    assert_eq!(g.longest, 0);
    for i in 0..100u64 {
        g.note(i);
    }
    assert_eq!((g.count, g.last()), (64, 99));
}

#[test]
fn frames_are_counted() {
    let mut c = Counters::new();
    c.capture(u32::MAX);
    c.capture(2);
    assert_eq!((c.captured, c.numbered), (2, 3));
    c.compare(b"x");
    c.compare(b"x");
    assert_eq!(c.unique, 1);
    c.upload(7);
    c.present(true, 9, true);
    assert_eq!((c.stutters, c.present_sum, c.shown), (1, 9, 1));
    assert_eq!(c.duplicates(), (1, 1));
    c.reported();
    assert_eq!((c.captured, c.dupes, c.stutters, c.last_number), (0, 1, 1, None));
    c.switched_on();
    assert_eq!(c.stutters, 0);
}

#[test]
fn displays_of_the_frame_rate() {
    assert_eq!(FpsShow::from_config("verbose"), FpsShow::Verbose);
    assert_eq!(FpsShow::from_config("x"), FpsShow::Off);
    assert_eq!(FpsShow::Simple.toggled("verbose"), FpsShow::Off);
    assert_eq!(FpsShow::Off.toggled("off"), FpsShow::Simple);
    assert_eq!(FpsShow::Off.toggled("verbose"), FpsShow::Verbose);
    assert_eq!(FpsShow::from_menu(2).config_name(), "verbose");
    assert_eq!(FpsShow::Simple.placeholder(), Some("-- / -- / -- fps"));
    assert_eq!(renderer_tag(true, false, Some(VkPresentMode::Mailbox), false), "VK+MB");
    assert_eq!(renderer_tag(false, true, None, true), "GL+DMA");
    assert_eq!(renderer_tag(false, false, None, false), "SDL");
    assert_eq!(scale_tag(true, ScaleMode::IntegerFsr), " FSR");
    assert_eq!(scale_tag(false, ScaleMode::Fsr), "");
}

#[test]
fn ticks_of_a_process() {
    let stat = "1 (capview) S 0 0 0 0 0 0 0 0 0 0 250 30 0 0";
    assert_eq!(cpu_ticks(stat), Some(280));
    assert_eq!(cpu_ticks("1 2 3"), None);
    assert_eq!(cpu_ticks("a b c d e f g h i j k l m n 5"), Some(5));
}

#[test]
fn plain_keys_quit_and_take() {
    assert_eq!(plain_key(PlainKey::Q, false), PlainStep::Quit);
    assert_eq!(plain_key(PlainKey::Escape, false), PlainStep::Quit);
    assert_eq!(plain_key(PlainKey::S, false), PlainStep::Take(Pending::File));
    assert_eq!(plain_key(PlainKey::C, false), PlainStep::Take(Pending::Clipboard));
    assert_eq!(plain_key(PlainKey::Escape, true), PlainStep::Back);
    assert_eq!(plain_key(PlainKey::Q, true), PlainStep::Nothing);
    assert_eq!((brighter(1000), brighter(194), darker(3)), (200, 199, 5));
}

#[test]
fn keys_for_screenshots_and_strips() {
    assert_eq!(screenshot_key(false, false, false), Some(Pending::Clipboard));
    assert_eq!(screenshot_key(true, false, false), Some(Pending::File));
    assert_eq!(screenshot_key(true, true, false), Some(Pending::Archive));
    assert_eq!(screenshot_key(true, true, true), None);
    let mut k = StripKeys::new();
    assert_eq!(k.press(false, false, false, false), StripStep::Nothing);
    assert_eq!(k.press(true, true, false, false), StripStep::Reveal);
    assert_eq!(k.press(true, true, false, false), StripStep::Take { begin: true });
    assert_eq!(k.mode, OutputMode::Tar);
    assert_eq!(k.press(true, false, false, false), StripStep::Take { begin: false });
    assert_eq!(k.mode, OutputMode::File);
    assert_eq!(k.press(true, false, true, false), StripStep::Finish { running: true });
    assert_eq!(k.press(true, false, true, true), StripStep::Nothing);
    assert!(can_be_typed('7') && can_be_typed(':') && !can_be_typed('a'));
    assert_eq!((menu_step(true), menu_step(false)), (10, 1));
}

#[test]
fn brightness_has_ends() {
    assert_eq!((brighter(100), brighter(198), brighter(200)), (105, 200, 200));
    assert_eq!((darker(100), darker(10), darker(5)), (95, 5, 5));
}

#[test]
fn the_window_keeps_its_shape() {
    assert_eq!(enforce_aspect(1920, 1080, 960, 540), None);
    assert_eq!(enforce_aspect(1920, 1080, 960, 541), None);
    assert_eq!(enforce_aspect(1920, 1080, 960, 600), Some((960, 540)));
    let mut f = Fullscreen { saved: None };
    let g = Geometry { x: 1, y: 2, w: 3, h: 4 };
    assert_eq!(f.toggle(false, g, 8, 9), FullscreenStep::LeaveCentered { w: 8, h: 9 });
    assert_eq!(f.toggle(true, g, 8, 9), FullscreenStep::Enter);
    assert_eq!(f.toggle(false, g, 8, 9), FullscreenStep::LeaveTo(g));
}

#[test]
fn backends_change_or_wait() {
    let (sdl, gl, vk) = (RendererBackend::Sdl, RendererBackend::OpenGl, RendererBackend::Vulkan);
    let mut n = RestartNote { shown: false };
    assert_eq!(n.check(vk, gl), Some("Restart to switch to Vulkan"));
    assert_eq!(n.check(vk, gl), None);
    assert_eq!(n.check(gl, gl), None);
    assert_eq!(n.check(sdl, gl), Some("Restart to switch to SDL"));
    assert_eq!(backend_switch(gl, sdl, false, Platform::Linux), BackendSwitch::ToOpenGl);
    assert_eq!(backend_switch(sdl, gl, true, Platform::Linux), BackendSwitch::ToSdl);
    assert_eq!(backend_switch(gl, sdl, false, Platform::MacOs), BackendSwitch::NextStart);
    assert_eq!(backend_switch(vk, sdl, false, Platform::Linux), BackendSwitch::Nothing);
    assert_eq!(framegen_key(FrameGenMode::Off, false, true, true), FramegenKey::Unavailable);
    assert_eq!(framegen_key(FrameGenMode::Off, true, false, true), FramegenKey::Refused);
    assert_eq!(
        framegen_key(FrameGenMode::Interpolate, true, false, false),
        FramegenKey::Switch(FrameGenMode::Off)
    );
    assert_eq!(
        framegen_key(FrameGenMode::Interpolate, true, true, true),
        FramegenKey::Switch(FrameGenMode::Rife)
    );
}

#[test]
fn uploads_are_chosen() {
    assert_eq!(upload_source(None), Upload::Captured);
    assert_eq!(upload_source(Some(0)), Upload::Skip);
    assert_eq!(upload_source(Some(3)), Upload::Filtered(2));
    assert!(can_share(true, false, false, Upload::Captured));
    assert!(!can_share(true, true, false, Upload::Captured));
    assert!(needs_table(false, 100, 90) && !needs_table(true, 50, 50) && !needs_table(false, 100, 100));
}

#[test]
fn addresses_are_read() {
    let t = connect_target(Some(" 10.0.0.2 "), Some(" 9001 ")).unwrap();
    assert_eq!((t.address.as_str(), t.port), ("10.0.0.2:9001", 9001));
    assert!(connect_target(None, Some("0")).is_none());
    assert!(connect_target(None, Some("70000")).is_none());
    assert_eq!(connect_target(None, None).unwrap().address, "192.168.1.1:9000");
    let mut cfg = Config::default();
    let saved = connected(&mut cfg, " 10.0.0.2 ", 9001);
    assert_eq!((cfg.stream_client_ip, cfg.stream_client_port), ([10, 0, 0, 2], 9001));
    assert_eq!(saved[0].value, "10.0.0.2");
    connected(&mut cfg, "::1", 9002);
    assert_eq!((cfg.stream_client_ip, cfg.stream_client_port), ([10, 0, 0, 2], 9002));
}

#[test]
fn the_command_line_overrides() {
    let mut cfg = Config::default();
    let o = Overrides {
        device: Some("/dev/video3".to_string()),
        width: Some(640),
        height: None,
        fps: Some(30),
        format: Some("mjpg".to_string()),
    };
    assert!(apply_overrides(&mut cfg, o).is_ok());
    assert_eq!((cfg.device.as_str(), cfg.width, cfg.height, cfg.fps), ("/dev/video3", 640, 1080, 30));
    assert_eq!(cfg.pixfmt, V4L2_PIX_FMT_MJPEG);
    let bad = Overrides {
        device: None,
        width: None,
        height: None,
        fps: None,
        format: Some("RGB".to_string()),
    };
    assert_eq!(apply_overrides(&mut cfg, bad), Err("RGB".to_string()));
    assert_eq!(parse_format("P010"), Some(V4L2_PIX_FMT_P010));
    assert!(unless_debugging(false, true, false) && !unless_debugging(true, true, true));
    assert_eq!(effective_format(V4L2_PIX_FMT_MJPEG), PIXFMT_RGB24);
    assert_eq!(frame_bytes(V4L2_PIX_FMT_MJPEG, 5, 9), 5);
    assert_eq!(frame_bytes(V4L2_PIX_FMT_NV12, 5, 9), 9);
    assert_eq!(usable_present_mode(VkPresentMode::Immediate, false), VkPresentMode::Mailbox);
}

#[test]
fn the_first_line() {
    let mut cfg = Config::default();
    assert_eq!(banner(&cfg, None), "capview: /dev/video0 1920x1080@60 NV12 buf=2");
    cfg.win_w = Some(960);
    cfg.win_h = Some(540);
    cfg.vsync = true;
    cfg.audio_device = Some("Cam".to_string());
    assert_eq!(
        banner(&cfg, Some("game")),
        "capview: /dev/video0 1920x1080@60 NV12 buf=2 win=960x540 vsync profile=game audio=Cam"
    );
    assert_eq!(window_size(&cfg, 1, 2), (960, 540));
    cfg.win_h = None;
    assert_eq!(window_size(&cfg, 1, 2), (1, 2));
}

#[test]
fn textures_of_formats() {
    assert_eq!(pixfmt_to_sdl(V4L2_PIX_FMT_NV12), Ok(TextureFormat::Nv12));
    assert_eq!(pixfmt_to_sdl(V4L2_PIX_FMT_P010), Err(FormatError::NeedsShaders));
    assert_eq!(pixfmt_to_sdl(1), Err(FormatError::Unsupported));
    assert_eq!(
        texture_update(V4L2_PIX_FMT_NV12, 4, 2),
        TextureUpdate::Planes { pitch: 4, second: 8 }
    );
    assert_eq!(texture_update(PIXFMT_RGB24, 4, 2), TextureUpdate::Rows { pitch: 12 });
    assert_eq!(texture_update(1, 4, 2), TextureUpdate::Nothing);
}

#[test]
fn starting_points() {
    let mut cfg = Config::default();
    assert_eq!(initial_scale_mode(&cfg), ScaleMode::Nearest);
    cfg.smooth = true;
    assert_eq!(initial_scale_mode(&cfg), ScaleMode::Bilinear);
    cfg.scale_mode = "fsr".to_string();
    assert_eq!(initial_scale_mode(&cfg), ScaleMode::Fsr);
    assert_eq!(initial_framegen_mode("interpolate", false), FrameGenMode::Interpolate);
    assert_eq!(initial_framegen_mode("", true), FrameGenMode::Off);
    assert_eq!(initial_framegen_mode("rife", true), FrameGenMode::Rife);
    assert_eq!(initial_framegen_mode("rife", false), FrameGenMode::Off);
    assert_eq!(framegen_mode_str(FrameGenMode::Rife), "rife");
    assert_eq!(initial_framegen_quality("fast"), FrameGenQuality::Fast);
    assert_eq!(bind_address(Some(":9000"), 1), ":9000");
    assert_eq!(bind_address(Some("yes"), 9001), "0.0.0.0:9001");
    assert_eq!(bind_address(None, 9002), "0.0.0.0:9002");
}

#[test]
fn paths_of_files() {
    assert_eq!(config_path(Some("/x"), Some("/h")), "/x/capview/capview.conf");
    assert_eq!(config_path(None, Some("/h/")), "/h/.config/capview/capview.conf");
    assert_eq!(config_path(None, None), "capview.conf");
    let mut cfg = Config::default();
    assert_eq!(cfg.screenshot_path(Some("/h")), "/h/Pictures");
    assert_eq!(cfg.screenshot_path(None), "~/Pictures");
    cfg.screenshot_dir = "/abs".to_string();
    assert_eq!(cfg.screenshot_path(Some("/h")), "/abs");
    let c = rife_model_candidates(Some("/m"), None, Some("/h"), Some("/bin"));
    assert_eq!(c, ["/m", "/h/.config/capview/rife.onnx", "/bin/rife.onnx", "rife.onnx"]);
    assert_eq!(rife_model_path(&c, &[false, false, true, true], None, Some("/h")), "/bin/rife.onnx");
    assert_eq!(
        rife_model_path(&c, &[false; 4], None, Some("/h")),
        "/h/.config/capview/rife.onnx"
    );
    assert_eq!(rife_model_path(&[], &[], None, None), "rife.onnx");
}
