use capview::capture::{
    await_access, avf_format, camera_access, check_caps, dequeue, driver_text, find_device, format_from_avf,
    format_name, frame_index, frame_length, mac_format_name, pack_planar, retry_request, select_device_format, set_format,
    strip_rows, timestamp_us, Access, AccessWait, CaptureFormat, CapsError, Dequeued, DeviceFormat, FindError,
    FrameInterval, PIXFMT_RGB24, V4L2_CAP_STREAMING, V4L2_CAP_VIDEO_CAPTURE, V4L2_PIX_FMT_NV12,
    V4L2_PIX_FMT_UYVY, V4L2_PIX_FMT_YUYV,
};
use capview::clipboard::{detect_protocol, is_wayland, Proto, Serving, SourceEvent};
use capview::config::AspectMode;
use capview::dmabuf::{create_images, create_one, DmaBufImporter, DRM_FORMAT_R8, EGL_NONE};
use capview::framegen::{
    asks_model, cap_resolution, check_compute_support, fills_gap, plan_synth, pyramid, FrameGen,
    FrameGenMode, FrameGenQuality, Size,
};
use capview::framegen_vk::{find_memory_type, mip_chain, VkFrameGen};
use capview::gl_renderer::{
    build_fsr_easu_frag, integer_placement, osd_text, saved_object, shader_for, texture_plan,
    upload_plan, whole_size, FinalPass, GlRenderer, ScaleMode, Shader,
};
use capview::rife::{nchw_to_rgba, pad_side, rgba_to_nchw, RifeInterpolator};

#[test]
fn capabilities_are_checked() {
    assert!(check_caps(V4L2_CAP_VIDEO_CAPTURE | V4L2_CAP_STREAMING).is_ok());
    assert!(matches!(check_caps(V4L2_CAP_STREAMING), Err(CapsError::NotCapture)));
    assert!(matches!(check_caps(V4L2_CAP_VIDEO_CAPTURE), Err(CapsError::NoStreaming)));
    assert!(retry_request(-1, true) && !retry_request(-1, false) && !retry_request(0, true));
    assert_eq!(dequeue(0, false), Dequeued::Frame);
    assert_eq!(dequeue(-1, true), Dequeued::NotReady);
    assert_eq!(dequeue(-1, false), Dequeued::Failed);
    assert_eq!(timestamp_us(2, 5), 2_000_005);
}

#[test]
fn the_driver_has_the_last_word() {
    let wanted = CaptureFormat { width: 1, height: 2, fps: 60, pixfmt: V4L2_PIX_FMT_NV12 };
    let got = set_format(
        wanted,
        640,
        480,
        V4L2_PIX_FMT_YUYV,
        Some(FrameInterval { numerator: 1, denominator: 30 }),
    );
    assert_eq!((got.width, got.height, got.fps, got.pixfmt), (640, 480, 30, V4L2_PIX_FMT_YUYV));
    let kept = set_format(wanted, 640, 480, V4L2_PIX_FMT_YUYV, None);
    assert_eq!(kept.fps, 60);
}

#[test]
fn names_of_formats_and_drivers() {
    assert_eq!(format_name(V4L2_PIX_FMT_NV12), "NV12");
    assert_eq!(format_name(V4L2_PIX_FMT_YUYV), "YUYV");
    assert_eq!(driver_text(b"uvc\0junk"), "uvc");
    assert_eq!(driver_text(b"endless"), "unknown");
    assert_eq!(format_from_avf(avf_format(V4L2_PIX_FMT_UYVY)), V4L2_PIX_FMT_UYVY);
    assert_eq!(camera_access(0), Access::Ask);
    assert_eq!(camera_access(2), Access::Denied);
    assert_eq!(camera_access(3), Access::Go);
    assert_eq!(await_access(0, 1), AccessWait::Wait);
    assert_eq!(await_access(0, 299), AccessWait::Wait);
    assert_eq!(await_access(0, 300), AccessWait::Go);
    assert_eq!(await_access(1, 5), AccessWait::Denied);
    assert_eq!(await_access(2, 300), AccessWait::Denied);
    assert_eq!(await_access(3, 5), AccessWait::Go);
    assert_eq!(frame_index(5), frame_index(5));
}

fn names(list: &[&str]) -> Vec<Vec<char>> {
    list.iter().map(|s| s.chars().collect()).collect()
}

#[test]
fn devices_are_found_by_number_or_name() {
    let n = names(&["Webcam", "Cam Link", "Built-in"]);
    // In the order of their names: Built-in, Cam Link, Webcam.
    assert!(matches!(find_device(&n, "0"), Ok(2)));
    assert!(matches!(find_device(&n, "2"), Ok(0)));
    assert!(matches!(find_device(&n, "cam link"), Ok(1)));
    assert!(matches!(find_device(&n, "3"), Err(FindError::OutOfRange)));
    assert!(matches!(find_device(&n, "xyz"), Err(FindError::NotFound)));
    assert!(matches!(find_device(&[], "0"), Err(FindError::NoDevices)));
}

#[test]
fn the_exact_size_is_taken() {
    let f = |w, h| DeviceFormat { width: w, height: h, subtype: 0, max_fps: 60, fast_enough: true };
    let list = [f(640, 480), f(1920, 1080), f(3840, 2160)];
    assert_eq!(select_device_format(&list, 1920, 1080, V4L2_PIX_FMT_NV12), Some(1));
    assert_eq!(select_device_format(&[], 1920, 1080, V4L2_PIX_FMT_NV12), None);
}

#[test]
fn frames_have_their_lengths_and_names() {
    assert_eq!(frame_length(true, 640, 480), 460800);
    assert_eq!(frame_length(false, 640, 480), 614400);
    assert_eq!(mac_format_name(V4L2_PIX_FMT_UYVY), "UYVY");
    assert_eq!(mac_format_name(0xab), "0x000000ab");
}

#[test]
fn rows_are_packed() {
    assert_eq!(strip_rows(&[1, 2, 0, 3, 4, 0], 3, 2, 2), vec![1, 2, 3, 4]);
    let y = [1, 2, 9, 3, 4, 9];
    let uv = [5, 6, 9];
    assert_eq!(pack_planar(&y, 3, &uv, 3, 2, 2), vec![1, 2, 3, 4, 5, 6]);
}

#[test]
fn pictures_are_served() {
    let ext = "ext_data_control_manager_v1".to_string();
    let wlr = "zwlr_data_control_manager_v1".to_string();
    assert_eq!(detect_protocol(&[wlr.clone(), ext]), Some(Proto::Ext));
    assert_eq!(detect_protocol(&[wlr]), Some(Proto::Wlr));
    assert_eq!(detect_protocol(&["wl_seat".to_string()]), None);
    let mut s = Serving::new();
    assert!(s.handle(SourceEvent::Send));
    assert!(!s.handle(SourceEvent::Other));
    assert!(s.goes_on(true) && !s.goes_on(false));
    assert!(!s.handle(SourceEvent::Cancelled));
    assert!(!s.goes_on(true));
    assert_eq!(s.send_count, 1);
    assert!(is_wayland(true, false) && is_wayland(false, true) && !is_wayland(false, false));
}

#[test]
fn buffers_are_shared() {
    let p = create_images(640, 480, V4L2_PIX_FMT_NV12).unwrap();
    assert_eq!(p.len(), 2);
    assert_eq!((p[0].fourcc, p[0].pitch, p[0].offset), (DRM_FORMAT_R8, 640, 0));
    assert_eq!((p[1].width, p[1].height, p[1].offset), (320, 240, 307200));
    assert_eq!(create_images(640, 480, V4L2_PIX_FMT_YUYV).unwrap()[0].pitch, 1280);
    assert!(create_images(640, 480, PIXFMT_RGB24).is_none());
    let wide = create_images(65536, 65535, V4L2_PIX_FMT_NV12).unwrap();
    assert_eq!(create_one(&wide[1], 7)[9], -65536);
    assert!(create_images(u32::MAX, u32::MAX, PIXFMT_RGB24).is_none());
    let a = create_one(&p[1], 7);
    assert_eq!((a[0], a[1], a[6], a[7], a[12]), (0x3057, 320, 0x3272, 7, EGL_NONE));
    let mut d = DmaBufImporter::new(2, 2);
    assert!(d.bind(1));
    assert!(!d.bind(1));
    assert!(d.bind(0));
    assert_eq!(d.planes_per_buffer(), 2);
    assert_eq!(DmaBufImporter::new(0, 2).planes_per_buffer(), 0);
}

#[test]
fn frames_are_generated_from_pairs() {
    let mut g = FrameGen::new(1920, 1080);
    let size = Size { w: 1280, h: 720 };
    g.set_mode(FrameGenMode::Interpolate);
    g.set_quality(FrameGenQuality::Fast);
    assert!(g.push_frame(size, size).recreate);
    assert!(!g.can_generate());
    assert!(g.generate().is_none());
    assert!(!g.push_frame(size, size).recreate);
    assert!(g.can_generate());
    let first = g.generate().unwrap();
    let m = first.motion.unwrap();
    assert_eq!(m.flow.len(), 2);
    assert_eq!(first.synth.unwrap().mode, 1);
    let second = g.generate().unwrap();
    assert!(second.motion.is_none());
    g.generated_in(1500);
    assert_eq!((g.stats().synth_count, g.stats().miss_count, g.stats().last_gen_us), (2, 1, 1500));
    assert_eq!(g.dimensions(), (1280, 720));
}

#[test]
fn levels_are_halved() {
    let p = pyramid(1920, 1080);
    assert_eq!((p[0].w, p[0].h), (1920, 1080));
    assert_eq!((p[1].w, p[1].h), (960, 540));
    assert_eq!(FrameGenQuality::Quality.levels(), 4);
    assert_eq!(FrameGenMode::count(false), 3);
    assert_eq!(FrameGenMode::Interpolate.next(false), FrameGenMode::Off);
    assert!(plan_synth(64, 64, FrameGenMode::Off).is_none());
    let big = Size { w: 3840, h: 2160 };
    let cap = Size { w: 1920, h: 1080 };
    assert_eq!(cap_resolution(big, cap, cap), cap);
    assert_eq!(cap_resolution(cap, big, big), cap);
    let odd = Size { w: 1919, h: 1 };
    assert_eq!(cap_resolution(big, cap, odd), Size { w: 1918, h: 2 });
}

#[test]
fn a_model_is_one_more_mode() {
    assert_eq!(FrameGenMode::count(true), 4);
    assert_eq!(FrameGenMode::Interpolate.next(true), FrameGenMode::Rife);
    assert_eq!(FrameGenMode::Rife.next(true), FrameGenMode::Off);
    assert_eq!(FrameGenMode::from_index(3, true), FrameGenMode::Rife);
    assert_eq!(FrameGenMode::from_index(3, false), FrameGenMode::Off);
    assert_eq!((FrameGenMode::Rife.index(), FrameGenMode::Rife.label()), (3, "RIFE"));
    assert!(plan_synth(64, 64, FrameGenMode::Rife).is_none());
    assert!(fills_gap(FrameGenMode::Rife, true, false));
    assert!(!fills_gap(FrameGenMode::Rife, false, true));
    assert!(fills_gap(FrameGenMode::Extrapolate, false, true));
    assert!(!fills_gap(FrameGenMode::Off, true, true));
    assert!(asks_model(FrameGenMode::Rife, true, true));
    assert!(!asks_model(FrameGenMode::Rife, true, false));
    assert!(!asks_model(FrameGenMode::Interpolate, true, true));
}

#[test]
fn only_warped_frames_count() {
    let mut g = FrameGen::new(64, 64);
    let size = Size { w: 64, h: 64 };
    g.set_mode(FrameGenMode::Rife);
    g.push_frame(size, size);
    g.push_frame(size, size);
    assert!(g.generate().unwrap().synth.is_none());
    assert_eq!(g.stats().synth_count, 0);
    g.set_mode(FrameGenMode::Extrapolate);
    assert!(g.generate().unwrap().synth.is_some());
    assert_eq!(g.stats().synth_count, 1);
}

#[test]
fn compute_shaders_need_a_version() {
    assert!(check_compute_support("4.6.0 NVIDIA 550.54"));
    assert!(check_compute_support("4.3"));
    assert!(!check_compute_support("4.2"));
    assert!(!check_compute_support("3.3 Mesa"));
}

#[test]
fn vulkan_generates_too() {
    let mut v = VkFrameGen::new(640, 480);
    assert!(!v.can_generate());
    v.record_push_frame();
    assert!(v.record_generate(FrameGenMode::Extrapolate, FrameGenQuality::Balanced).is_none());
    v.record_push_frame();
    assert!(v.record_generate(FrameGenMode::Extrapolate, FrameGenQuality::Balanced).is_some());
    assert_eq!(v.dimensions(), (640, 480));
    assert_eq!((v.stats().synth_count, v.stats().miss_count), (1, 1));
    let off = v.record_generate(FrameGenMode::Off, FrameGenQuality::Balanced).unwrap();
    assert!(off.synth.is_none());
    assert_eq!((v.stats().synth_count, v.stats().miss_count), (1, 1));
    assert_eq!(mip_chain(8, 4)[0].dst, Size { w: 4, h: 2 });
    assert_eq!(find_memory_type(0b110, &[1, 1, 3], 2), Some(2));
    assert_eq!(find_memory_type(0b001, &[1, 1, 3], 2), None);
}

#[test]
fn scaling_modes_have_places_and_names() {
    for i in 0..6 {
        assert_eq!(ScaleMode::from_index(i).index(), i);
        let m = ScaleMode::from_index(i);
        assert_eq!(ScaleMode::from_config(m.config_name()), Some(m));
    }
    assert_eq!(ScaleMode::from_index(9), ScaleMode::Bilinear);
    assert_eq!(ScaleMode::from_config("lanczos"), Some(ScaleMode::Bilinear));
    assert_eq!(ScaleMode::from_config("none"), None);
    assert!(ScaleMode::Cas.has_sharpness() && !ScaleMode::Nearest.requires_shader());
}

#[test]
fn the_renderer_follows_its_mode() {
    let mut r = GlRenderer::new(640, 480, V4L2_PIX_FMT_NV12, false, true);
    r.set_scale_mode(ScaleMode::Fsr);
    assert_eq!(r.final_pass(), FinalPass::Fsr);
    r.set_scale_mode(ScaleMode::Cas);
    assert_eq!(r.final_pass(), FinalPass::Texture);
    r.set_scale_mode(ScaleMode::Nearest);
    assert_eq!(r.final_pass(), FinalPass::Direct);
    r.set_scale_mode(ScaleMode::Fsr);
    r.set_sharpness(99);
    assert_eq!(r.sharpness_level(), 10);
    assert!(!r.bind_dmabuf());
    r.init_dmabuf();
    assert!(r.has_dmabuf() && r.bind_dmabuf());
    assert!(r.begin_upload().realloc);
    assert_eq!(shader_for(V4L2_PIX_FMT_UYVY), Some(Shader::Packed(true)));
    assert_eq!(shader_for(3), None);
    assert_eq!(texture_plan(V4L2_PIX_FMT_NV12, 640, 480).len(), 2);
    let u = upload_plan(V4L2_PIX_FMT_NV12, 640, 480, 460800);
    assert_eq!((u[0].from, u[0].to, u[1].from), (0, 307200, 307200));
    assert_eq!(saved_object(0), None);
    assert_eq!(saved_object(5), Some(5));
}

#[test]
fn whole_factors_place_the_picture() {
    assert_eq!(whole_size(320, 240, 1000, 1000), (960, 720));
    assert_eq!(whole_size(320, 240, 100, 100), (320, 240));
    let p = integer_placement(320, 240, 1000, 750, 1000, 1000, AspectMode::Preserve);
    assert_eq!((p.width, p.height), (960, 720));
    assert_eq!((p.x, p.y), (20, 140));
}

#[test]
fn texts_are_laid_out() {
    let g = osd_text("aé b", 10, 8, 32, 126);
    assert_eq!(g.len(), 3);
    assert_eq!((g[0].index, g[0].x), (65, 10));
    assert_eq!((g[2].index, g[2].x), (66, 34));
    let s = build_fsr_easu_frag("#version 130\n", "AAA", "BBB");
    assert!(s.starts_with("#version 130\n"));
    assert!(s.find("AAA").unwrap() < s.find("BBB").unwrap());
}

#[test]
fn models_get_their_layout() {
    assert_eq!((pad_side(1), pad_side(32), pad_side(33)), (32, 32, 64));
    let rgba = [1, 2, 3, 255, 4, 5, 6, 255];
    let planes = rgba_to_nchw(&rgba, 2, 1, 3, 2);
    assert_eq!(planes, vec![1, 4, 4, 1, 4, 4, 2, 5, 5, 2, 5, 5, 3, 6, 6, 3, 6, 6]);
    assert_eq!(nchw_to_rgba(&planes, 2, 1, 3, 2).unwrap(), rgba.to_vec());
    assert!(nchw_to_rgba(&planes[1..], 2, 1, 3, 2).is_none());
    assert!(RifeInterpolator::new(&[], None, 2, 1).is_none());
    let one = RifeInterpolator::new(&["frames".to_string()], Some(3), 2, 1).unwrap();
    assert!(one.concat_input && !one.has_timestep);
    assert_eq!(one.inputs(&rgba, &rgba)[0].len(), 2 * 3 * 32 * 32);
    let two = RifeInterpolator::new(
        &["img0".to_string(), "img1".to_string(), "TimeStep".to_string()],
        Some(3),
        2,
        1,
    )
    .unwrap();
    assert!(!two.concat_input && two.has_timestep);
    assert_eq!(two.inputs(&rgba, &rgba).len(), 2);
    let none = RifeInterpolator::new(&["frames".to_string()], None, 0, 4).unwrap();
    assert!(none.inputs(&[], &[])[0].is_empty());
    assert_eq!(two.dimensions(), (2, 1));
    let out = two.inputs(&rgba, &rgba).remove(1);
    assert_eq!(two.output(&out).unwrap(), rgba.to_vec());
}
