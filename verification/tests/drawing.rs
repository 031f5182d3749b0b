use capview::capture::{V4L2_PIX_FMT_NV12, V4L2_PIX_FMT_YUYV};
use capview::framegen::{plan_motion, plan_synth, FrameGenMode, FrameGenQuality, Generation, Size};
use capview::framegen_vk::{image_plan, mip_chain, Content, ImageRef};
use capview::gl_passes::{samplers, Cover, Program, SharpTarget, Source, Target};
use capview::gl_renderer::{GlRenderer, Placement, ScaleMode, Shader, GL_LINEAR, GL_NEAREST};
use capview::vk_commands::{
    record_compute_mvs, record_generate_mipmaps, record_generation, record_push, record_synthesis,
    Command, Constants, Layout, Pipeline,
};

fn place(width: u32, height: u32, x: i32, y: i32) -> Placement {
    Placement { width, height, x, y }
}

#[test]
fn a_frame_is_drawn_at_once() {
    let r = GlRenderer::new(640, 480, V4L2_PIX_FMT_YUYV, true, true);
    let p = r.render(800, 600, place(800, 600, 0, 0), place(640, 480, 80, 60));
    assert_eq!(p.len(), 1);
    assert_eq!(p[0].target, Target::Window);
    assert_eq!(p[0].source, Source::Frame);
    assert_eq!(p[0].program, Program::Convert(Some(Shader::Packed(false))));
    assert_eq!(p[0].cover, Cover::Shaped { w: 640, h: 480 });
    assert!(p[0].contrast && p[0].adjust && p[0].clear);
}

#[test]
fn a_frame_is_scaled_along_edges() {
    let mut r = GlRenderer::new(640, 480, V4L2_PIX_FMT_NV12, true, true);
    r.set_scale_mode(ScaleMode::Fsr);
    let shaped = place(1280, 960, 10, 20);
    let p = r.render(1300, 1000, shaped, place(640, 480, 0, 0));
    assert_eq!(p.len(), 3);
    assert_eq!((p[0].target, p[0].adjust), (Target::Scale, false));
    assert_eq!((p[1].program, p[1].filter), (Program::Easu, Some(GL_LINEAR)));
    assert_eq!((p[1].source, p[1].target), (Source::Scale, Target::Sharp));
    assert_eq!((p[2].program, p[2].source), (Program::Rcas, Source::Sharp));
    assert_eq!((p[2].viewport, p[2].adjust), (shaped, true));
    assert_eq!((p[0].contrast, p[1].contrast, p[2].contrast), (true, false, false));
    assert_eq!(p[0].program, Program::Convert(Some(Shader::Nv12)));
    r.set_sharpness(0);
    let p = r.render(1300, 1000, shaped, place(640, 480, 0, 0));
    assert_eq!(p[2].program, Program::Passthrough);
}

#[test]
fn a_frame_goes_by_a_whole_factor() {
    let mut r = GlRenderer::new(320, 240, V4L2_PIX_FMT_YUYV, false, true);
    r.set_scale_mode(ScaleMode::IntegerScale);
    let t = r.render_texture(Source::Generated, 320, 240, 1000, 1000);
    assert_eq!(t.cover, Cover::Middle { w: 960, h: 720 });
    assert_eq!((t.source, t.filter), (Source::Generated, Some(GL_NEAREST)));
    let p = r.render(1000, 1000, place(1000, 750, 0, 125), place(960, 720, 20, 140));
    assert_eq!(p.len(), 2);
    assert_eq!((p[0].target, p[0].contrast, p[0].adjust), (Target::Scale, true, false));
    assert_eq!((p[1].source, p[1].target), (Source::Scale, Target::Window));
    assert_eq!(p[1].cover, Cover::Middle { w: 960, h: 720 });
    assert_eq!((p[1].contrast, p[1].adjust), (false, true));
    let s = r.render_sharp(false, place(640, 480, 1, 2));
    assert_eq!((s[0].program, s[0].filter), (Program::Passthrough, Some(GL_NEAREST)));
}

#[test]
fn a_frame_is_sharpened_after_it_is_scaled() {
    let mut r = GlRenderer::new(320, 240, V4L2_PIX_FMT_YUYV, true, false);
    r.set_scale_mode(ScaleMode::Cas);
    let at = place(640, 480, 0, 0);
    let p = r.render(640, 480, at, at);
    assert_eq!(p.len(), 2);
    assert_eq!((p[0].target, p[0].contrast, p[0].adjust), (Target::Scale, true, false));
    assert_eq!((p[1].program, p[1].source), (Program::Cas, Source::Scale));
    assert_eq!((p[1].filter, p[1].cover), (Some(GL_LINEAR), Cover::Shaped { w: 320, h: 240 }));
    for mode in 0..6 {
        r.set_scale_mode(ScaleMode::from_index(mode));
        let p = r.render(640, 480, at, at);
        assert_eq!(p.iter().filter(|q| q.contrast).count(), 1);
        assert_eq!(p.iter().filter(|q| q.adjust).count(), 1);
    }
}

#[test]
fn targets_and_textures() {
    let mut t = SharpTarget { made: false, w: 0, h: 0 };
    assert!(t.ensure(4, 5));
    assert!(!t.ensure(4, 5));
    assert!(t.ensure(4, 6));
    let two = samplers(Program::Convert(Some(Shader::Nv12)));
    assert_eq!((two.len(), two[1].name, two[1].unit), (2, "uTexUV", 1));
    assert_eq!(samplers(Program::Cas)[0].name, "uTex");
}

#[test]
fn a_captured_frame_is_taken_in() {
    let c = record_push(Size { w: 1920, h: 1080 }, Size { w: 640, h: 360 });
    assert_eq!(c.len(), 16);
    assert_eq!(c[0], Command::SwapFrames);
    assert_eq!(
        c[2],
        Command::Blit {
            from: ImageRef::Frame,
            from_level: 0,
            from_size: Size { w: 1920, h: 1080 },
            to: ImageRef::Curr,
            to_level: 0,
            to_size: Size { w: 640, h: 360 },
        }
    );
    assert_eq!(
        c[11],
        Command::Blit {
            from: ImageRef::Curr,
            from_level: 2,
            from_size: Size { w: 160, h: 90 },
            to: ImageRef::Curr,
            to_level: 3,
            to_size: Size { w: 80, h: 45 },
        }
    );
    let mips = record_generate_mipmaps(&mip_chain(640, 360));
    assert_eq!(mips[..], c[3..]);
    match c[15] {
        Command::Move(t) => {
            assert_eq!((t.base, t.old, t.new), (3, Layout::TransferDst, Layout::ShaderRead))
        },
        _ => panic!("the last level is made ready"),
    }
}

#[test]
fn motion_is_searched_from_coarse_to_fine() {
    let m = plan_motion(FrameGenQuality::Fast, Size { w: 640, h: 360 }, false);
    let c = record_compute_mvs(&m);
    // One barrier, five commands on the coarser level, six on the finer one, and
    // eight for the filter.
    assert_eq!(c.len(), 20);
    match c[2] {
        Command::Bind { pipeline, set, images } => {
            assert_eq!((pipeline, set), (Pipeline::Flow, 1));
            assert_eq!((images.c, images.out), (ImageRef::Mv(1), ImageRef::Mv(1)));
        },
        _ => panic!("the coarser level is bound"),
    }
    assert_eq!(c[3], Command::Push(Constants { w: 320, h: 180, x: 4, y: 0, z: 1 }));
    assert_eq!(c[4], Command::Run(Size { w: 20, h: 12 }));
    assert_eq!(c[9], Command::Push(Constants { w: 640, h: 360, x: 2, y: 1, z: 0 }));
    assert_eq!(c[16], Command::Push(Constants { w: 40, h: 23, x: 0, y: 0, z: 0 }));
    assert_eq!(c[17], Command::Run(Size { w: 5, h: 3 }));
    assert_eq!(c[19], Command::SwapMotion);
    let damped = record_compute_mvs(&plan_motion(FrameGenQuality::Fast, Size { w: 640, h: 360 }, true));
    assert_eq!(damped.len(), 20);
    match (c[13], damped[13]) {
        (Command::Move(a), Command::Move(b)) => {
            assert_eq!((a.image, a.old), (ImageRef::MvPrev, Layout::Undefined));
            assert_eq!((b.image, b.old), (ImageRef::MvPrev, Layout::ShaderRead));
        },
        _ => panic!("the motion before is made ready"),
    }
    assert_eq!(
        Constants { w: 1, h: 2, x: 3, y: 4, z: 5 }.words(),
        [1, 2, 3, 4, 5, 0]
    );
}

#[test]
fn a_frame_is_warped() {
    let synth = plan_synth(640, 360, FrameGenMode::Interpolate);
    let half = 0.5f32.to_bits();
    let c = record_synthesis(synth, half, true);
    assert_eq!(c.len(), 5);
    assert_eq!(c[3], Command::Push(Constants { w: 640, h: 360, x: half, y: 1, z: 0 }));
    assert_eq!(c[4], Command::Run(Size { w: 80, h: 45 }));
    assert_eq!(record_synthesis(plan_synth(640, 360, FrameGenMode::Off), half, true).len(), 3);
    let motion = plan_motion(FrameGenQuality::Quality, Size { w: 640, h: 360 }, true);
    let searched = record_compute_mvs(&motion).len();
    let all = record_generation(&Generation { motion: Some(motion), synth }, half);
    assert_eq!(all.len(), searched + 5);
    assert_eq!(all[searched..], c[..]);
    // A later frame of the pair finds the motion as the first has left it.
    let later = record_generation(&Generation { motion: None, synth }, half);
    assert_eq!(later, record_synthesis(synth, half, false));
    assert_eq!(later[1..], c[1..]);
    match (c[0], later[0]) {
        (Command::Move(a), Command::Move(b)) => {
            assert_eq!((a.image, a.old, a.new), (ImageRef::MvPrev, Layout::General, Layout::ShaderRead));
            assert_eq!((b.image, b.old, b.new), (ImageRef::MvPrev, Layout::ShaderRead, Layout::ShaderRead));
        },
        _ => panic!("the motion is made ready"),
    }
}

#[test]
fn images_fit_the_picture() {
    let p = image_plan(640, 360);
    assert_eq!(p.len(), 9);
    assert_eq!((p[0].image, p[0].levels, p[0].size), (ImageRef::Prev, 4, Size { w: 640, h: 360 }));
    assert_eq!((p[2].image, p[2].content), (ImageRef::Out, Content::Picture));
    assert_eq!((p[4].image, p[4].size), (ImageRef::Mv(1), Size { w: 20, h: 12 }));
    assert_eq!((p[6].image, p[6].size), (ImageRef::Mv(3), Size { w: 5, h: 3 }));
    assert_eq!((p[8].image, p[8].size), (ImageRef::MvPrev, Size { w: 40, h: 23 }));
}
