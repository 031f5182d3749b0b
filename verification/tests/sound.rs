use capview::audio::{
    apply_volume, buffer_bytes, connection, is_xrun, probe_is_corrupt, render, resolve_source,
    AudioPassthrough, Connection, Probe, ProbeStep, Source, MAX_PROBE_RETRIES,
};
use capview::audio_mac;
use capview::config::AudioMode;
use capview::pw_link::{
    default_sink_name, pw_default_sink_ports, pw_find_ports, worth_telling, LinkError, PwLinkState,
};

fn source(name: &str, description: &str) -> Source {
    Source { name: Some(name.to_string()), description: Some(description.to_string()) }
}

#[test]
fn sources_are_found_by_description_or_name() {
    let list = [
        Source { name: None, description: Some("Cam Link 4K".to_string()) },
        source("alsa_input.usb-elgato", "Cam Link 4K"),
        source("alsa_input.pci", "Built-in"),
    ];
    assert_eq!(resolve_source(&list, "cam link"), Some("alsa_input.usb-elgato".to_string()));
    assert_eq!(resolve_source(&list, "PCI"), Some("alsa_input.pci".to_string()));
    assert_eq!(resolve_source(&list, "nothing"), None);
}

#[test]
fn connections_are_told_apart() {
    assert_eq!(connection(4), Connection::Ready);
    assert_eq!(connection(5), Connection::Failed);
    assert_eq!(connection(6), Connection::Failed);
    assert_eq!(connection(1), Connection::Pending);
}

#[test]
fn volume_scales_samples() {
    assert_eq!(buffer_bytes(10), 1920);
    // 1000, -1000, 32767 and an odd byte.
    let mut b = [0xe8, 0x03, 0x18, 0xfc, 0xff, 0x7f, 9];
    apply_volume(&mut b, 50);
    assert_eq!(i16::from_le_bytes([b[0], b[1]]), 500);
    assert_eq!(i16::from_le_bytes([b[2], b[3]]), -500);
    assert_eq!(i16::from_le_bytes([b[4], b[5]]), 16383);
    assert_eq!(b[6], 9);
    apply_volume(&mut b, 400);
    assert_eq!(i16::from_le_bytes([b[4], b[5]]), 32767);
    let mut c = [0x18, 0xfc];
    assert!(render(&mut c, false, 100));
    assert_eq!(c, [0x18, 0xfc]);
    assert!(!render(&mut c, true, 100));
    assert_eq!(c, [0, 0]);
    let mut odd = [0xe8, 0x03, 9];
    assert!(render(&mut odd, false, 50));
    assert_eq!(odd, [0xf4, 0x01, 9]);
    assert!(!render(&mut odd, true, 50));
    assert_eq!(odd, [0, 0, 0]);
}

#[test]
fn late_reads_are_noticed() {
    assert!(!is_xrun(10_000, 5));
    assert!(is_xrun(10_001, 5));
}

#[test]
fn garbage_is_recognised() {
    assert!(!probe_is_corrupt(&[]));
    assert!(!probe_is_corrupt(&[0; 64]));
    let clipped: Vec<u8> = (0..20).flat_map(|_| [0xff, 0x7f]).collect();
    assert!(probe_is_corrupt(&clipped));
    let stuck: Vec<u8> = (0..20).flat_map(|_| [5, 0]).collect();
    assert!(probe_is_corrupt(&stuck));
    let wave: Vec<u8> = (0..20u8).flat_map(|i| [i, 0]).collect();
    assert!(!probe_is_corrupt(&wave));
}

#[test]
fn a_clean_source_is_ready_after_four_reads() {
    let mut p = Probe::new();
    let wave: Vec<u8> = (0..20u8).flat_map(|i| [i, 0]).collect();
    assert_eq!(p.begin(true), ProbeStep::Open);
    assert_eq!(p.opened(true), ProbeStep::Read);
    for _ in 0..3 {
        assert_eq!(p.read(true, &wave), ProbeStep::Read);
    }
    assert_eq!(p.read(true, &wave), ProbeStep::Ready);
}

#[test]
fn a_dirty_source_is_given_up() {
    let mut p = Probe::new();
    let stuck: Vec<u8> = (0..20).flat_map(|_| [5, 0]).collect();
    for _ in 0..MAX_PROBE_RETRIES {
        assert_eq!(p.begin(true), ProbeStep::Open);
        assert_eq!(p.opened(true), ProbeStep::Read);
        // The first buffer is not looked at.
        assert_eq!(p.read(true, &stuck), ProbeStep::Read);
        assert_eq!(p.read(true, &stuck), ProbeStep::CloseAndWait);
    }
    assert_eq!(p.begin(true), ProbeStep::Open);
    assert_eq!(p.opened(true), ProbeStep::Read);
    assert_eq!(p.read(false, &stuck), ProbeStep::CloseAndFail);
    assert_eq!(p.begin(false), ProbeStep::Stop);
    let mut q = Probe::new();
    for _ in 0..MAX_PROBE_RETRIES {
        assert_eq!(q.opened(false), ProbeStep::Wait);
    }
    assert_eq!(q.opened(false), ProbeStep::Fail);
}

fn capture() -> AudioPassthrough {
    AudioPassthrough::start("s".to_string(), "q".to_string(), 150, 5, 10, AudioMode::Capture, None)
        .unwrap()
}

#[test]
fn volume_keeps_its_bounds() {
    let mut a = capture();
    assert_eq!(a.volume(), 100);
    for _ in 0..20 {
        a.volume_up();
    }
    assert_eq!(a.volume(), 150);
    for _ in 0..40 {
        a.volume_down();
    }
    assert_eq!(a.volume(), 0);
    a.set_volume(-7);
    assert_eq!(a.volume(), 0);
    a.set_volume(999);
    assert_eq!(a.volume(), 150);
    assert_eq!(a.source_name(), "s");
    assert_eq!((a.capture_buf_ms(), a.playback_buf_ms(), a.xruns()), (5, 10, 0));
    assert!(a.set_buffers(20, 30));
    assert_eq!((a.capture_buf_ms(), a.playback_buf_ms()), (20, 30));
}

#[test]
fn muting_twice_changes_nothing() {
    let mut a = capture();
    assert!(a.toggle_mute(true));
    assert!(a.is_muted());
    assert!(!a.toggle_mute(true));
    assert!(!a.is_muted());
}

#[test]
fn ways_of_passing_sound_on() {
    let mut a = capture();
    assert!(!a.set_mode(AudioMode::Passthrough, None));
    assert_eq!(a.mode(), AudioMode::Passthrough);
    let link = PwLinkState::start(vec!["o".to_string()], vec!["i".to_string()]).ok();
    let mut b = capture();
    assert!(b.feeds_virtual_mic());
    assert!(b.set_mode(AudioMode::Passthrough, link));
    assert!(!b.feeds_virtual_mic());
    assert_eq!((b.volume(), b.volume_up(), b.capture_buf_ms()), (100, 100, 0));
    assert!(b.set_mode(AudioMode::Capture, None));
    b.stop();
    assert!(AudioPassthrough::start(
        "s".to_string(),
        "q".to_string(),
        100,
        5,
        10,
        AudioMode::Passthrough,
        None
    )
    .is_none());
}

#[test]
fn ports_are_paired() {
    let listing = "  Cam:capture_FL\n\n Cam:capture_FR \nMic:capture_MONO\n";
    assert_eq!(pw_find_ports(listing, "cam"), vec!["Cam:capture_FL", "Cam:capture_FR"]);
    let sinks = "alsa_output.pci:playback_FL\nalsa_output.pci:playback_FR\nHDMI:playback_FL\nHDMI:playback_RL\n";
    assert_eq!(pw_default_sink_ports(sinks, Some("hdmi")), vec!["HDMI:playback_FL"]);
    assert_eq!(
        pw_default_sink_ports(sinks, Some("gone")),
        vec!["alsa_output.pci:playback_FL", "alsa_output.pci:playback_FR"]
    );
    assert_eq!(pw_default_sink_ports(sinks, None).len(), 2);
    assert_eq!(
        default_sink_name("id 5\n  * node.name = \"alsa_output.pci\"\n"),
        Some("alsa_output.pci".to_string())
    );
    assert_eq!(default_sink_name("node.name = none"), None);
    let mut s = PwLinkState::start(
        vec!["a".to_string(), "b".to_string()],
        vec!["c".to_string()],
    )
    .ok()
    .unwrap();
    assert_eq!(s.to_link(), 1);
    s.link(true);
    assert_eq!(s.to_link(), 0);
    assert_eq!(s.unlink(), 1);
    assert_eq!(s.unlink(), 0);
    assert!(matches!(PwLinkState::start(vec![], vec![]), Err(LinkError::NoSourcePorts)));
    assert!(matches!(
        PwLinkState::start(vec!["a".to_string()], vec![]),
        Err(LinkError::NoSinkPorts)
    ));
    assert!(worth_telling("no such port"));
    assert!(!worth_telling("failed: already linked"));
}

#[test]
fn sound_on_macos() {
    let devices = [
        audio_mac::Device { id: 1, has_input: false, name: "Cam Link".to_string() },
        audio_mac::Device { id: 2, has_input: true, name: "Cam Link".to_string() },
    ];
    assert_eq!(audio_mac::resolve_source(&devices, "cam"), Some(1));
    assert_eq!(audio_mac::resolve_source(&devices, "mic"), None);
    assert_eq!(audio_mac::nameless(17), "device_17");
    let mut a = audio_mac::AudioPassthrough::start("x".to_string(), 110);
    assert_eq!(a.volume_up(), 105);
    assert_eq!(a.volume_up(), 110);
    assert_eq!(a.volume_up(), 110);
    assert_eq!(a.volume_down(), 105);
    assert!(a.toggle_mute());
    assert!(!a.running);
    assert!(!a.toggle_mute());
    assert_eq!((a.capture_buf_ms(), a.playback_buf_ms()), (5, 10));
}
