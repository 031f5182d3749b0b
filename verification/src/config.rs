//! The settings and the rules by which the configuration file sets them.

use vstd::prelude::*;

use crate::capture;
use crate::number;
use crate::text;

verus! {

/// The most capture buffers that can be asked for.
pub const MAX_BUFFERS: u32 = 8;

/// The platforms that the defaults differ on.
#[derive(Clone, Copy, Debug, PartialEq, Eq, Structural)]
pub enum Platform {
    Linux,
    MacOs,
}

/// How audio reaches the speakers.
#[derive(Clone, Copy, Debug, PartialEq, Eq, Structural)]
pub enum AudioMode {
    /// Read from the source and written to the sink by this program.
    Capture,
    /// Linked from source to sink by the sound server.
    Passthrough,
}

/// What happens where the window's shape differs from the picture's.
#[derive(Clone, Copy, Debug, PartialEq, Eq, Structural)]
pub enum AspectMode {
    /// Bars on two sides.
    Preserve,
    /// The picture is distorted to fill the window.
    Stretch,
    /// The picture fills the window and is cropped.
    Zoom,
}

/// The rendering backends.
#[derive(Clone, Copy, Debug, PartialEq, Eq, Structural)]
pub enum RendererBackend {
    Sdl,
    OpenGl,
    Vulkan,
}

/// The Vulkan present modes.
#[derive(Clone, Copy, Debug, PartialEq, Eq, Structural)]
pub enum VkPresentMode {
    Mailbox,
    Immediate,
    Fifo,
}

/// Resolution of recordings.
#[derive(Clone, Copy, Debug, PartialEq, Eq, Structural)]
pub enum RecordResolution {
    Native,
    Window,
}

/// File format of screenshots.
#[derive(Clone, Copy, Debug, PartialEq, Eq, Structural)]
pub enum ScreenshotFormat {
    Png,
    Jpeg,
}

impl VkPresentMode {
    /// The name that the menu shows.
    pub fn label(self) -> (r: &'static str)
        ensures
            r@ == (match self {
                VkPresentMode::Mailbox => "Mailbox"@,
                VkPresentMode::Immediate => "Immediate"@,
                VkPresentMode::Fifo => "VSync (FIFO)"@,
            }),
    {
        match self {
            VkPresentMode::Mailbox => "Mailbox",
            VkPresentMode::Immediate => "Immediate",
            VkPresentMode::Fifo => "VSync (FIFO)",
        }
    }
}

/// Which scheduling and latency measures to apply at startup, one bit each.
#[derive(Clone, Copy, Debug, PartialEq, Eq, Structural)]
pub struct PriorityFlags(pub u32);

/// The bits that one name of the `priority` list stands for; none for a name
/// that is not known.
pub open spec fn flag_bits(name: Seq<char>) -> u32 {
    if name == "timer_slack"@ {
        1
    } else if name == "realtime"@ || name == "rt"@ {
        2
    } else if name == "cpu_pin"@ || name == "affinity"@ {
        4
    } else if name == "mlock"@ {
        8
    } else if name == "idle_inhibit"@ || name == "idle"@ {
        16
    } else if name == "no_compositor"@ || name == "no_comp"@ {
        32
    } else if name == "io_prio"@ || name == "ioprio"@ {
        64
    } else if name == "sig_mask"@ || name == "signals"@ {
        128
    } else {
        0
    }
}

/// The bits that a list of names stands for together.
pub open spec fn list_bits(names: Seq<Seq<char>>) -> u32
    decreases names.len(),
{
    if names.len() == 0 {
        0
    } else {
        list_bits(names.drop_last()) | flag_bits(text::trimmed(names.last()))
    }
}

/// What a value of the `priority` key stands for, in lower case and without
/// white space at its ends.
pub open spec fn priority_bits(s: Seq<char>) -> u32 {
    if s == "all"@ || s == "true"@ || s == "1"@ || s == "yes"@ {
        0xff
    } else if s == "none"@ || s == "false"@ || s == "0"@ || s == "no"@ || s == "off"@ {
        0
    } else {
        list_bits(text::pieces(s, ','))
    }
}

pub(crate) fn flag_of(name: &[char]) -> (r: u32)
    ensures
        r == flag_bits(name@),
{
    if text::spells(name, "timer_slack") {
        1
    } else if text::spells(name, "realtime") || text::spells(name, "rt") {
        2
    } else if text::spells(name, "cpu_pin") || text::spells(name, "affinity") {
        4
    } else if text::spells(name, "mlock") {
        8
    } else if text::spells(name, "idle_inhibit") || text::spells(name, "idle") {
        16
    } else if text::spells(name, "no_compositor") || text::spells(name, "no_comp") {
        32
    } else if text::spells(name, "io_prio") || text::spells(name, "ioprio") {
        64
    } else if text::spells(name, "sig_mask") || text::spells(name, "signals") {
        128
    } else {
        0
    }
}

impl PriorityFlags {
    /// Finest kernel timer slack.
    pub fn timer_slack() -> (r: PriorityFlags)
        ensures
            r == PriorityFlags(1),
    {
        PriorityFlags(1)
    }

    /// Real-time scheduling.
    pub fn realtime() -> (r: PriorityFlags)
        ensures
            r == PriorityFlags(2),
    {
        PriorityFlags(2)
    }

    /// The render thread pinned to one core.
    pub fn cpu_pin() -> (r: PriorityFlags)
        ensures
            r == PriorityFlags(4),
    {
        PriorityFlags(4)
    }

    /// All pages locked into memory.
    pub fn mlock() -> (r: PriorityFlags)
        ensures
            r == PriorityFlags(8),
    {
        PriorityFlags(8)
    }

    /// No screen saver.
    pub fn idle_inhibit() -> (r: PriorityFlags)
        ensures
            r == PriorityFlags(16),
    {
        PriorityFlags(16)
    }

    /// Compositing suspended.
    pub fn no_compositor() -> (r: PriorityFlags)
        ensures
            r == PriorityFlags(32),
    {
        PriorityFlags(32)
    }

    /// Highest best-effort I/O priority.
    pub fn io_prio() -> (r: PriorityFlags)
        ensures
            r == PriorityFlags(64),
    {
        PriorityFlags(64)
    }

    /// Signals blocked on the render thread.
    pub fn sig_mask() -> (r: PriorityFlags)
        ensures
            r == PriorityFlags(128),
    {
        PriorityFlags(128)
    }

    /// Every measure.
    pub fn all() -> (r: PriorityFlags)
        ensures
            r == PriorityFlags(0xff),
    {
        PriorityFlags(0xff)
    }

    /// No measure.
    pub fn none() -> (r: PriorityFlags)
        ensures
            r == PriorityFlags(0),
    {
        PriorityFlags(0)
    }

    /// Whether any bit of `flag` is set.
    pub fn has(self, flag: PriorityFlags) -> (r: bool)
        ensures
            r == (self.0 & flag.0 != 0),
    {
        self.0 & flag.0 != 0
    }

    /// Reads a value of the `priority` key that is in lower case and has no
    /// white space at its ends.
    pub fn parse_lowered(s: &[char]) -> (r: PriorityFlags)
        ensures
            r == PriorityFlags(priority_bits(s@)),
    {
        if text::spells(s, "all") || text::spells(s, "true") || text::spells(s, "1")
            || text::spells(s, "yes") {
            return PriorityFlags(0xff);
        }
        if text::spells(s, "none") || text::spells(s, "false") || text::spells(s, "0")
            || text::spells(s, "no") || text::spells(s, "off") {
            return PriorityFlags(0);
        }
        let names = text::split(s, ',');
        let ghost all = text::texts(names@);
        let mut bits: u32 = 0;
        let mut i: usize = 0;
        assert(all.take(0) =~= Seq::<Seq<char>>::empty());
        while i < names.len()
            invariant
                i <= names@.len(),
                all == text::texts(names@),
                bits == list_bits(all.take(i as int)),
            decreases names@.len() - i,
        {
            bits = bits | flag_of(text::trim(names[i].as_slice()));
            i += 1;
            assert(all.take(i as int).drop_last() =~= all.take(i as int - 1));
        }
        assert(all.take(i as int) =~= all);
        PriorityFlags(bits)
    }

    /// Reads a value of the `priority` key: `all`, `none` or one of their
    /// other names, or a list of names separated by commas, in which a name
    /// that is not known counts for nothing.
    pub fn parse(s: &str) -> (r: PriorityFlags)
        ensures
            r == PriorityFlags(priority_bits(text::lower(text::trimmed(s@)))),
    {
        let c = text::chars_of(s);
        let low = text::to_lower(text::trim(c.as_slice()));
        PriorityFlags::parse_lowered(low.as_slice())
    }
}

/// The texts that a list of strings holds.
pub open spec fn strings(v: Seq<String>) -> Seq<Seq<char>> {
    v.map_values(|s: String| s@)
}

/// The settings.
pub struct Config {
    /// Capture device: a path, or a device index or name.
    pub device: String,
    /// Capture width in pixels.
    pub width: u32,
    /// Capture height in pixels.
    pub height: u32,
    /// Capture rate in frames per second.
    pub fps: u32,
    /// Number of capture buffers.
    pub buffers: u32,
    /// Pixel format, as a four-character code.
    pub pixfmt: u32,
    /// Where screenshots go; `~/` stands for the home directory.
    pub screenshot_dir: String,
    /// Window width, if one was chosen.
    pub win_w: Option<u32>,
    /// Window height, if one was chosen.
    pub win_h: Option<u32>,
    /// Wait for the display's vertical sync.
    pub vsync: bool,
    /// Filter the picture when it is scaled.
    pub smooth: bool,
    /// Start in full screen.
    pub fullscreen: bool,
    /// Print nothing but errors.
    pub quiet: bool,
    /// Leave the terminal once started.
    pub daemonize: bool,
    /// Which audio source to use, by part of its description.
    pub audio_device: Option<String>,
    /// Highest volume that can be set, in percent.
    pub max_volume: u32,
    /// Resolution of recordings.
    pub record_resolution: RecordResolution,
    /// File format of screenshots.
    pub screenshot_format: ScreenshotFormat,
    /// Quality of JPEG screenshots.
    pub jpeg_quality: u32,
    /// Rendering backend.
    pub renderer: RendererBackend,
    /// Plugins to load, in order.
    pub plugins: Vec<String>,
    /// Port that the stream server listens on.
    pub stream_port: u16,
    /// JPEG quality of the stream.
    pub stream_quality: u32,
    /// Server that the stream client connects to.
    pub stream_client_ip: [u8; 4],
    /// Port that the stream client connects to.
    pub stream_client_port: u16,
    /// Columns of an analysis strip.
    pub strip_cols: u32,
    /// Rows of an analysis strip.
    pub strip_rows: u32,
    /// Display rate for frame generation; 0 is twice the capture rate.
    pub target_fps: u32,
    /// Frame generation mode.
    pub framegen_mode: String,
    /// Frame generation quality.
    pub framegen_quality: String,
    /// Scaling algorithm of the OpenGL renderer.
    pub scale_mode: String,
    /// Sharpness of the scaling shaders, 0 to 10.
    pub sharpness: u32,
    /// Vulkan present mode.
    pub vk_present_mode: VkPresentMode,
    /// What happens where the window's shape differs from the picture's.
    pub aspect_mode: AspectMode,
    /// Audio capture buffer in milliseconds.
    pub audio_capture_buf: u32,
    /// Audio playback buffer in milliseconds.
    pub audio_playback_buf: u32,
    /// How audio reaches the speakers.
    pub audio_mode: AudioMode,
    /// Brightness in percent, from 0 to 200.
    pub brightness: u32,
    /// Contrast in percent, from 0 to 200.
    pub contrast: u32,
    /// Gamma in percent.
    pub gamma: u32,
    /// Frame rate display: `off`, `simple` or `verbose`.
    pub fps_display: String,
    /// Pause while the window is minimized.
    pub pause_on_minimize: bool,
    /// Pause while the window is in the background.
    pub pause_on_background: bool,
    /// Opacity of the on-screen display in percent.
    pub osd_opacity: u32,
    /// Scheduling and latency measures to apply.
    pub priority: PriorityFlags,
    /// Offer the frames as a virtual webcam.
    pub virtual_webcam: bool,
    /// Device of the virtual webcam.
    pub virtual_webcam_device: String,
    /// Offer the sound as a virtual microphone.
    pub virtual_mic: bool,
    /// Sink of the virtual microphone.
    pub virtual_mic_sink: String,
}

/// A switch as a number: 1 where it is on, 0 where it is off.
pub open spec fn bit(b: bool) -> nat {
    if b {
        1
    } else {
        0
    }
}

/// What a `Config` holds, with its texts as character
/// sequences and its switches as numbers.
pub struct ConfigView {
    pub device: Seq<char>,
    pub width: u32,
    pub height: u32,
    pub fps: u32,
    pub buffers: u32,
    pub pixfmt: u32,
    pub screenshot_dir: Seq<char>,
    pub win_w: Option<u32>,
    pub win_h: Option<u32>,
    pub vsync: nat,
    pub smooth: nat,
    pub fullscreen: nat,
    pub quiet: nat,
    pub daemonize: nat,
    pub audio_device: Option<Seq<char>>,
    pub max_volume: u32,
    pub record_resolution: RecordResolution,
    pub screenshot_format: ScreenshotFormat,
    pub jpeg_quality: u32,
    pub renderer: RendererBackend,
    pub plugins: Seq<Seq<char>>,
    pub stream_port: u16,
    pub stream_quality: u32,
    pub stream_client_ip: Seq<u8>,
    pub stream_client_port: u16,
    pub strip_cols: u32,
    pub strip_rows: u32,
    pub target_fps: u32,
    pub framegen_mode: Seq<char>,
    pub framegen_quality: Seq<char>,
    pub scale_mode: Seq<char>,
    pub sharpness: u32,
    pub vk_present_mode: VkPresentMode,
    pub aspect_mode: AspectMode,
    pub audio_capture_buf: u32,
    pub audio_playback_buf: u32,
    pub audio_mode: AudioMode,
    pub brightness: u32,
    pub contrast: u32,
    pub gamma: u32,
    pub fps_display: Seq<char>,
    pub pause_on_minimize: nat,
    pub pause_on_background: nat,
    pub osd_opacity: u32,
    pub priority: PriorityFlags,
    pub virtual_webcam: nat,
    pub virtual_webcam_device: Seq<char>,
    pub virtual_mic: nat,
    pub virtual_mic_sink: Seq<char>,
}

impl View for Config {
    type V = ConfigView;

    open spec fn view(&self) -> ConfigView {
        ConfigView {
            device: self.device@,
            width: self.width,
            height: self.height,
            fps: self.fps,
            buffers: self.buffers,
            pixfmt: self.pixfmt,
            screenshot_dir: self.screenshot_dir@,
            win_w: self.win_w,
            win_h: self.win_h,
            vsync: bit(self.vsync),
            smooth: bit(self.smooth),
            fullscreen: bit(self.fullscreen),
            quiet: bit(self.quiet),
            daemonize: bit(self.daemonize),
            audio_device: match self.audio_device {
                Some(s) => Some(s@),
                None => None,
            },
            max_volume: self.max_volume,
            record_resolution: self.record_resolution,
            screenshot_format: self.screenshot_format,
            jpeg_quality: self.jpeg_quality,
            renderer: self.renderer,
            plugins: strings(self.plugins@),
            stream_port: self.stream_port,
            stream_quality: self.stream_quality,
            stream_client_ip: self.stream_client_ip@,
            stream_client_port: self.stream_client_port,
            strip_cols: self.strip_cols,
            strip_rows: self.strip_rows,
            target_fps: self.target_fps,
            framegen_mode: self.framegen_mode@,
            framegen_quality: self.framegen_quality@,
            scale_mode: self.scale_mode@,
            sharpness: self.sharpness,
            vk_present_mode: self.vk_present_mode,
            aspect_mode: self.aspect_mode,
            audio_capture_buf: self.audio_capture_buf,
            audio_playback_buf: self.audio_playback_buf,
            audio_mode: self.audio_mode,
            brightness: self.brightness,
            contrast: self.contrast,
            gamma: self.gamma,
            fps_display: self.fps_display@,
            pause_on_minimize: bit(self.pause_on_minimize),
            pause_on_background: bit(self.pause_on_background),
            osd_opacity: self.osd_opacity,
            priority: self.priority,
            virtual_webcam: bit(self.virtual_webcam),
            virtual_webcam_device: self.virtual_webcam_device@,
            virtual_mic: bit(self.virtual_mic),
            virtual_mic_sink: self.virtual_mic_sink@,
        }
    }
}

/// The settings that hold before any file or flag is read.
pub open spec fn defaults(platform: Platform) -> ConfigView {
    ConfigView {
        device: match platform {
            Platform::Linux => "/dev/video0"@,
            Platform::MacOs => "0"@,
        },
        width: 1920,
        height: 1080,
        fps: 60,
        buffers: 2,
        pixfmt: capture::V4L2_PIX_FMT_NV12,
        screenshot_dir: "~/Pictures"@,
        win_w: None,
        win_h: None,
        vsync: 0,
        smooth: 0,
        fullscreen: 0,
        quiet: 0,
        daemonize: 0,
        audio_device: None,
        max_volume: 100,
        record_resolution: RecordResolution::Native,
        screenshot_format: ScreenshotFormat::Png,
        jpeg_quality: 90,
        renderer: RendererBackend::Sdl,
        plugins: Seq::empty(),
        stream_port: 9000,
        stream_quality: 80,
        stream_client_ip: seq![192u8, 168u8, 1u8, 1u8],
        stream_client_port: 9000,
        strip_cols: 1,
        strip_rows: 6,
        target_fps: 0,
        framegen_mode: Seq::empty(),
        framegen_quality: Seq::empty(),
        scale_mode: Seq::empty(),
        sharpness: 5,
        vk_present_mode: VkPresentMode::Mailbox,
        aspect_mode: AspectMode::Preserve,
        audio_capture_buf: 5,
        audio_playback_buf: 10,
        audio_mode: AudioMode::Capture,
        brightness: 100,
        contrast: 100,
        gamma: 100,
        fps_display: "off"@,
        pause_on_minimize: 1,
        pause_on_background: 0,
        osd_opacity: 63,
        priority: PriorityFlags(0xff),
        virtual_webcam: 0,
        virtual_webcam_device: "/dev/video10"@,
        virtual_mic: 0,
        virtual_mic_sink: "capview_mic"@,
    }
}

impl Config {
    /// The settings that hold before any file or flag is read.
    pub fn defaults(platform: Platform) -> (r: Self)
        ensures
            r@ == defaults(platform),
    {
        let r = Config {
            device: match platform {
                Platform::Linux => "/dev/video0".to_owned(),
                Platform::MacOs => "0".to_owned(),
            },
            width: 1920,
            height: 1080,
            fps: 60,
            buffers: 2,
            pixfmt: capture::V4L2_PIX_FMT_NV12,
            screenshot_dir: "~/Pictures".to_owned(),
            win_w: None,
            win_h: None,
            vsync: false,
            smooth: false,
            fullscreen: false,
            quiet: false,
            daemonize: false,
            audio_device: None,
            max_volume: 100,
            record_resolution: RecordResolution::Native,
            screenshot_format: ScreenshotFormat::Png,
            jpeg_quality: 90,
            renderer: RendererBackend::Sdl,
            plugins: Vec::new(),
            stream_port: 9000,
            stream_quality: 80,
            stream_client_ip: [192, 168, 1, 1],
            stream_client_port: 9000,
            strip_cols: 1,
            strip_rows: 6,
            target_fps: 0,
            framegen_mode: String::new(),
            framegen_quality: String::new(),
            scale_mode: String::new(),
            sharpness: 5,
            vk_present_mode: VkPresentMode::Mailbox,
            aspect_mode: AspectMode::Preserve,
            audio_capture_buf: 5,
            audio_playback_buf: 10,
            audio_mode: AudioMode::Capture,
            brightness: 100,
            contrast: 100,
            gamma: 100,
            fps_display: "off".to_owned(),
            pause_on_minimize: true,
            pause_on_background: false,
            osd_opacity: 63,
            priority: PriorityFlags(0xff),
            virtual_webcam: false,
            virtual_webcam_device: "/dev/video10".to_owned(),
            virtual_mic: false,
            virtual_mic_sink: "capview_mic".to_owned(),
        };
        assert(r@.stream_client_ip =~= defaults(platform).stream_client_ip);
        assert(r@.plugins =~= defaults(platform).plugins);
        r
    }
}

impl Default for Config {
    fn default() -> (r: Self)
        ensures
            r@ == defaults(Platform::Linux),
    {
        Config::defaults(Platform::Linux)
    }
}

impl Config {
    /// The same as the view, unfolded only where a proof asks for it.
    #[verifier::opaque]
    pub open spec fn state(self) -> ConfigView {
        self@
    }

    /// Sets `device` alone.
    pub fn set_device(&mut self, x: String)
        ensures
            final(self).state() == (ConfigView { device: x@, ..old(self).state() }),
    {
        proof {
            reveal(Config::state);
        }
        self.device = x;
    }

    /// Sets `width` alone.
    pub fn set_width(&mut self, x: u32)
        ensures
            final(self).state() == (ConfigView { width: x, ..old(self).state() }),
    {
        proof {
            reveal(Config::state);
        }
        self.width = x;
    }

    /// Sets `height` alone.
    pub fn set_height(&mut self, x: u32)
        ensures
            final(self).state() == (ConfigView { height: x, ..old(self).state() }),
    {
        proof {
            reveal(Config::state);
        }
        self.height = x;
    }

    /// Sets `fps` alone.
    pub fn set_fps(&mut self, x: u32)
        ensures
            final(self).state() == (ConfigView { fps: x, ..old(self).state() }),
    {
        proof {
            reveal(Config::state);
        }
        self.fps = x;
    }

    /// Sets `buffers` alone.
    pub fn set_buffers(&mut self, x: u32)
        ensures
            final(self).state() == (ConfigView { buffers: x, ..old(self).state() }),
    {
        proof {
            reveal(Config::state);
        }
        self.buffers = x;
    }

    /// Sets `pixfmt` alone.
    pub fn set_pixfmt(&mut self, x: u32)
        ensures
            final(self).state() == (ConfigView { pixfmt: x, ..old(self).state() }),
    {
        proof {
            reveal(Config::state);
        }
        self.pixfmt = x;
    }

    /// Sets `screenshot_dir` alone.
    pub fn set_screenshot_dir(&mut self, x: String)
        ensures
            final(self).state() == (ConfigView { screenshot_dir: x@, ..old(self).state() }),
    {
        proof {
            reveal(Config::state);
        }
        self.screenshot_dir = x;
    }

    /// Sets `win_w` alone.
    pub fn set_win_w(&mut self, x: Option<u32>)
        ensures
            final(self).state() == (ConfigView { win_w: x, ..old(self).state() }),
    {
        proof {
            reveal(Config::state);
        }
        self.win_w = x;
    }

    /// Sets `win_h` alone.
    pub fn set_win_h(&mut self, x: Option<u32>)
        ensures
            final(self).state() == (ConfigView { win_h: x, ..old(self).state() }),
    {
        proof {
            reveal(Config::state);
        }
        self.win_h = x;
    }

    /// Sets `vsync` alone.
    pub fn set_vsync(&mut self, x: bool)
        ensures
            final(self).state() == (ConfigView { vsync: bit(x), ..old(self).state() }),
    {
        proof {
            reveal(Config::state);
        }
        self.vsync = x;
    }

    /// Sets `smooth` alone.
    pub fn set_smooth(&mut self, x: bool)
        ensures
            final(self).state() == (ConfigView { smooth: bit(x), ..old(self).state() }),
    {
        proof {
            reveal(Config::state);
        }
        self.smooth = x;
    }

    /// Sets `fullscreen` alone.
    pub fn set_fullscreen(&mut self, x: bool)
        ensures
            final(self).state() == (ConfigView { fullscreen: bit(x), ..old(self).state() }),
    {
        proof {
            reveal(Config::state);
        }
        self.fullscreen = x;
    }

    /// Sets `quiet` alone.
    pub fn set_quiet(&mut self, x: bool)
        ensures
            final(self).state() == (ConfigView { quiet: bit(x), ..old(self).state() }),
    {
        proof {
            reveal(Config::state);
        }
        self.quiet = x;
    }

    /// Sets `daemonize` alone.
    pub fn set_daemonize(&mut self, x: bool)
        ensures
            final(self).state() == (ConfigView { daemonize: bit(x), ..old(self).state() }),
    {
        proof {
            reveal(Config::state);
        }
        self.daemonize = x;
    }

    /// Sets `audio_device` alone.
    pub fn set_audio_device(&mut self, x: Option<String>)
        ensures
            final(self).state() == (ConfigView {
                audio_device: match x {
                    Some(s) => Some(s@),
                    None => None,
                },
                ..old(self).state()
            }),
    {
        proof {
            reveal(Config::state);
        }
        self.audio_device = x;
    }

    /// Sets `max_volume` alone.
    pub fn set_max_volume(&mut self, x: u32)
        ensures
            final(self).state() == (ConfigView { max_volume: x, ..old(self).state() }),
    {
        proof {
            reveal(Config::state);
        }
        self.max_volume = x;
    }

    /// Sets `record_resolution` alone.
    pub fn set_record_resolution(&mut self, x: RecordResolution)
        ensures
            final(self).state() == (ConfigView { record_resolution: x, ..old(self).state() }),
    {
        proof {
            reveal(Config::state);
        }
        self.record_resolution = x;
    }

    /// Sets `screenshot_format` alone.
    pub fn set_screenshot_format(&mut self, x: ScreenshotFormat)
        ensures
            final(self).state() == (ConfigView { screenshot_format: x, ..old(self).state() }),
    {
        proof {
            reveal(Config::state);
        }
        self.screenshot_format = x;
    }

    /// Sets `jpeg_quality` alone.
    pub fn set_jpeg_quality(&mut self, x: u32)
        ensures
            final(self).state() == (ConfigView { jpeg_quality: x, ..old(self).state() }),
    {
        proof {
            reveal(Config::state);
        }
        self.jpeg_quality = x;
    }

    /// Sets `renderer` alone.
    pub fn set_renderer(&mut self, x: RendererBackend)
        ensures
            final(self).state() == (ConfigView { renderer: x, ..old(self).state() }),
    {
        proof {
            reveal(Config::state);
        }
        self.renderer = x;
    }

    /// Sets `stream_port` alone.
    pub fn set_stream_port(&mut self, x: u16)
        ensures
            final(self).state() == (ConfigView { stream_port: x, ..old(self).state() }),
    {
        proof {
            reveal(Config::state);
        }
        self.stream_port = x;
    }

    /// Sets `stream_quality` alone.
    pub fn set_stream_quality(&mut self, x: u32)
        ensures
            final(self).state() == (ConfigView { stream_quality: x, ..old(self).state() }),
    {
        proof {
            reveal(Config::state);
        }
        self.stream_quality = x;
    }

    /// Sets `stream_client_ip` alone.
    pub fn set_stream_client_ip(&mut self, x: [u8; 4])
        ensures
            final(self).state() == (ConfigView { stream_client_ip: x@, ..old(self).state() }),
    {
        proof {
            reveal(Config::state);
        }
        self.stream_client_ip = x;
    }

    /// Sets `stream_client_port` alone.
    pub fn set_stream_client_port(&mut self, x: u16)
        ensures
            final(self).state() == (ConfigView { stream_client_port: x, ..old(self).state() }),
    {
        proof {
            reveal(Config::state);
        }
        self.stream_client_port = x;
    }

    /// Sets `strip_cols` alone.
    pub fn set_strip_cols(&mut self, x: u32)
        ensures
            final(self).state() == (ConfigView { strip_cols: x, ..old(self).state() }),
    {
        proof {
            reveal(Config::state);
        }
        self.strip_cols = x;
    }

    /// Sets `strip_rows` alone.
    pub fn set_strip_rows(&mut self, x: u32)
        ensures
            final(self).state() == (ConfigView { strip_rows: x, ..old(self).state() }),
    {
        proof {
            reveal(Config::state);
        }
        self.strip_rows = x;
    }

    /// Sets `target_fps` alone.
    pub fn set_target_fps(&mut self, x: u32)
        ensures
            final(self).state() == (ConfigView { target_fps: x, ..old(self).state() }),
    {
        proof {
            reveal(Config::state);
        }
        self.target_fps = x;
    }

    /// Sets `framegen_mode` alone.
    pub fn set_framegen_mode(&mut self, x: String)
        ensures
            final(self).state() == (ConfigView { framegen_mode: x@, ..old(self).state() }),
    {
        proof {
            reveal(Config::state);
        }
        self.framegen_mode = x;
    }

    /// Sets `framegen_quality` alone.
    pub fn set_framegen_quality(&mut self, x: String)
        ensures
            final(self).state() == (ConfigView { framegen_quality: x@, ..old(self).state() }),
    {
        proof {
            reveal(Config::state);
        }
        self.framegen_quality = x;
    }

    /// Sets `scale_mode` alone.
    pub fn set_scale_mode(&mut self, x: String)
        ensures
            final(self).state() == (ConfigView { scale_mode: x@, ..old(self).state() }),
    {
        proof {
            reveal(Config::state);
        }
        self.scale_mode = x;
    }

    /// Sets `sharpness` alone.
    pub fn set_sharpness(&mut self, x: u32)
        ensures
            final(self).state() == (ConfigView { sharpness: x, ..old(self).state() }),
    {
        proof {
            reveal(Config::state);
        }
        self.sharpness = x;
    }

    /// Sets `vk_present_mode` alone.
    pub fn set_vk_present_mode(&mut self, x: VkPresentMode)
        ensures
            final(self).state() == (ConfigView { vk_present_mode: x, ..old(self).state() }),
    {
        proof {
            reveal(Config::state);
        }
        self.vk_present_mode = x;
    }

    /// Sets `aspect_mode` alone.
    pub fn set_aspect_mode(&mut self, x: AspectMode)
        ensures
            final(self).state() == (ConfigView { aspect_mode: x, ..old(self).state() }),
    {
        proof {
            reveal(Config::state);
        }
        self.aspect_mode = x;
    }

    /// Sets `audio_capture_buf` alone.
    pub fn set_audio_capture_buf(&mut self, x: u32)
        ensures
            final(self).state() == (ConfigView { audio_capture_buf: x, ..old(self).state() }),
    {
        proof {
            reveal(Config::state);
        }
        self.audio_capture_buf = x;
    }

    /// Sets `audio_playback_buf` alone.
    pub fn set_audio_playback_buf(&mut self, x: u32)
        ensures
            final(self).state() == (ConfigView { audio_playback_buf: x, ..old(self).state() }),
    {
        proof {
            reveal(Config::state);
        }
        self.audio_playback_buf = x;
    }

    /// Sets `audio_mode` alone.
    pub fn set_audio_mode(&mut self, x: AudioMode)
        ensures
            final(self).state() == (ConfigView { audio_mode: x, ..old(self).state() }),
    {
        proof {
            reveal(Config::state);
        }
        self.audio_mode = x;
    }

    /// Sets `brightness` alone.
    pub fn set_brightness(&mut self, x: u32)
        ensures
            final(self).state() == (ConfigView { brightness: x, ..old(self).state() }),
    {
        proof {
            reveal(Config::state);
        }
        self.brightness = x;
    }

    /// Sets `contrast` alone.
    pub fn set_contrast(&mut self, x: u32)
        ensures
            final(self).state() == (ConfigView { contrast: x, ..old(self).state() }),
    {
        proof {
            reveal(Config::state);
        }
        self.contrast = x;
    }

    /// Sets `gamma` alone.
    pub fn set_gamma(&mut self, x: u32)
        ensures
            final(self).state() == (ConfigView { gamma: x, ..old(self).state() }),
    {
        proof {
            reveal(Config::state);
        }
        self.gamma = x;
    }

    /// Sets `fps_display` alone.
    pub fn set_fps_display(&mut self, x: String)
        ensures
            final(self).state() == (ConfigView { fps_display: x@, ..old(self).state() }),
    {
        proof {
            reveal(Config::state);
        }
        self.fps_display = x;
    }

    /// Sets `pause_on_minimize` alone.
    pub fn set_pause_on_minimize(&mut self, x: bool)
        ensures
            final(self).state() == (ConfigView {
                pause_on_minimize: bit(x),
                ..old(self).state()
            }),
    {
        proof {
            reveal(Config::state);
        }
        self.pause_on_minimize = x;
    }

    /// Sets `pause_on_background` alone.
    pub fn set_pause_on_background(&mut self, x: bool)
        ensures
            final(self).state() == (ConfigView {
                pause_on_background: bit(x),
                ..old(self).state()
            }),
    {
        proof {
            reveal(Config::state);
        }
        self.pause_on_background = x;
    }

    /// Sets `osd_opacity` alone.
    pub fn set_osd_opacity(&mut self, x: u32)
        ensures
            final(self).state() == (ConfigView { osd_opacity: x, ..old(self).state() }),
    {
        proof {
            reveal(Config::state);
        }
        self.osd_opacity = x;
    }

    /// Sets `priority` alone.
    pub fn set_priority(&mut self, x: PriorityFlags)
        ensures
            final(self).state() == (ConfigView { priority: x, ..old(self).state() }),
    {
        proof {
            reveal(Config::state);
        }
        self.priority = x;
    }

    /// Sets `virtual_webcam` alone.
    pub fn set_virtual_webcam(&mut self, x: bool)
        ensures
            final(self).state() == (ConfigView {
                virtual_webcam: bit(x),
                ..old(self).state()
            }),
    {
        proof {
            reveal(Config::state);
        }
        self.virtual_webcam = x;
    }

    /// Sets `virtual_webcam_device` alone.
    pub fn set_virtual_webcam_device(&mut self, x: String)
        ensures
            final(self).state() == (ConfigView {
                virtual_webcam_device: x@,
                ..old(self).state()
            }),
    {
        proof {
            reveal(Config::state);
        }
        self.virtual_webcam_device = x;
    }

    /// Sets `virtual_mic` alone.
    pub fn set_virtual_mic(&mut self, x: bool)
        ensures
            final(self).state() == (ConfigView { virtual_mic: bit(x), ..old(self).state() }),
    {
        proof {
            reveal(Config::state);
        }
        self.virtual_mic = x;
    }

    /// Sets `virtual_mic_sink` alone.
    pub fn set_virtual_mic_sink(&mut self, x: String)
        ensures
            final(self).state() == (ConfigView { virtual_mic_sink: x@, ..old(self).state() }),
    {
        proof {
            reveal(Config::state);
        }
        self.virtual_mic_sink = x;
    }

    /// Adds a plugin behind those there are.
    pub fn add_plugin(&mut self, x: String)
        ensures
            final(self).state() == (ConfigView {
                plugins: old(self).state().plugins.push(x@),
                ..old(self).state()
            }),
    {
        proof {
            reveal(Config::state);
        }
        let ghost before = self.plugins@;
        self.plugins.push(x);
        assert(strings(self.plugins@) =~= strings(before).push(x@));
    }
}


/// What can be wrong with the configuration.
#[derive(Debug)]
pub enum ConfigError {
    /// The value of this key is not a number in the key's range.
    Invalid(String),
    /// No section of this name sets anything.
    ProfileNotFound(String),
}

/// Whether a value switches its key on.
pub open spec fn truthy(val: Seq<char>) -> bool {
    val == "true"@ || val == "1"@ || val == "yes"@
}

/// Reads a switch: `true`, `1` and `yes` are on, all else is off.
pub fn parse_bool(val: &str) -> (r: bool)
    ensures
        r == truthy(val@),
{
    text::same(val, "true") || text::same(val, "1") || text::same(val, "yes")
}

/// The pixel format of a name in lower case; NV12 for a name that is not
/// known.
pub open spec fn pixfmt_of(name: Seq<char>) -> u32 {
    if name == "nv12"@ {
        capture::V4L2_PIX_FMT_NV12
    } else if name == "yuyv"@ || name == "yuy2"@ {
        capture::V4L2_PIX_FMT_YUYV
    } else if name == "uyvy"@ {
        capture::V4L2_PIX_FMT_UYVY
    } else if name == "xrgb"@ || name == "rgbx"@ || name == "bgrx"@ {
        capture::V4L2_PIX_FMT_XRGB32
    } else if name == "p010"@ {
        capture::V4L2_PIX_FMT_P010
    } else if name == "mjpeg"@ || name == "mjpg"@ {
        capture::V4L2_PIX_FMT_MJPEG
    } else {
        capture::V4L2_PIX_FMT_NV12
    }
}

/// The pixel format of a name that is in lower case.
pub fn pixfmt_named(name: &[char]) -> (r: u32)
    ensures
        r == pixfmt_of(name@),
{
    if text::spells(name, "nv12") {
        capture::V4L2_PIX_FMT_NV12
    } else if text::spells(name, "yuyv") || text::spells(name, "yuy2") {
        capture::V4L2_PIX_FMT_YUYV
    } else if text::spells(name, "uyvy") {
        capture::V4L2_PIX_FMT_UYVY
    } else if text::spells(name, "xrgb") || text::spells(name, "rgbx") || text::spells(name, "bgrx") {
        capture::V4L2_PIX_FMT_XRGB32
    } else if text::spells(name, "p010") {
        capture::V4L2_PIX_FMT_P010
    } else if text::spells(name, "mjpeg") || text::spells(name, "mjpg") {
        capture::V4L2_PIX_FMT_MJPEG
    } else {
        capture::V4L2_PIX_FMT_NV12
    }
}

/// Reads a pixel format, in any case. It never fails: a name that is not
/// known stands for NV12, on whatever line it is.
pub fn parse_pixfmt(s: &str, lineno: u32) -> (r: Result<u32, ConfigError>)
    ensures
        r == Ok::<u32, ConfigError>(pixfmt_of(text::lower(s@))),
{
    let c = text::chars_of(s);
    let low = text::to_lower(c.as_slice());
    Ok(pixfmt_named(low.as_slice()))
}

/// `n`, or the nearer end of the range where it lies outside.
pub open spec fn clamped(n: u32, low: u32, high: u32) -> u32 {
    if n < low {
        low
    } else if n > high {
        high
    } else {
        n
    }
}

fn clamp(n: u32, low: u32, high: u32) -> (r: u32)
    ensures
        r == clamped(n, low, high),
{
    if n < low {
        low
    } else if n > high {
        high
    } else {
        n
    }
}

/// A window size `WxH`, if the value is one.
pub open spec fn window_size(val: Seq<char>) -> Option<(u32, u32)> {
    match text::cut(val, 'x') {
        Some((w, h)) => match (
            number::number_up_to(text::trimmed(w), u32::MAX as nat),
            number::number_up_to(text::trimmed(h), u32::MAX as nat),
        ) {
            (Some(a), Some(b)) => Some((a as u32, b as u32)),
            _ => None,
        },
        None => None,
    }
}

/// One part of a dotted address.
pub open spec fn octet(s: Seq<char>) -> Option<nat> {
    number::number_up_to(text::trimmed(s), u8::MAX as nat)
}

/// A dotted address of four numbers, if the value is one.
pub open spec fn address(val: Seq<char>) -> Option<Seq<u8>> {
    let p = text::pieces(val, '.');
    if p.len() == 4 && octet(p[0]) is Some && octet(p[1]) is Some && octet(p[2]) is Some && octet(
        p[3],
    ) is Some {
        Some(
            seq![
                octet(p[0])->0 as u8,
                octet(p[1])->0 as u8,
                octet(p[2])->0 as u8,
                octet(p[3])->0 as u8,
            ],
        )
    } else {
        None
    }
}

pub(crate) fn read_window(val: &[char]) -> (r: Option<(u32, u32)>)
    ensures
        r == window_size(val@),
{
    match text::split_once(val, 'x') {
        Some((w, h)) => {
            match (number::parse_u32(text::trim(w)), number::parse_u32(text::trim(h))) {
                (Some(a), Some(b)) => Some((a, b)),
                _ => None,
            }
        },
        None => None,
    }
}

pub(crate) fn read_address(val: &[char]) -> (r: Option<[u8; 4]>)
    ensures
        match r {
            Some(a) => address(val@) == Some(a@),
            None => address(val@) is None,
        },
{
    let p = text::split(val, '.');
    let ghost t = text::texts(p@);
    if p.len() != 4 {
        return None;
    }
    assert(t[0] == p@[0]@ && t[1] == p@[1]@ && t[2] == p@[2]@ && t[3] == p@[3]@);
    let a = number::parse_u8(text::trim(p[0].as_slice()));
    let b = number::parse_u8(text::trim(p[1].as_slice()));
    let c = number::parse_u8(text::trim(p[2].as_slice()));
    let d = number::parse_u8(text::trim(p[3].as_slice()));
    match (a, b, c, d) {
        (Some(a), Some(b), Some(c), Some(d)) => {
            let r = [a, b, c, d];
            assert(r@ =~= address(val@)->0);
            Some(r)
        },
        _ => None,
    }
}

/// What one key of the file comes to.
pub enum Outcome {
    /// The key is not one of those asked about.
    Unknown,
    /// The key wants a number and the value is not one in its range.
    Invalid,
    /// The settings after the key was given the value.
    Done(ConfigView),
}

/// A key that takes a number up to `max`.
pub open spec fn numeric(val: Seq<char>, max: nat, set: spec_fn(u32) -> ConfigView) -> Outcome {
    match number::number_up_to(val, max) {
        Some(n) => Outcome::Done(set(n as u32)),
        None => Outcome::Invalid,
    }
}

/// The keys of the capture and the files.
pub open spec fn capture_key(c: ConfigView, key: Seq<char>, val: Seq<char>) -> Outcome {
    if key == "device"@ {
        Outcome::Done(ConfigView { device: val, ..c })
    } else if key == "width"@ {
        numeric(val, u32::MAX as nat, |n: u32| ConfigView { width: n, ..c })
    } else if key == "height"@ {
        numeric(val, u32::MAX as nat, |n: u32| ConfigView { height: n, ..c })
    } else if key == "fps"@ {
        numeric(val, u32::MAX as nat, |n: u32| ConfigView { fps: n, ..c })
    } else if key == "buffers"@ {
        numeric(
            val,
            u32::MAX as nat,
            |n: u32| ConfigView { buffers: clamped(n, 2, MAX_BUFFERS), ..c },
        )
    } else if key == "format"@ {
        Outcome::Done(ConfigView { pixfmt: pixfmt_of(text::lower(val)), ..c })
    } else if key == "screenshot_dir"@ {
        Outcome::Done(ConfigView { screenshot_dir: val, ..c })
    } else if key == "record_resolution"@ || key == "record_res"@ {
        let low = text::lower(val);
        if low == "native"@ || low == "full"@ {
            Outcome::Done(ConfigView { record_resolution: RecordResolution::Native, ..c })
        } else if low == "window"@ || low == "win"@ {
            Outcome::Done(ConfigView { record_resolution: RecordResolution::Window, ..c })
        } else {
            Outcome::Done(c)
        }
    } else if key == "screenshot_format"@ || key == "screenshot_fmt"@ {
        let low = text::lower(val);
        if low == "png"@ {
            Outcome::Done(ConfigView { screenshot_format: ScreenshotFormat::Png, ..c })
        } else if low == "jpeg"@ || low == "jpg"@ {
            Outcome::Done(ConfigView { screenshot_format: ScreenshotFormat::Jpeg, ..c })
        } else {
            Outcome::Done(c)
        }
    } else if key == "jpeg_quality"@ {
        numeric(
            val,
            u32::MAX as nat,
            |n: u32| ConfigView { jpeg_quality: clamped(n, 1, 100), ..c },
        )
    } else {
        Outcome::Unknown
    }
}

/// The keys of the window.
pub open spec fn window_key(c: ConfigView, key: Seq<char>, val: Seq<char>) -> Outcome {
    if key == "window"@ {
        match window_size(val) {
            Some((w, h)) => Outcome::Done(ConfigView { win_w: Some(w), win_h: Some(h), ..c }),
            None => Outcome::Done(c),
        }
    } else if key == "vsync"@ {
        Outcome::Done(ConfigView { vsync: bit(truthy(val)), ..c })
    } else if key == "smooth"@ {
        Outcome::Done(ConfigView { smooth: bit(truthy(val)), ..c })
    } else if key == "fullscreen"@ {
        Outcome::Done(ConfigView { fullscreen: bit(truthy(val)), ..c })
    } else if key == "quiet"@ {
        Outcome::Done(ConfigView { quiet: bit(truthy(val)), ..c })
    } else if key == "daemonize"@ {
        Outcome::Done(ConfigView { daemonize: bit(truthy(val)), ..c })
    } else if key == "pause_on_minimize"@ {
        Outcome::Done(ConfigView { pause_on_minimize: bit(truthy(val)), ..c })
    } else if key == "pause_on_background"@ {
        Outcome::Done(ConfigView { pause_on_background: bit(truthy(val)), ..c })
    } else {
        Outcome::Unknown
    }
}

/// The keys of the sound.
pub open spec fn audio_key(c: ConfigView, key: Seq<char>, val: Seq<char>) -> Outcome {
    if key == "audio_device"@ {
        let name = text::trimmed(val);
        Outcome::Done(
            ConfigView {
                audio_device: if name.len() == 0 {
                    None
                } else {
                    Some(name)
                },
                ..c
            },
        )
    } else if key == "max_volume"@ {
        numeric(
            val,
            u32::MAX as nat,
            |n: u32| ConfigView { max_volume: clamped(n, 100, u32::MAX), ..c },
        )
    } else if key == "audio_capture_buf"@ {
        numeric(
            val,
            u32::MAX as nat,
            |n: u32| ConfigView { audio_capture_buf: clamped(n, 1, 100), ..c },
        )
    } else if key == "audio_playback_buf"@ {
        numeric(
            val,
            u32::MAX as nat,
            |n: u32| ConfigView { audio_playback_buf: clamped(n, 1, 100), ..c },
        )
    } else if key == "audio_mode"@ {
        Outcome::Done(
            ConfigView {
                audio_mode: if val == "passthrough"@ {
                    AudioMode::Passthrough
                } else {
                    AudioMode::Capture
                },
                ..c
            },
        )
    } else if key == "virtual_mic"@ {
        Outcome::Done(ConfigView { virtual_mic: bit(truthy(val)), ..c })
    } else if key == "virtual_mic_sink"@ {
        Outcome::Done(ConfigView { virtual_mic_sink: text::trimmed(val), ..c })
    } else {
        Outcome::Unknown
    }
}

/// The keys of the renderer.
pub open spec fn renderer_key(c: ConfigView, key: Seq<char>, val: Seq<char>) -> Outcome {
    if key == "renderer"@ || key == "render_backend"@ {
        let low = text::lower(val);
        if low == "sdl"@ || low == "sdl2"@ {
            Outcome::Done(ConfigView { renderer: RendererBackend::Sdl, ..c })
        } else if low == "gl"@ || low == "opengl"@ {
            Outcome::Done(ConfigView { renderer: RendererBackend::OpenGl, ..c })
        } else if low == "vk"@ || low == "vulkan"@ {
            Outcome::Done(ConfigView { renderer: RendererBackend::Vulkan, ..c })
        } else {
            Outcome::Done(c)
        }
    } else if key == "vk_present_mode"@ || key == "present_mode"@ {
        let low = text::lower(val);
        if low == "mailbox"@ {
            Outcome::Done(ConfigView { vk_present_mode: VkPresentMode::Mailbox, ..c })
        } else if low == "immediate"@ {
            Outcome::Done(ConfigView { vk_present_mode: VkPresentMode::Immediate, ..c })
        } else if low == "fifo"@ || low == "vsync"@ {
            Outcome::Done(ConfigView { vk_present_mode: VkPresentMode::Fifo, ..c })
        } else {
            Outcome::Done(c)
        }
    } else if key == "target_fps"@ {
        numeric(
            val,
            u32::MAX as nat,
            |n: u32| ConfigView { target_fps: clamped(n, 0, 480), ..c },
        )
    } else if key == "framegen_mode"@ {
        Outcome::Done(ConfigView { framegen_mode: val, ..c })
    } else if key == "framegen_quality"@ {
        Outcome::Done(ConfigView { framegen_quality: val, ..c })
    } else if key == "scale_mode"@ {
        Outcome::Done(ConfigView { scale_mode: val, ..c })
    } else if key == "sharpness"@ {
        numeric(
            val,
            u32::MAX as nat,
            |n: u32| ConfigView { sharpness: clamped(n, 0, 10), ..c },
        )
    } else if key == "stretch"@ {
        if truthy(val) {
            Outcome::Done(ConfigView { aspect_mode: AspectMode::Stretch, ..c })
        } else {
            Outcome::Done(c)
        }
    } else if key == "aspect_mode"@ {
        let low = text::lower(val);
        if low == "stretch"@ {
            Outcome::Done(ConfigView { aspect_mode: AspectMode::Stretch, ..c })
        } else if low == "zoom"@ {
            Outcome::Done(ConfigView { aspect_mode: AspectMode::Zoom, ..c })
        } else {
            Outcome::Done(ConfigView { aspect_mode: AspectMode::Preserve, ..c })
        }
    } else {
        Outcome::Unknown
    }
}

/// The keys of the picture and the on-screen display.
pub open spec fn picture_key(c: ConfigView, key: Seq<char>, val: Seq<char>) -> Outcome {
    if key == "brightness"@ {
        numeric(
            val,
            u32::MAX as nat,
            |n: u32| ConfigView { brightness: clamped(n, 0, 200), ..c },
        )
    } else if key == "contrast"@ {
        numeric(
            val,
            u32::MAX as nat,
            |n: u32| ConfigView { contrast: clamped(n, 0, 200), ..c },
        )
    } else if key == "gamma"@ {
        numeric(
            val,
            u32::MAX as nat,
            |n: u32| ConfigView { gamma: clamped(n, 10, 300), ..c },
        )
    } else if key == "fps_display"@ {
        Outcome::Done(
            ConfigView {
                fps_display: if val == "simple"@ || val == "verbose"@ {
                    val
                } else {
                    "off"@
                },
                ..c
            },
        )
    } else if key == "osd_opacity"@ {
        numeric(
            val,
            u32::MAX as nat,
            |n: u32| ConfigView { osd_opacity: clamped(n, 0, 100), ..c },
        )
    } else if key == "priority"@ {
        Outcome::Done(
            ConfigView {
                priority: PriorityFlags(priority_bits(text::lower(text::trimmed(val)))),
                ..c
            },
        )
    } else {
        Outcome::Unknown
    }
}

/// The keys of plugins, streams, strips and the virtual webcam.
pub open spec fn output_key(c: ConfigView, key: Seq<char>, val: Seq<char>) -> Outcome {
    if key == "plugins"@ || key == "plugin"@ {
        let name = text::trimmed(val);
        if name.len() == 0 {
            Outcome::Done(c)
        } else {
            Outcome::Done(ConfigView { plugins: c.plugins.push(name), ..c })
        }
    } else if key == "stream_port"@ {
        numeric(val, u16::MAX as nat, |n: u32| ConfigView { stream_port: n as u16, ..c })
    } else if key == "stream_quality"@ {
        numeric(
            val,
            u32::MAX as nat,
            |n: u32| ConfigView { stream_quality: clamped(n, 1, 100), ..c },
        )
    } else if key == "stream_client_ip"@ {
        match address(val) {
            Some(a) => Outcome::Done(ConfigView { stream_client_ip: a, ..c }),
            None => Outcome::Done(c),
        }
    } else if key == "stream_client_port"@ {
        numeric(val, u16::MAX as nat, |n: u32| ConfigView { stream_client_port: n as u16, ..c })
    } else if key == "strip_cols"@ {
        numeric(
            val,
            u32::MAX as nat,
            |n: u32| ConfigView { strip_cols: clamped(n, 1, 6), ..c },
        )
    } else if key == "strip_rows"@ {
        numeric(
            val,
            u32::MAX as nat,
            |n: u32| ConfigView { strip_rows: clamped(n, 1, 6), ..c },
        )
    } else if key == "virtual_webcam"@ {
        Outcome::Done(ConfigView { virtual_webcam: bit(truthy(val)), ..c })
    } else if key == "virtual_webcam_device"@ {
        Outcome::Done(ConfigView { virtual_webcam_device: text::trimmed(val), ..c })
    } else {
        Outcome::Unknown
    }
}

/// What a key comes to, whichever part of the settings it belongs to.
pub open spec fn outcome(c: ConfigView, key: Seq<char>, val: Seq<char>) -> Outcome {
    if capture_key(c, key, val) !is Unknown {
        capture_key(c, key, val)
    } else if window_key(c, key, val) !is Unknown {
        window_key(c, key, val)
    } else if audio_key(c, key, val) !is Unknown {
        audio_key(c, key, val)
    } else if renderer_key(c, key, val) !is Unknown {
        renderer_key(c, key, val)
    } else if picture_key(c, key, val) !is Unknown {
        picture_key(c, key, val)
    } else {
        output_key(c, key, val)
    }
}

/// The settings after one key of the file was given a value, or `None` where
/// the key wants a number and the value is not one in its range. A key that is
/// not known changes nothing.
pub open spec fn applied(c: ConfigView, key: Seq<char>, val: Seq<char>) -> Option<ConfigView> {
    match outcome(c, key, val) {
        Outcome::Unknown => Some(c),
        Outcome::Invalid => None,
        Outcome::Done(d) => Some(d),
    }
}

fn read_number(key: &str, v: &[char], max: u32) -> (r: Result<u32, ConfigError>)
    ensures
        match number::number_up_to(v@, max as nat) {
            Some(n) => r == Ok::<u32, ConfigError>(n as u32),
            None => r matches Err(ConfigError::Invalid(k)) && k@ == key@,
        },
{
    match number::parse_up_to(v, max as u64) {
        Some(n) => Ok(n as u32),
        None => Err(ConfigError::Invalid(key.to_owned())),
    }
}

/// Whether `r` and the new settings are what an outcome says.
pub open spec fn is_outcome(
    o: Outcome,
    before: ConfigView,
    after: ConfigView,
    key: Seq<char>,
    r: Result<bool, ConfigError>,
) -> bool {
    match o {
        Outcome::Unknown => r == Ok::<bool, ConfigError>(false) && after == before,
        Outcome::Invalid => (r matches Err(ConfigError::Invalid(k)) && k@ == key) && after
            == before,
        Outcome::Done(c) => r == Ok::<bool, ConfigError>(true) && after == c,
    }
}

fn apply_capture_key(cfg: &mut Config, key: &str, val: &str) -> (r: Result<bool, ConfigError>)
    ensures
        is_outcome(
            capture_key(old(cfg).state(), key@, val@),
            old(cfg).state(),
            final(cfg).state(),
            key@,
            r,
        ),
{
    let chars = text::chars_of(val);
    let v = chars.as_slice();
    if text::same(key, "device") {
        cfg.set_device(val.to_owned());
        return Ok(true);
    }
    if text::same(key, "width") {
        cfg.set_width(read_number(key, v, u32::MAX)?);
        return Ok(true);
    }
    if text::same(key, "height") {
        cfg.set_height(read_number(key, v, u32::MAX)?);
        return Ok(true);
    }
    if text::same(key, "fps") {
        cfg.set_fps(read_number(key, v, u32::MAX)?);
        return Ok(true);
    }
    if text::same(key, "buffers") {
        cfg.set_buffers(clamp(read_number(key, v, u32::MAX)?, 2, MAX_BUFFERS));
        return Ok(true);
    }
    if text::same(key, "format") {
        cfg.set_pixfmt(pixfmt_named(text::to_lower(v).as_slice()));
        return Ok(true);
    }
    if text::same(key, "screenshot_dir") {
        cfg.set_screenshot_dir(val.to_owned());
        return Ok(true);
    }
    if text::same(key, "record_resolution") || text::same(key, "record_res") {
        let low = text::to_lower(v);
        if text::spells(low.as_slice(), "native") || text::spells(low.as_slice(), "full") {
            cfg.set_record_resolution(RecordResolution::Native);
        } else if text::spells(low.as_slice(), "window") || text::spells(low.as_slice(), "win") {
            cfg.set_record_resolution(RecordResolution::Window);
        }
        return Ok(true);
    }
    if text::same(key, "screenshot_format") || text::same(key, "screenshot_fmt") {
        let low = text::to_lower(v);
        if text::spells(low.as_slice(), "png") {
            cfg.set_screenshot_format(ScreenshotFormat::Png);
        } else if text::spells(low.as_slice(), "jpeg") || text::spells(low.as_slice(), "jpg") {
            cfg.set_screenshot_format(ScreenshotFormat::Jpeg);
        }
        return Ok(true);
    }
    if text::same(key, "jpeg_quality") {
        cfg.set_jpeg_quality(clamp(read_number(key, v, u32::MAX)?, 1, 100));
        return Ok(true);
    }
    Ok(false)
}

fn apply_window_key(cfg: &mut Config, key: &str, val: &str) -> (r: Result<bool, ConfigError>)
    ensures
        is_outcome(
            window_key(old(cfg).state(), key@, val@),
            old(cfg).state(),
            final(cfg).state(),
            key@,
            r,
        ),
{
    let chars = text::chars_of(val);
    let v = chars.as_slice();
    if text::same(key, "window") {
        if let Some((w, h)) = read_window(v) {
            cfg.set_win_w(Some(w));
            cfg.set_win_h(Some(h));
        }
        return Ok(true);
    }
    if text::same(key, "vsync") {
        cfg.set_vsync(parse_bool(val));
        return Ok(true);
    }
    if text::same(key, "smooth") {
        cfg.set_smooth(parse_bool(val));
        return Ok(true);
    }
    if text::same(key, "fullscreen") {
        cfg.set_fullscreen(parse_bool(val));
        return Ok(true);
    }
    if text::same(key, "quiet") {
        cfg.set_quiet(parse_bool(val));
        return Ok(true);
    }
    if text::same(key, "daemonize") {
        cfg.set_daemonize(parse_bool(val));
        return Ok(true);
    }
    if text::same(key, "pause_on_minimize") {
        cfg.set_pause_on_minimize(parse_bool(val));
        return Ok(true);
    }
    if text::same(key, "pause_on_background") {
        cfg.set_pause_on_background(parse_bool(val));
        return Ok(true);
    }
    Ok(false)
}

fn apply_audio_key(cfg: &mut Config, key: &str, val: &str) -> (r: Result<bool, ConfigError>)
    ensures
        is_outcome(
            audio_key(old(cfg).state(), key@, val@),
            old(cfg).state(),
            final(cfg).state(),
            key@,
            r,
        ),
{
    let chars = text::chars_of(val);
    let v = chars.as_slice();
    if text::same(key, "audio_device") {
        let name = text::trim(v);
        cfg.set_audio_device(if name.len() == 0 {
            None
        } else {
            Some(text::string_of(name))
        });
        return Ok(true);
    }
    if text::same(key, "max_volume") {
        cfg.set_max_volume(clamp(read_number(key, v, u32::MAX)?, 100, u32::MAX));
        return Ok(true);
    }
    if text::same(key, "audio_capture_buf") {
        cfg.set_audio_capture_buf(clamp(read_number(key, v, u32::MAX)?, 1, 100));
        return Ok(true);
    }
    if text::same(key, "audio_playback_buf") {
        cfg.set_audio_playback_buf(clamp(read_number(key, v, u32::MAX)?, 1, 100));
        return Ok(true);
    }
    if text::same(key, "audio_mode") {
        cfg.set_audio_mode(if text::same(val, "passthrough") {
            AudioMode::Passthrough
        } else {
            AudioMode::Capture
        });
        return Ok(true);
    }
    if text::same(key, "virtual_mic") {
        cfg.set_virtual_mic(parse_bool(val));
        return Ok(true);
    }
    if text::same(key, "virtual_mic_sink") {
        cfg.set_virtual_mic_sink(text::string_of(text::trim(v)));
        return Ok(true);
    }
    Ok(false)
}

fn apply_renderer_key(cfg: &mut Config, key: &str, val: &str) -> (r: Result<bool, ConfigError>)
    ensures
        is_outcome(
            renderer_key(old(cfg).state(), key@, val@),
            old(cfg).state(),
            final(cfg).state(),
            key@,
            r,
        ),
{
    let chars = text::chars_of(val);
    let v = chars.as_slice();
    if text::same(key, "renderer") || text::same(key, "render_backend") {
        let low = text::to_lower(v);
        if text::spells(low.as_slice(), "sdl") || text::spells(low.as_slice(), "sdl2") {
            cfg.set_renderer(RendererBackend::Sdl);
        } else if text::spells(low.as_slice(), "gl") || text::spells(low.as_slice(), "opengl") {
            cfg.set_renderer(RendererBackend::OpenGl);
        } else if text::spells(low.as_slice(), "vk") || text::spells(low.as_slice(), "vulkan") {
            cfg.set_renderer(RendererBackend::Vulkan);
        }
        return Ok(true);
    }
    if text::same(key, "vk_present_mode") || text::same(key, "present_mode") {
        let low = text::to_lower(v);
        if text::spells(low.as_slice(), "mailbox") {
            cfg.set_vk_present_mode(VkPresentMode::Mailbox);
        } else if text::spells(low.as_slice(), "immediate") {
            cfg.set_vk_present_mode(VkPresentMode::Immediate);
        } else if text::spells(low.as_slice(), "fifo") || text::spells(low.as_slice(), "vsync") {
            cfg.set_vk_present_mode(VkPresentMode::Fifo);
        }
        return Ok(true);
    }
    if text::same(key, "target_fps") {
        cfg.set_target_fps(clamp(read_number(key, v, u32::MAX)?, 0, 480));
        return Ok(true);
    }
    if text::same(key, "framegen_mode") {
        cfg.set_framegen_mode(val.to_owned());
        return Ok(true);
    }
    if text::same(key, "framegen_quality") {
        cfg.set_framegen_quality(val.to_owned());
        return Ok(true);
    }
    if text::same(key, "scale_mode") {
        cfg.set_scale_mode(val.to_owned());
        return Ok(true);
    }
    if text::same(key, "sharpness") {
        cfg.set_sharpness(clamp(read_number(key, v, u32::MAX)?, 0, 10));
        return Ok(true);
    }
    if text::same(key, "stretch") {
        if parse_bool(val) {
            cfg.set_aspect_mode(AspectMode::Stretch);
        }
        return Ok(true);
    }
    if text::same(key, "aspect_mode") {
        let low = text::to_lower(v);
        if text::spells(low.as_slice(), "stretch") {
            cfg.set_aspect_mode(AspectMode::Stretch);
        } else if text::spells(low.as_slice(), "zoom") {
            cfg.set_aspect_mode(AspectMode::Zoom);
        } else {
            cfg.set_aspect_mode(AspectMode::Preserve);
        }
        return Ok(true);
    }
    Ok(false)
}

fn apply_picture_key(cfg: &mut Config, key: &str, val: &str) -> (r: Result<bool, ConfigError>)
    ensures
        is_outcome(
            picture_key(old(cfg).state(), key@, val@),
            old(cfg).state(),
            final(cfg).state(),
            key@,
            r,
        ),
{
    let chars = text::chars_of(val);
    let v = chars.as_slice();
    if text::same(key, "brightness") {
        cfg.set_brightness(clamp(read_number(key, v, u32::MAX)?, 0, 200));
        return Ok(true);
    }
    if text::same(key, "contrast") {
        cfg.set_contrast(clamp(read_number(key, v, u32::MAX)?, 0, 200));
        return Ok(true);
    }
    if text::same(key, "gamma") {
        cfg.set_gamma(clamp(read_number(key, v, u32::MAX)?, 10, 300));
        return Ok(true);
    }
    if text::same(key, "fps_display") {
        cfg.set_fps_display(if text::same(val, "simple") || text::same(val, "verbose") {
            val.to_owned()
        } else {
            "off".to_owned()
        });
        return Ok(true);
    }
    if text::same(key, "osd_opacity") {
        cfg.set_osd_opacity(clamp(read_number(key, v, u32::MAX)?, 0, 100));
        return Ok(true);
    }
    if text::same(key, "priority") {
        cfg.set_priority(PriorityFlags::parse(val));
        return Ok(true);
    }
    Ok(false)
}

fn apply_output_key(cfg: &mut Config, key: &str, val: &str) -> (r: Result<bool, ConfigError>)
    ensures
        is_outcome(
            output_key(old(cfg).state(), key@, val@),
            old(cfg).state(),
            final(cfg).state(),
            key@,
            r,
        ),
{
    let chars = text::chars_of(val);
    let v = chars.as_slice();
    if text::same(key, "plugins") || text::same(key, "plugin") {
        let name = text::trim(v);
        if name.len() > 0 {
            cfg.add_plugin(text::string_of(name));
        }
        return Ok(true);
    }
    if text::same(key, "stream_port") {
        cfg.set_stream_port(read_number(key, v, 65535)? as u16);
        return Ok(true);
    }
    if text::same(key, "stream_quality") {
        cfg.set_stream_quality(clamp(read_number(key, v, u32::MAX)?, 1, 100));
        return Ok(true);
    }
    if text::same(key, "stream_client_ip") {
        if let Some(a) = read_address(v) {
            cfg.set_stream_client_ip(a);
        }
        return Ok(true);
    }
    if text::same(key, "stream_client_port") {
        cfg.set_stream_client_port(read_number(key, v, 65535)? as u16);
        return Ok(true);
    }
    if text::same(key, "strip_cols") {
        cfg.set_strip_cols(clamp(read_number(key, v, u32::MAX)?, 1, 6));
        return Ok(true);
    }
    if text::same(key, "strip_rows") {
        cfg.set_strip_rows(clamp(read_number(key, v, u32::MAX)?, 1, 6));
        return Ok(true);
    }
    if text::same(key, "virtual_webcam") {
        cfg.set_virtual_webcam(parse_bool(val));
        return Ok(true);
    }
    if text::same(key, "virtual_webcam_device") {
        cfg.set_virtual_webcam_device(text::string_of(text::trim(v)));
        return Ok(true);
    }
    Ok(false)
}

pub(crate) fn apply_key(cfg: &mut Config, key: &str, val: &str) -> (r: Result<bool, ConfigError>)
    ensures
        is_outcome(
            outcome(old(cfg).state(), key@, val@),
            old(cfg).state(),
            final(cfg).state(),
            key@,
            r,
        ),
{
    if apply_capture_key(cfg, key, val)? {
        return Ok(true);
    }
    if apply_window_key(cfg, key, val)? {
        return Ok(true);
    }
    if apply_audio_key(cfg, key, val)? {
        return Ok(true);
    }
    if apply_renderer_key(cfg, key, val)? {
        return Ok(true);
    }
    if apply_picture_key(cfg, key, val)? {
        return Ok(true);
    }
    apply_output_key(cfg, key, val)
}

/// Gives one key of the file a value. The line number does not bear on the
/// result.
pub fn apply_config_key(cfg: &mut Config, key: &str, val: &str, lineno: u32) -> (r: Result<
    (),
    ConfigError,
>)
    ensures
        match applied(old(cfg)@, key@, val@) {
            Some(c) => r is Ok && final(cfg)@ == c,
            None => (r matches Err(ConfigError::Invalid(k)) && k@ == key@) && final(cfg)@ == old(
                cfg,
            )@,
        },
{
    proof {
        reveal(Config::state);
    }
    match apply_key(cfg, key, val) {
        Ok(known) => Ok(()),
        Err(e) => Err(e),
    }
}

/// Whether every setting that has a range lies in it.
pub open spec fn in_range(c: ConfigView) -> bool {
    &&& 2 <= c.buffers <= MAX_BUFFERS
    &&& 100 <= c.max_volume
    &&& 1 <= c.jpeg_quality <= 100
    &&& 1 <= c.stream_quality <= 100
    &&& 1 <= c.strip_cols <= 6
    &&& 1 <= c.strip_rows <= 6
    &&& c.target_fps <= 480
    &&& c.sharpness <= 10
    &&& 1 <= c.audio_capture_buf <= 100
    &&& 1 <= c.audio_playback_buf <= 100
    &&& c.brightness <= 200
    &&& c.contrast <= 200
    &&& 10 <= c.gamma <= 300
    &&& c.osd_opacity <= 100
    &&& c.stream_client_ip.len() == 4
    &&& (c.fps_display == "off"@ || c.fps_display == "simple"@ || c.fps_display == "verbose"@)
    &&& c.priority.0 <= 0xff
    &&& (c.win_w is Some <==> c.win_h is Some)
}

proof fn lemma_list_bits(names: Seq<Seq<char>>)
    ensures
        list_bits(names) <= 0xff,
    decreases names.len(),
{
    if names.len() > 0 {
        lemma_list_bits(names.drop_last());
        let a = list_bits(names.drop_last());
        let b = flag_bits(text::trimmed(names.last()));
        assert(a | b <= 0xff) by (bit_vector)
            requires
                a <= 0xff,
                b <= 0xff,
        ;
    }
}

/// No value of the `priority` key sets a bit that stands for nothing.
pub proof fn law_priority_bits_known(s: Seq<char>)
    ensures
        priority_bits(s) <= 0xff,
{
    lemma_list_bits(text::pieces(s, ','));
}

proof fn lemma_capture_key_in_range(c: ConfigView, key: Seq<char>, val: Seq<char>)
    requires
        in_range(c),
    ensures
        capture_key(c, key, val) matches Outcome::Done(d) ==> in_range(d),
{
}

proof fn lemma_window_key_in_range(c: ConfigView, key: Seq<char>, val: Seq<char>)
    requires
        in_range(c),
    ensures
        window_key(c, key, val) matches Outcome::Done(d) ==> in_range(d),
{
}

proof fn lemma_audio_key_in_range(c: ConfigView, key: Seq<char>, val: Seq<char>)
    requires
        in_range(c),
    ensures
        audio_key(c, key, val) matches Outcome::Done(d) ==> in_range(d),
{
}

proof fn lemma_renderer_key_in_range(c: ConfigView, key: Seq<char>, val: Seq<char>)
    requires
        in_range(c),
    ensures
        renderer_key(c, key, val) matches Outcome::Done(d) ==> in_range(d),
{
}

proof fn lemma_picture_key_in_range(c: ConfigView, key: Seq<char>, val: Seq<char>)
    requires
        in_range(c),
    ensures
        picture_key(c, key, val) matches Outcome::Done(d) ==> in_range(d),
{
    law_priority_bits_known(text::lower(text::trimmed(val)));
}

#[verifier::spinoff_prover]
#[verifier::rlimit(40)]
proof fn lemma_output_key_in_range(c: ConfigView, key: Seq<char>, val: Seq<char>)
    requires
        in_range(c),
    ensures
        output_key(c, key, val) matches Outcome::Done(d) ==> in_range(d),
{
}

/// The defaults lie in their ranges, and no key with whatever value takes a
/// setting out of its range.
pub proof fn law_applied_keeps_ranges(c: ConfigView, key: Seq<char>, val: Seq<char>)
    ensures
        in_range(defaults(Platform::Linux)),
        in_range(defaults(Platform::MacOs)),
        in_range(c) ==> (applied(c, key, val) matches Some(d) ==> in_range(d)),
{
    if in_range(c) {
        lemma_capture_key_in_range(c, key, val);
        lemma_window_key_in_range(c, key, val);
        lemma_audio_key_in_range(c, key, val);
        lemma_renderer_key_in_range(c, key, val);
        lemma_picture_key_in_range(c, key, val);
        lemma_output_key_in_range(c, key, val);
        let o = outcome(c, key, val);
        assert(o matches Outcome::Done(d) ==> in_range(d));
    }
}

} // verus!
