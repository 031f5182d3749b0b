//! What keys and the state of the window come to.

use vstd::prelude::*;

use crate::analysis_strip::OutputMode;
use crate::config::Config;
use crate::config::ConfigView;
use crate::config::Platform;
use crate::config::RendererBackend;
use crate::framegen::FrameGenMode;
use crate::menu_sync;
use crate::menu_sync::Saved;
use crate::number;
use crate::text;

verus! {

/// What is to be done with the next frame.
#[derive(Clone, Copy, Debug, PartialEq, Eq, Structural)]
pub enum Pending {
    Clipboard,
    File,
    Archive,
    /// Into the analysis strip.
    Strip,
}

/// What the key for screenshots asks for: the clipboard, with shift a file, with
/// control too an archive. Nothing while the menu is open.
pub fn screenshot_key(shift: bool, ctrl: bool, menu_open: bool) -> (r: Option<Pending>)
    ensures
        r == (if menu_open {
            None
        } else if shift && ctrl {
            Some(Pending::Archive)
        } else if shift {
            Some(Pending::File)
        } else {
            Some(Pending::Clipboard)
        }),
{
    if menu_open {
        None
    } else if shift && ctrl {
        Some(Pending::Archive)
    } else if shift {
        Some(Pending::File)
    } else {
        Some(Pending::Clipboard)
    }
}

/// A key that does one thing.
#[derive(Clone, Copy, Debug, PartialEq, Eq, Structural)]
pub enum PlainKey {
    Q,
    Escape,
    S,
    C,
}

/// What a key asks for.
#[derive(Clone, Copy, Debug, PartialEq, Eq, Structural)]
pub enum PlainStep {
    Nothing,
    Quit,
    /// Go back in the menu.
    Back,
    /// Do something with the next frame.
    Take(Pending),
}

/// What a key asks for: `q` and Escape quit, `s` saves a screenshot and `c` copies
/// one to the clipboard. While the menu is open, Escape goes back in it and the
/// others do nothing.
pub fn plain_key(key: PlainKey, menu_open: bool) -> (r: PlainStep)
    ensures
        r == (match key {
            PlainKey::Escape if menu_open => PlainStep::Back,
            _ if menu_open => PlainStep::Nothing,
            PlainKey::Q => PlainStep::Quit,
            PlainKey::Escape => PlainStep::Quit,
            PlainKey::S => PlainStep::Take(Pending::File),
            PlainKey::C => PlainStep::Take(Pending::Clipboard),
        }),
{
    if menu_open {
        return match key {
            PlainKey::Escape => PlainStep::Back,
            _ => PlainStep::Nothing,
        };
    }
    match key {
        PlainKey::Q => PlainStep::Quit,
        PlainKey::Escape => PlainStep::Quit,
        PlainKey::S => PlainStep::Take(Pending::File),
        PlainKey::C => PlainStep::Take(Pending::Clipboard),
    }
}

/// The state of the keys for analysis strips.
#[derive(Clone, Copy, Debug, PartialEq, Eq, Structural)]
pub struct StripKeys {
    /// Whether the first press has revealed them.
    pub revealed: bool,
    /// Whether a strip is being filled.
    pub running: bool,
    /// Where the strips go.
    pub mode: OutputMode,
}

/// What a key for analysis strips asks for.
#[derive(Clone, Copy, Debug, PartialEq, Eq, Structural)]
pub enum StripStep {
    Nothing,
    /// Show them in the menu and in the help.
    Reveal,
    /// Take the next frame, and begin a strip before that where asked.
    Take { begin: bool },
    /// Write what there is, where a strip is being filled.
    Finish { running: bool },
}

/// What a press asks for.
pub open spec fn strip_step(s: StripKeys, shift: bool, ctrl: bool, alt: bool, menu_open: bool) -> StripStep {
    if menu_open || !shift {
        StripStep::Nothing
    } else if alt && !ctrl {
        StripStep::Finish { running: s.running }
    } else if !s.revealed {
        StripStep::Reveal
    } else {
        StripStep::Take { begin: !s.running }
    }
}

/// The state after a press.
pub open spec fn strip_next(s: StripKeys, ctrl: bool, step: StripStep) -> StripKeys {
    match step {
        StripStep::Nothing => s,
        StripStep::Reveal => StripKeys { revealed: true, ..s },
        StripStep::Take { .. } => StripKeys {
            running: true,
            mode: if ctrl {
                OutputMode::Tar
            } else {
                OutputMode::File
            },
            ..s
        },
        StripStep::Finish { .. } => StripKeys { running: false, ..s },
    }
}

impl StripKeys {
    /// The state at the start.
    pub fn new() -> (r: StripKeys)
        ensures
            r == (StripKeys { revealed: false, running: false, mode: OutputMode::File }),
    {
        StripKeys { revealed: false, running: false, mode: OutputMode::File }
    }

    /// Takes a press in.
    pub fn press(&mut self, shift: bool, ctrl: bool, alt: bool, menu_open: bool) -> (r: StripStep)
        ensures
            r == strip_step(*old(self), shift, ctrl, alt, menu_open),
            *final(self) == strip_next(*old(self), ctrl, r),
    {
        if menu_open || !shift {
            return StripStep::Nothing;
        }
        if alt && !ctrl {
            let running = self.running;
            self.running = false;
            return StripStep::Finish { running };
        }
        if !self.revealed {
            self.revealed = true;
            return StripStep::Reveal;
        }
        let begin = !self.running;
        self.running = true;
        self.mode = if ctrl {
            OutputMode::Tar
        } else {
            OutputMode::File
        };
        StripStep::Take { begin }
    }
}

/// A strip is filled only after its keys were revealed.
pub proof fn law_strips_are_revealed_first(
    s: StripKeys,
    shift: bool,
    ctrl: bool,
    alt: bool,
    menu_open: bool,
)
    requires
        s.running ==> s.revealed,
    ensures
        ({
            let step = strip_step(s, shift, ctrl, alt, menu_open);
            let next = strip_next(s, ctrl, step);
            &&& next.running ==> next.revealed
            &&& step is Take ==> s.revealed
        }),
{
}

/// Whether a character can go into a text of the menu: digits, dots and colons.
pub fn can_be_typed(c: char) -> (r: bool)
    ensures
        r == (number::is_digit(c) || c == '.' || c == ':'),
{
    ('0' <= c && c <= '9') || c == '.' || c == ':'
}

/// How far a choice of the menu moves.
pub fn menu_step(shift: bool) -> (r: i32)
    ensures
        r == (if shift {
            10int
        } else {
            1
        }),
{
    if shift {
        10
    } else {
        1
    }
}

/// The brightness after a press of the key that raises it: five per cent more, up
/// to 200.
pub fn brighter(percent: u32) -> (r: u32)
    ensures
        r == (if percent + 5 < 200 {
            percent + 5
        } else {
            200
        }),
{
    if percent < 195 {
        percent + 5
    } else {
        200
    }
}

/// The brightness after a press of the key that lowers it: five per cent less,
/// down to 5.
pub fn darker(percent: u32) -> (r: u32)
    ensures
        r == (if percent > 10 {
            percent - 5
        } else {
            5
        }),
{
    if percent > 10 {
        percent - 5
    } else {
        5
    }
}

/// The place and the size of a window.
#[derive(Clone, Copy, Debug, PartialEq, Eq, Structural)]
pub struct Geometry {
    pub x: i32,
    pub y: i32,
    pub w: u32,
    pub h: u32,
}

/// What the key for full screen asks for.
#[derive(Clone, Copy, Debug, PartialEq, Eq, Structural)]
pub enum FullscreenStep {
    Enter,
    /// Leave, to where the window was.
    LeaveTo(Geometry),
    /// Leave, to the middle of the screen with this size.
    LeaveCentered { w: u32, h: u32 },
}

/// Where the window was before it filled the screen.
#[derive(Clone, Copy, Debug, PartialEq, Eq, Structural)]
pub struct Fullscreen {
    pub saved: Option<Geometry>,
}

impl Fullscreen {
    /// Takes a press in.
    pub fn toggle(&mut self, windowed: bool, now: Geometry, init_w: u32, init_h: u32) -> (r:
        FullscreenStep)
        ensures
            windowed ==> r == FullscreenStep::Enter && final(self).saved == Some(now),
            !windowed ==> *final(self) == *old(self) && r == match old(self).saved {
                Some(g) => FullscreenStep::LeaveTo(g),
                None => FullscreenStep::LeaveCentered { w: init_w, h: init_h },
            },
    {
        if windowed {
            self.saved = Some(now);
            FullscreenStep::Enter
        } else {
            match self.saved {
                Some(g) => FullscreenStep::LeaveTo(g),
                None => FullscreenStep::LeaveCentered { w: init_w, h: init_h },
            }
        }
    }
}

/// The height that goes with a width, in the shape of a source.
pub open spec fn shaped_height(src_w: int, src_h: int, w: int) -> int {
    w * src_h / src_w
}

/// The size that a window is set to when it was resized, so that it keeps the
/// shape of the source; `None` where it is off by no more than one line.
pub fn enforce_aspect(src_w: u32, src_h: u32, new_w: i32, new_h: i32) -> (r: Option<(u32, u32)>)
    requires
        0 < src_w <= i32::MAX,
        src_h <= i32::MAX,
        0 <= new_w,
        0 <= new_h,
        new_w * src_h <= i32::MAX,
    ensures
        ({
            let h = shaped_height(src_w as int, src_h as int, new_w as int);
            r == (if -1 <= new_h - h <= 1 {
                None
            } else {
                Some((new_w as u32, h as u32))
            })
        }),
{
    assert(0 <= new_w * src_h) by (nonlinear_arith)
        requires
            0 <= new_w,
            0 <= src_h,
    ;
    let product: i64 = new_w as i64 * src_h as i64;
    let ghost p = product as int;
    assert(0 <= p / src_w as int <= p) by (nonlinear_arith)
        requires
            0 <= p,
            0 < src_w,
    ;
    let h: i64 = product / src_w as i64;
    let off: i64 = new_h as i64 - h;
    if -1 <= off && off <= 1 {
        None
    } else {
        Some((new_w as u32, h as u32))
    }
}

/// Whether the note on a restart is up.
#[derive(Clone, Copy, Debug, PartialEq, Eq, Structural)]
pub struct RestartNote {
    pub shown: bool,
}

impl RestartNote {
    /// Holds the chosen backend against the one that draws and gives what to
    /// tell, which is something only at the moment at which they come to differ.
    pub fn check(&mut self, chosen: RendererBackend, active: RendererBackend) -> (r: Option<
        &'static str,
    >)
        ensures
            final(self).shown == (chosen != active),
            r is Some <==> chosen != active && !old(self).shown,
            r matches Some(s) ==> s@ == match chosen {
                RendererBackend::Sdl => "Restart to switch to SDL"@,
                RendererBackend::OpenGl => "Restart to switch to OpenGL"@,
                RendererBackend::Vulkan => "Restart to switch to Vulkan"@,
            },
    {
        let before = self.shown;
        self.shown = chosen != active;
        if before || chosen == active {
            return None;
        }
        Some(
            match chosen {
                RendererBackend::Sdl => "Restart to switch to SDL",
                RendererBackend::OpenGl => "Restart to switch to OpenGL",
                RendererBackend::Vulkan => "Restart to switch to Vulkan",
            },
        )
    }
}

/// What a change of backend comes to while the program runs.
#[derive(Clone, Copy, Debug, PartialEq, Eq, Structural)]
pub enum BackendSwitch {
    Nothing,
    /// It is only written down, for the next start.
    NextStart,
    ToOpenGl,
    ToSdl,
}

/// Decides whether the backend changes now: only between the two that do not need
/// a window of their own, and not on macOS.
pub fn backend_switch(
    chosen: RendererBackend,
    active: RendererBackend,
    use_gl: bool,
    platform: Platform,
) -> (r: BackendSwitch)
    ensures
        ({
            let want_gl = chosen == RendererBackend::OpenGl;
            r == (if want_gl == use_gl || active == RendererBackend::Vulkan || chosen
                == RendererBackend::Vulkan {
                BackendSwitch::Nothing
            } else if platform == Platform::MacOs {
                BackendSwitch::NextStart
            } else if want_gl {
                BackendSwitch::ToOpenGl
            } else {
                BackendSwitch::ToSdl
            })
        }),
{
    let want_gl = chosen == RendererBackend::OpenGl;
    if want_gl == use_gl || active == RendererBackend::Vulkan || chosen
        == RendererBackend::Vulkan {
        BackendSwitch::Nothing
    } else if platform == Platform::MacOs {
        BackendSwitch::NextStart
    } else if want_gl {
        BackendSwitch::ToOpenGl
    } else {
        BackendSwitch::ToSdl
    }
}

/// What the key for frame generation comes to.
#[derive(Clone, Copy, Debug, PartialEq, Eq, Structural)]
pub enum FramegenKey {
    /// Go over to this mode.
    Switch(FrameGenMode),
    /// What draws could do it, but not here.
    Refused,
    /// What draws cannot do it.
    Unavailable,
}

/// Decides what the key for frame generation comes to. `ready` tells whether what
/// the next mode needs could be had, `rife` whether a neural model can be run.
pub fn framegen_key(mode: FrameGenMode, shaders: bool, ready: bool, rife: bool) -> (r: FramegenKey)
    ensures
        r == (if !shaders {
            FramegenKey::Unavailable
        } else if mode.following(rife) == FrameGenMode::Off || ready {
            FramegenKey::Switch(mode.following(rife))
        } else {
            FramegenKey::Refused
        }),
{
    if !shaders {
        return FramegenKey::Unavailable;
    }
    let next = mode.next(rife);
    if next == FrameGenMode::Off || ready {
        FramegenKey::Switch(next)
    } else {
        FramegenKey::Refused
    }
}

/// What is uploaded for a captured frame.
#[derive(Clone, Copy, Debug, PartialEq, Eq, Structural)]
pub enum Upload {
    /// The frame itself.
    Captured,
    /// What the plugins made of it: the frame at this place of their output.
    Filtered(usize),
    /// Nothing.
    Skip,
}

/// Chooses what is uploaded, from how many frames the plugins made; `None` where
/// there are none or they failed.
pub fn upload_source(made: Option<usize>) -> (r: Upload)
    ensures
        r == match made {
            None => Upload::Captured,
            Some(n) => if n == 0 {
                Upload::Skip
            } else {
                Upload::Filtered((n - 1) as usize)
            },
        },
{
    match made {
        None => Upload::Captured,
        Some(n) => if n == 0 {
            Upload::Skip
        } else {
            Upload::Filtered(n - 1)
        },
    }
}

/// Whether a frame can be shown without a copy, where its buffer is shared:
/// OpenGL draws, it is not compressed, there are no plugins, and there is
/// something to show.
pub fn can_share(use_gl: bool, compressed: bool, plugins: bool, upload: Upload) -> (r: bool)
    ensures
        r == (use_gl && !compressed && !plugins && upload != Upload::Skip),
{
    use_gl && !compressed && !plugins && upload != Upload::Skip
}

/// Whether contrast and gamma, in per cent, have to be worked into a frame before
/// it is uploaded.
pub fn needs_table(use_gl: bool, contrast: u32, gamma: u32) -> (r: bool)
    ensures
        r == (!use_gl && (contrast != 100 || gamma != 100)),
{
    !use_gl && (contrast != 100 || gamma != 100)
}

/// Where to connect to: the address with the port behind it.
pub struct Target {
    pub address: String,
    pub port: u16,
}

/// The port that a text of the menu gives: a number from 1 up.
pub open spec fn port_of(s: Seq<char>) -> Option<nat> {
    match number::number_up_to(text::trimmed(s), u16::MAX as nat) {
        Some(p) if p > 0 => Some(p),
        _ => None,
    }
}

/// Reads where to connect to out of the texts of the menu; `None` where the port
/// is no port. Without a text the address is `192.168.1.1` and the port 9000.
pub fn connect_target(ip: Option<&str>, port: Option<&str>) -> (r: Option<Target>)
    ensures
        ({
            let i = match ip {
                Some(s) => s@,
                None => "192.168.1.1"@,
            };
            let p = port_of(
                match port {
                    Some(s) => s@,
                    None => "9000"@,
                },
            );
            match r {
                Some(t) => p == Some(t.port as nat) && t.address@ == text::trimmed(i) + ":"@
                    + number::decimal(t.port as nat),
                None => p is None,
            }
        }),
{
    let p = match port {
        Some(s) => text::chars_of(s),
        None => text::chars_of("9000"),
    };
    let i = match ip {
        Some(s) => text::chars_of(s),
        None => text::chars_of("192.168.1.1"),
    };
    let n: u16 = match number::parse_u16(text::trim(p.as_slice())) {
        Some(n) => n,
        None => {
            return None;
        },
    };
    if n == 0 {
        return None;
    }
    let mut out = vstd::slice::slice_to_vec(text::trim(i.as_slice()));
    text::extend(&mut out, text::chars_of(":").as_slice());
    text::extend(&mut out, number::to_decimal(n as u64).as_slice());
    Some(Target { address: text::string_of(out.as_slice()), port: n })
}

/// The four numbers of an address, where it is made of four.
pub open spec fn four_numbers(s: Seq<char>) -> Option<Seq<u8>> {
    let p = text::pieces(s, '.');
    if p.len() == 4 && number::number_up_to(p[0], 255) is Some && number::number_up_to(p[1], 255)
        is Some && number::number_up_to(p[2], 255) is Some && number::number_up_to(p[3], 255)
        is Some {
        Some(
            seq![
                number::number_up_to(p[0], 255)->0 as u8,
                number::number_up_to(p[1], 255)->0 as u8,
                number::number_up_to(p[2], 255)->0 as u8,
                number::number_up_to(p[3], 255)->0 as u8,
            ],
        )
    } else {
        None
    }
}

fn read_four(s: &[char]) -> (r: Option<[u8; 4]>)
    ensures
        match r {
            Some(a) => four_numbers(s@) == Some(a@),
            None => four_numbers(s@) is None,
        },
{
    let p = text::split(s, '.');
    assert(text::texts(p@).len() == p@.len());
    if p.len() != 4 {
        return None;
    }
    assert(text::texts(p@)[0] == p@[0]@ && text::texts(p@)[1] == p@[1]@ && text::texts(p@)[2]
        == p@[2]@ && text::texts(p@)[3] == p@[3]@);
    match (
        number::parse_u8(p[0].as_slice()),
        number::parse_u8(p[1].as_slice()),
        number::parse_u8(p[2].as_slice()),
        number::parse_u8(p[3].as_slice()),
    ) {
        (Some(a), Some(b), Some(c), Some(d)) => {
            let r: [u8; 4] = [a, b, c, d];
            assert(r@ =~= seq![a, b, c, d]);
            assert(four_numbers(s@)->0 =~= r@);
            Some(r)
        },
        _ => None,
    }
}

/// Notes in the settings where the client was connected to, and gives the keys to
/// write: the address as it was typed, and the port.
pub fn connected(cfg: &mut Config, ip: &str, port: u16) -> (r: Vec<Saved>)
    ensures
        final(cfg)@ == (ConfigView {
            stream_client_ip: match four_numbers(text::trimmed(ip@)) {
                Some(a) => a,
                None => old(cfg)@.stream_client_ip,
            },
            stream_client_port: port,
            ..old(cfg)@
        }),
        menu_sync::saves(r@) == seq![
            ("stream_client_ip"@, text::trimmed(ip@)),
            ("stream_client_port"@, number::decimal(port as nat)),
        ],
{
    assert(cfg@ == cfg.state()) by {
        reveal(Config::state);
    }
    let c = text::chars_of(ip);
    let typed = text::trim(c.as_slice());
    if let Some(a) = read_four(typed) {
        cfg.set_stream_client_ip(a);
    }
    cfg.set_stream_client_port(port);
    assert(cfg@ == cfg.state()) by {
        reveal(Config::state);
    }
    let mut out: Vec<Saved> = Vec::new();
    out.push(Saved { key: "stream_client_ip".to_owned(), value: text::string_of(typed) });
    out.push(
        Saved {
            key: "stream_client_port".to_owned(),
            value: text::string_of(number::to_decimal(port as u64).as_slice()),
        },
    );
    assert(menu_sync::saves(out@) =~= seq![
        ("stream_client_ip"@, text::trimmed(ip@)),
        ("stream_client_port"@, number::decimal(port as nat)),
    ]);
    out
}

} // verus!
