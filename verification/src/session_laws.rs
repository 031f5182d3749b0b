//! What a session promises: pauses come and go in pairs, the keys of the strips
//! lead where they should, what is counted adds up, and files are where they are
//! looked for.

use vstd::prelude::*;

use crate::config::VkPresentMode;
use crate::config_file;
use crate::keys::{self, StripKeys, StripStep};
use crate::analysis_strip::OutputMode;
use crate::menu_build;
use crate::number;
use crate::paths;
use crate::pause::{self, PauseEvent, PauseRules, PauseState};
use crate::stats::{self, Counters, FpsShow};
use crate::text;

verus! {

/// What ends a pause that came by itself undoes what began it: a window that goes
/// away and comes back, one that loses the focus and gets it again, and one whose
/// watcher sees it go and come back. The key ends what the key began.
pub proof fn law_pauses_come_in_pairs(s: PauseState, r: PauseRules, sound: Option<bool>)
    requires
        !s.paused,
    ensures
        r.on_minimize ==> {
            let p = pause::next(s, PauseEvent::Minimized, r, sound);
            &&& p.paused && p.by_itself
            &&& !pause::next(p, PauseEvent::Restored, r, sound).paused
        },
        !r.on_minimize ==> !pause::next(s, PauseEvent::Minimized, r, sound).paused,
        r.on_background ==> {
            let p = pause::next(s, PauseEvent::FocusLost, r, sound);
            &&& p.paused && p.by_itself
            &&& !pause::next(p, PauseEvent::FocusGained { still_minimized: false }, r, sound).paused
            &&& pause::next(p, PauseEvent::FocusGained { still_minimized: true }, r, sound).paused
        },
        !r.on_background && !r.on_minimize ==> !pause::next(s, PauseEvent::FocusLost, r, sound).paused,
        !r.on_background && !r.focus_is_all ==> !pause::next(
            s,
            PauseEvent::FocusLost,
            r,
            sound,
        ).paused,
        r.on_minimize && r.focus_is_all ==> pause::next(s, PauseEvent::FocusLost, r, sound).paused,
        r.on_minimize && !s.watched ==> {
            let p = pause::next(s, PauseEvent::Watched { minimized: true }, r, sound);
            &&& p.paused && p.by_itself && p.by_watcher && p.watched
            &&& pause::next(p, PauseEvent::Watched { minimized: true }, r, sound).paused
            &&& !pause::next(p, PauseEvent::Watched { minimized: false }, r, sound).paused
        },
        ({
            let p = pause::next(s, PauseEvent::Key, r, sound);
            &&& p.paused && !p.by_itself && !p.by_watcher
            &&& !pause::next(p, PauseEvent::Key, r, sound).paused
        }),
        !pause::next(s, PauseEvent::Restored, r, sound).paused,
        !pause::next(s, PauseEvent::FocusGained { still_minimized: false }, r, sound).paused,
        !pause::next(s, PauseEvent::Watched { minimized: false }, r, sound).paused,
{
}

/// A pause that does not come from the watcher is not ended by it, and one goes on
/// whatever would begin another. The picture is drawn anew just where a pause
/// begins or ends.
pub proof fn law_pause_goes_on(s: PauseState, e: PauseEvent, r: PauseRules, sound: Option<bool>)
    ensures
        s.paused && !s.by_watcher && e is Watched ==> pause::next(s, e, r, sound).paused,
        s.paused && (e == PauseEvent::Minimized || e == PauseEvent::FocusLost) ==> pause::next(
            s,
            e,
            r,
            sound,
        ) == s,
        pause::step(s, e, r, sound).redraw <==> pause::next(s, e, r, sound).paused != s.paused,
        pause::step(s, e, r, sound).mute is Some ==> sound is Some && pause::step(
            s,
            e,
            r,
            sound,
        ).redraw,
        pause::step(s, e, r, sound).mute == Some(true) ==> !s.paused,
        pause::step(s, e, r, sound).mute == Some(false) ==> s.paused && !s.was_muted,
        e matches PauseEvent::Watched { minimized } ==> pause::next(s, e, r, sound).watched
            == minimized,
{
}

/// A pause that began without sound, or while it was muted, gives no mute up at its
/// end, whatever sound there is by then.
pub proof fn law_pause_without_sound(
    s: PauseState,
    e: PauseEvent,
    f: PauseEvent,
    r: PauseRules,
    before: Option<bool>,
    after: Option<bool>,
)
    requires
        pause::begins(s, e, r),
        before != Some(false),
    ensures
        pause::step(s, e, r, before).mute is None,
        pause::step(pause::next(s, e, r, before), f, r, after).mute is None,
{
}

/// The key of the strips: without shift, or while the menu is open, it does
/// nothing. The first press reveals, the second begins a strip, each further one
/// takes a frame, with control into an archive; with alt alone it ends the strip.
pub proof fn law_strip_keys(s: StripKeys, ctrl: bool)
    requires
        !s.revealed,
        !s.running,
    ensures
        keys::strip_step(s, false, ctrl, false, false) == StripStep::Nothing,
        keys::strip_step(s, true, ctrl, false, true) == StripStep::Nothing,
        ({
            let a = keys::strip_step(s, true, ctrl, false, false);
            let s1 = keys::strip_next(s, ctrl, a);
            let b = keys::strip_step(s1, true, ctrl, false, false);
            let s2 = keys::strip_next(s1, ctrl, b);
            let c = keys::strip_step(s2, true, ctrl, false, false);
            let s3 = keys::strip_next(s2, ctrl, c);
            let d = keys::strip_step(s3, true, false, true, false);
            let s4 = keys::strip_next(s3, false, d);
            &&& a == StripStep::Reveal && s1.revealed && !s1.running
            &&& b == (StripStep::Take { begin: true }) && s2.running
            &&& s2.mode == (if ctrl {
                OutputMode::Tar
            } else {
                OutputMode::File
            })
            &&& c == (StripStep::Take { begin: false }) && s3.running
            &&& d == (StripStep::Finish { running: true }) && !s4.running && s4.revealed
        }),
{
}

/// What any press comes to: nothing without shift or over the menu; with alt and
/// without control the end of the strip; else it reveals what is not revealed, and
/// takes a frame where it is.
pub proof fn law_every_strip_press(s: StripKeys, shift: bool, ctrl: bool, alt: bool, menu_open: bool)
    ensures
        ({
            let step = keys::strip_step(s, shift, ctrl, alt, menu_open);
            let next = keys::strip_next(s, ctrl, step);
            &&& !shift || menu_open ==> step == StripStep::Nothing && next == s
            &&& shift && !menu_open && alt && !ctrl ==> step == (StripStep::Finish {
                running: s.running,
            }) && !next.running && next.revealed == s.revealed && next.mode == s.mode
            &&& shift && !menu_open && !(alt && !ctrl) && !s.revealed ==> step == StripStep::Reveal
                && next == (StripKeys { revealed: true, ..s })
            &&& shift && !menu_open && !(alt && !ctrl) && s.revealed ==> step == (StripStep::Take {
                begin: !s.running,
            }) && next.running && next.revealed
            &&& step is Take && ctrl ==> next.mode == OutputMode::Tar
            &&& step is Take && !ctrl ==> next.mode == OutputMode::File
        }),
{
}

/// A window in the shape of its source is as high as its width asks for, to within
/// a line less.
pub proof fn law_shaped_height(src_w: int, src_h: int, w: int)
    requires
        src_w > 0,
        src_h >= 0,
        w >= 0,
    ensures
        keys::shaped_height(src_w, src_h, w) * src_w <= w * src_h < (keys::shaped_height(
            src_w,
            src_h,
            w,
        ) + 1) * src_w,
        keys::shaped_height(src_w, src_h, src_w) == src_h,
{
    let n = w * src_h;
    vstd::arithmetic::div_mod::lemma_fundamental_div_mod(n, src_w);
    assert((n / src_w) * src_w <= n < (n / src_w + 1) * src_w) by (nonlinear_arith)
        requires
            n == src_w * (n / src_w) + n % src_w,
            0 <= n % src_w < src_w,
    ;
    vstd::arithmetic::div_mod::lemma_div_multiples_vanish(src_h, src_w);
    assert(src_w * src_h / src_w == src_h);
}

/// Ports are the numbers from 1 to 65535, with or without white space around them.
pub proof fn law_ports(n: nat, s: Seq<char>)
    requires
        text::trimmed(s) == number::decimal(n),
    ensures
        1 <= n <= 65535 ==> keys::port_of(s) == Some(n),
        n == 0 || n > 65535 ==> keys::port_of(s) is None,
{
    number::law_decimal_reads_back(n);
}

/// The names of what the rate display shows.
pub proof fn law_show_names()
    ensures
        stats::show_named("off"@) == FpsShow::Off,
        stats::show_named("simple"@) == FpsShow::Simple,
        stats::show_named("verbose"@) == FpsShow::Verbose,
        FpsShow::Simple.named() == "simple"@,
        FpsShow::Verbose.named() == "verbose"@,
{
    stats::law_show_names_read_back(FpsShow::Off);
    stats::law_show_names_read_back(FpsShow::Simple);
    stats::law_show_names_read_back(FpsShow::Verbose);
}

/// Frame numbers go round after 2^32: so many steps lead from one to the other.
pub proof fn law_steps_go_round(from: u32, to: u32)
    ensures
        0 <= stats::steps_between(from, to) < 0x1_0000_0000,
        (from + stats::steps_between(from, to)) % 0x1_0000_0000 == to,
{
}

/// What is repeated and what is unique make up what was captured.
pub proof fn law_repeated_and_unique(c: Counters)
    requires
        c.unique <= c.captured,
    ensures
        stats::repeated(c) + c.unique == c.captured,
{
}

/// What is counted anew for each showing, and what is kept.
pub proof fn law_emptied(c: Counters)
    ensures
        ({
            let e = stats::emptied(c);
            &&& e.shown == 0 && e.captured == 0 && e.numbered == 0 && e.unique == 0
            &&& e.upload_sum == 0 && e.upload_count == 0
            &&& e.present_sum == 0 && e.present_count == 0
            &&& e.last_number is None
            &&& e.last_hash == c.last_hash && e.stutters == c.stutters && e.dupes == c.dupes
        }),
{
}

/// About 128 bytes of a frame are hashed, at an even distance: all of a frame of
/// fewer than 256, and never fewer than 128 of a larger one.
pub proof fn law_hash_stride(len: int)
    requires
        len >= 0,
    ensures
        stats::hash_stride(len) >= 1,
        len < 256 ==> stats::hash_stride(len) == 1,
        len >= 128 ==> 128 * stats::hash_stride(len) <= len < 128 * (stats::hash_stride(len) + 1),
{
}

/// The hash of a few bytes: it begins with the basis of FNV-1a, and mixes each byte
/// in before it multiplies by the prime.
pub proof fn law_hash_of_few_bytes(b: u8)
    ensures
        stats::hash_of(Seq::empty()) == 0xcbf29ce484222325u64,
        stats::hash_of(seq![b]) == ((0xcbf29ce484222325u64 ^ (b as u64)) * 0x100000001b3int) % (
        0x1_0000_0000_0000_0000int),
{
    reveal_with_fuel(stats::hash_from, 3);
    let s = seq![b];
    assert(stats::hash_stride(1) == 1);
    assert(s[0] == b);
}

/// Of a frame of fewer than 256 bytes each byte counts, in order: one more mixes
/// itself into the hash of those before it.
pub proof fn law_hash_of_one_more_byte(s: Seq<u8>, b: u8)
    requires
        s.len() < 255,
    ensures
        stats::hash_of(s.push(b)) == ((stats::hash_of(s) ^ (b as u64)) * 0x100000001b3int) % (
        0x1_0000_0000_0000_0000int),
{
    lemma_hash_push(s, b, 0, stats::HASH_BASIS);
    assert(stats::hash_stride(s.len() as int) == 1 && stats::hash_stride(s.push(b).len() as int) == 1);
}

proof fn lemma_hash_push(s: Seq<u8>, b: u8, i: int, h: u64)
    requires
        0 <= i <= s.len(),
    ensures
        stats::hash_from(s.push(b), 1, i, h) == stats::mixed(stats::hash_from(s, 1, i, h), b),
    decreases s.len() - i,
{
    let t = s.push(b);
    if i < s.len() {
        assert(t[i] == s[i]);
        lemma_hash_push(s, b, i + 1, stats::mixed(h, s[i]));
    } else {
        assert(t[i] == b);
        let m = stats::mixed(h, b);
        assert(stats::hash_from(t, 1, i + 1, m) == m);
        assert(stats::hash_from(s, 1, i, h) == h);
    }
}

/// The rate display names what draws, and with Vulkan how that presents.
pub proof fn law_tags(m: VkPresentMode, gl: bool, zero_copy: bool)
    ensures
        stats::tag_text(true, gl, Some(VkPresentMode::Mailbox), zero_copy) == "VK+MB"@,
        stats::tag_text(true, gl, Some(VkPresentMode::Immediate), zero_copy) == "VK+IMM"@,
        stats::tag_text(true, gl, Some(VkPresentMode::Fifo), zero_copy) == "VK+FIFO"@,
        stats::tag_text(true, gl, None, zero_copy) == "VK"@,
        stats::tag_text(false, true, Some(m), true) == "GL+DMA"@,
        stats::tag_text(false, true, Some(m), false) == "GL"@,
        stats::tag_text(false, false, Some(m), zero_copy) == "SDL"@,
{
}

/// The title without streams is the program's name; it shows the port and the
/// clients of a server, and where a client is connected to.
pub proof fn law_titles(port: u16, count: u32, ip: Seq<u8>, to: u16)
    ensures
        ({
            let a = "streaming on :"@ + number::decimal(port as nat) + ", "@ + number::decimal(
                count as nat,
            ) + (if count == 1 {
                " client"@
            } else {
                " clients"@
            });
            let b = "connected to "@ + menu_build::dotted(ip) + ":"@ + number::decimal(to as nat);
            &&& stats::title_text(None, None) == "capview"@
            &&& stats::title_text(Some((port, count)), None) == "capview <"@ + a + ">"@
            &&& stats::title_text(None, Some((ip, to))) == "capview <"@ + b + ">"@
            &&& stats::title_text(Some((port, count)), Some((ip, to))) == "capview <"@ + a + " | "@ + b
                + ">"@
        }),
{
    reveal_strlit(" client");
    reveal_strlit(" clients");
    reveal_strlit("s");
    reveal_strlit("");
    assert(" client"@ + "s"@ =~= " clients"@);
    assert(" client"@ + ""@ =~= " client"@);
    let d = "streaming on :"@ + number::decimal(port as nat) + ", "@ + number::decimal(count as nat);
    let a = d + (if count == 1 {
        " client"@
    } else {
        " clients"@
    });
    let b = "connected to "@ + menu_build::dotted(ip) + ":"@ + number::decimal(to as nat);
    let e = if count == 1 {
        ""@
    } else {
        "s"@
    };
    assert(d + " client"@ + e =~= a);
    assert("capview <"@ + (a + " | "@ + b) + ">"@ =~= "capview <"@ + a + " | "@ + b + ">"@);
}

/// What stands beneath a directory is its path, one slash and the name; a slash
/// that is there already is not doubled, and nothing stands beneath nothing.
pub proof fn law_beneath(dir: Seq<char>, name: Seq<char>)
    ensures
        dir.len() > 0 && dir.last() != '/' ==> paths::beneath(dir, name) == dir + seq!['/'] + name,
        paths::beneath(dir + seq!['/'], name) == dir + seq!['/'] + name,
        paths::beneath(Seq::empty(), name) == name,
{
    assert((dir + seq!['/']).last() == '/');
    assert(Seq::<char>::empty() + name =~= name);
}

/// The configuration file: in `capview` in the directory for configurations, else
/// in that in `.config` at home, else here.
pub proof fn law_config_path(xdg: Seq<char>, home: Seq<char>, h: Option<Seq<char>>)
    requires
        xdg.len() > 0 && xdg.last() != '/',
        home.len() > 0 && home.last() != '/',
    ensures
        paths::config_file_path(Some(xdg), h) == xdg + "/capview/capview.conf"@,
        paths::config_file_path(None, Some(home)) == home + "/.config/capview/capview.conf"@,
        paths::config_file_path(None, None) == "capview.conf"@,
{
    reveal_strlit("capview");
    reveal_strlit("capview.conf");
    reveal_strlit(".config");
    reveal_strlit("/capview/capview.conf");
    reveal_strlit("/.config/capview/capview.conf");
    assert(config_file::CONFIG_DIR@ == "capview"@ && config_file::CONFIG_FILE@ == "capview.conf"@);
    let a = paths::beneath(xdg, "capview"@);
    assert(a.last() == 'w');
    assert(paths::config_file_path(Some(xdg), h) =~= xdg + "/capview/capview.conf"@);
    let b = paths::beneath(home, ".config"@);
    assert(b.last() == 'g');
    let c = paths::beneath(b, "capview"@);
    assert(c.last() == 'w');
    assert(paths::config_file_path(None, Some(home)) =~= home + "/.config/capview/capview.conf"@);
}

/// A `~/` at the beginning of a directory stands for the home directory; any other
/// directory, and all of them where there is no home, are as they are.
pub proof fn law_home_is_expanded(dir: Seq<char>, home: Seq<char>)
    ensures
        paths::expanded("~/"@ + dir, Some(home)) == home + "/"@ + dir,
        paths::expanded(dir, None) == dir,
        dir.len() < 2 || dir[0] != '~' || dir[1] != '/' ==> paths::expanded(dir, Some(home)) == dir,
{
    reveal_strlit("~/");
    reveal_strlit("/");
    let t = "~/"@ + dir;
    assert(t.subrange(0, 2) =~= "~/"@);
    assert(text::begins(t, "~/"@));
    assert(home + t.skip(1) =~= home + "/"@ + dir);
    if text::begins(dir, "~/"@) {
        let d = dir.subrange(0, 2);
        assert(d == "~/"@);
        assert(d[0] == dir[0] && d[1] == dir[1]);
    }
}

/// The model is looked for where the environment says, then in the directory for
/// configurations, then beside the program, and last here.
pub proof fn law_model_candidates(
    named: Seq<char>,
    xdg: Seq<char>,
    home: Seq<char>,
    program_dir: Seq<char>,
)
    requires
        xdg.len() > 0 && xdg.last() != '/',
        program_dir.len() > 0 && program_dir.last() != '/',
    ensures
        paths::model_candidates(Some(named), Some(xdg), Some(home), Some(program_dir)) == seq![
            named,
            xdg + "/capview/rife.onnx"@,
            program_dir + "/rife.onnx"@,
            "rife.onnx"@,
        ],
        paths::model_candidates(None, None, None, None) == seq!["rife.onnx"@],
        paths::model_in_config(None, home) == home + "/.config/capview/rife.onnx"@,
{
    reveal_strlit("capview");
    reveal_strlit("rife.onnx");
    reveal_strlit("/rife.onnx");
    reveal_strlit("/capview/rife.onnx");
    reveal_strlit("/.config");
    reveal_strlit("/.config/capview/rife.onnx");
    let a = paths::beneath(xdg, "capview"@);
    assert(a.last() == 'w');
    assert(paths::model_in_config(Some(xdg), home) =~= xdg + "/capview/rife.onnx"@);
    assert(paths::beneath(program_dir, "rife.onnx"@) =~= program_dir + "/rife.onnx"@);
    let b = home + "/.config"@;
    assert(b.last() == 'g');
    let c = paths::beneath(b, "capview"@);
    assert(c.last() == 'w');
    assert(paths::model_in_config(None, home) =~= home + "/.config/capview/rife.onnx"@);
    assert(paths::model_candidates(Some(named), Some(xdg), Some(home), Some(program_dir)) =~= seq![
        named,
        xdg + "/capview/rife.onnx"@,
        program_dir + "/rife.onnx"@,
        "rife.onnx"@,
    ]);
    assert(paths::model_candidates(None, None, None, None) =~= seq!["rife.onnx"@]);
}

} // verus!
