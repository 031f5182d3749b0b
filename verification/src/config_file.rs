//! The configuration file: what its lines mean, what reading it comes to and
//! how one key is written back.
//!
//! Keys above the first section header hold for every run. A section holds for
//! the profile of its name and overrides them.

use vstd::prelude::*;

use crate::config::{self, Config, ConfigError, ConfigView, Platform};
use crate::number;
use crate::text;

verus! {

/// The directory of the file, below the user's configuration directory.
pub const CONFIG_DIR: &'static str = "capview";

/// The name of the file.
pub const CONFIG_FILE: &'static str = "capview.conf";

/// What the file holds when it is first written.
pub const DEFAULT_CONFIG: &'static str = "\
# capview defaults — edit to taste, CLI flags always override.
#
# Boolean values: true/yes/1 to enable, anything else to disable.
#
# Top-level keys are global defaults. Named [profile] sections override them.
# Usage: capview --profile hdmi
#
# Profile example:
# [hdmi]
# device       = /dev/video2
# fps          = 60
# audio_device = capture card
#
# audio_device matches by substring against PulseAudio/PipeWire source
# descriptions (case-insensitive). Use 'pactl list sources short' to see
# available sources.
#
# max_volume caps PageUp volume adjustment (default 100). Raise above
# 100 only if the source is unusually quiet — values over 100 amplify
# digitally and may clip.
# max_volume   = 100

# device       = /dev/video0
# width        = 1920
# height       = 1080
# fps          = 60
# format       = nv12
# buffers      = 2
# window       = 960x540
# audio_device =
# record_resolution = native
# target_fps = 0
vsync      = false
smooth     = false
fullscreen = false
quiet      = false
daemonize  = false

# Priority optimizations — applied at startup to reduce latency.
# Set to 'all' (default) or 'none', or pick individual flags as a
# comma-separated list:
#   timer_slack    - set kernel timer slack to 1ns (default 50us)
#   realtime (rt)  - request SCHED_RR real-time scheduling (needs rtprio ulimit)
#   cpu_pin        - pin render thread to the most idle core; background threads
#                    and other capview instances avoid it automatically
#   mlock          - lock current + future pages into RAM (no page faults ever)
#   idle_inhibit   - inhibit screensaver / idle timeout via D-Bus
#   no_compositor  - suspend KWin compositing (resumes on exit)
#   io_prio        - set best-effort I/O priority 0 (highest without root)
#   sig_mask       - block unnecessary signals on the render thread
# If any option causes problems on your system, disable it here.
# priority = all

# Virtual webcam: expose capture frames as a v4l2loopback device for
# Discord / OBS / browsers. Requires v4l2loopback installed:
#   sudo modprobe v4l2loopback video_nr=10 card_label=capview exclusive_caps=1
# virtual_webcam        = false
# virtual_webcam_device = /dev/video10

# Virtual mic: expose capture audio as a PulseAudio null-sink; apps see
# <sink_name>.monitor as a selectable microphone input.
# virtual_mic      = false
# virtual_mic_sink = capview_mic
";

/// What a line means.
pub enum LineView {
    /// Nothing: it is blank or a comment.
    Blank,
    /// The header of the section of this name.
    Header(Seq<char>),
    /// A key and its value.
    Entry(Seq<char>, Seq<char>),
    /// Something else, which is passed over.
    Malformed,
}

/// A value without the one pair of quotes around it.
pub open spec fn unquoted(v: Seq<char>) -> Seq<char> {
    if v.len() >= 2 && v[0] == '"' && v.last() == '"' {
        v.subrange(1, v.len() - 1)
    } else if v.len() >= 2 && v[0] == '\'' && v.last() == '\'' {
        v.subrange(1, v.len() - 1)
    } else {
        v
    }
}

/// The meaning of a line that has no white space at its ends.
pub open spec fn classify_trimmed(t: Seq<char>) -> LineView {
    if t.len() == 0 || t[0] == '#' {
        LineView::Blank
    } else if t[0] == '[' && t.last() == ']' {
        LineView::Header(text::trimmed(t.subrange(1, t.len() - 1)))
    } else {
        match text::cut(t, '=') {
            Some((k, v)) => LineView::Entry(text::trimmed(k), unquoted(text::trimmed(v))),
            None => LineView::Malformed,
        }
    }
}

/// The meaning of a line.
pub open spec fn classify(line: Seq<char>) -> LineView {
    classify_trimmed(text::trimmed(line))
}

/// What a line means, as the code holds it.
pub enum Line {
    Blank,
    Header(Vec<char>),
    Entry(Vec<char>, Vec<char>),
    Malformed,
}

impl View for Line {
    type V = LineView;

    open spec fn view(&self) -> LineView {
        match self {
            Line::Blank => LineView::Blank,
            Line::Header(n) => LineView::Header(n@),
            Line::Entry(k, v) => LineView::Entry(k@, v@),
            Line::Malformed => LineView::Malformed,
        }
    }
}

fn unquote(v: &[char]) -> (r: &[char])
    ensures
        r@ == unquoted(v@),
{
    let n: usize = v.len();
    if n >= 2 && ((v[0] == '"' && v[n - 1] == '"') || (v[0] == '\'' && v[n - 1] == '\'')) {
        &v[1..n - 1]
    } else {
        v
    }
}

/// Reads one line.
pub fn read_line(line: &[char]) -> (r: Line)
    ensures
        r@ == classify(line@),
{
    let t = text::trim(line);
    let n: usize = t.len();
    if n == 0 || t[0] == '#' {
        return Line::Blank;
    }
    if t[0] == '[' && t[n - 1] == ']' {
        return Line::Header(vstd::slice::slice_to_vec(text::trim(&t[1..n - 1])));
    }
    match text::split_once(t, '=') {
        Some((k, v)) => Line::Entry(
            vstd::slice::slice_to_vec(text::trim(k)),
            vstd::slice::slice_to_vec(unquote(text::trim(v))),
        ),
        None => Line::Malformed,
    }
}

/// The section, in lower case, that follows `ls` where `start` goes before.
pub open spec fn section_from(start: Seq<char>, ls: Seq<Seq<char>>) -> Seq<char>
    decreases ls.len(),
{
    if ls.len() == 0 {
        start
    } else {
        match classify(ls.last()) {
            LineView::Header(name) => text::lower(name),
            _ => section_from(start, ls.drop_last()),
        }
    }
}

/// The section, in lower case, that the line after `ls` belongs to.
pub open spec fn section_after(ls: Seq<Seq<char>>) -> Seq<char> {
    section_from(Seq::empty(), ls)
}

/// The keys, in lower case, and values that `ls` sets for a section, in order,
/// where the section `start` goes before.
pub open spec fn entries_from(start: Seq<char>, ls: Seq<Seq<char>>, section: Seq<char>) -> Seq<
    (Seq<char>, Seq<char>),
>
    decreases ls.len(),
{
    if ls.len() == 0 {
        Seq::empty()
    } else {
        let before = entries_from(start, ls.drop_last(), section);
        match classify(ls.last()) {
            LineView::Entry(k, v) => if section_from(start, ls.drop_last()) == section {
                before.push((text::lower(k), v))
            } else {
                before
            },
            _ => before,
        }
    }
}

/// The keys, in lower case, and values that a section sets, in order.
pub open spec fn entries(ls: Seq<Seq<char>>, section: Seq<char>) -> Seq<(Seq<char>, Seq<char>)> {
    entries_from(Seq::empty(), ls, section)
}

/// The settings after a list of keys was applied in order, or the first key
/// that could not be.
pub open spec fn apply_all(c: ConfigView, es: Seq<(Seq<char>, Seq<char>)>) -> Result<
    ConfigView,
    Seq<char>,
>
    decreases es.len(),
{
    if es.len() == 0 {
        Ok(c)
    } else {
        match apply_all(c, es.drop_last()) {
            Ok(d) => match config::applied(d, es.last().0, es.last().1) {
                Some(e) => Ok(e),
                None => Err(es.last().0),
            },
            Err(k) => Err(k),
        }
    }
}

/// What reading the file comes to.
pub enum Loaded {
    /// These settings.
    Settings(ConfigView),
    /// This key wants a number in its range and has something else.
    Invalid(Seq<char>),
    /// The profile sets nothing.
    NoProfile(Seq<char>),
}

/// What the lines of a file come to for a profile.
pub open spec fn loaded(
    platform: Platform,
    ls: Seq<Seq<char>>,
    profile: Option<Seq<char>>,
) -> Loaded {
    match apply_all(config::defaults(platform), entries(ls, Seq::empty())) {
        Err(k) => Loaded::Invalid(k),
        Ok(c) => match profile {
            None => Loaded::Settings(c),
            Some(name) => {
                let es = entries(ls, text::lower(name));
                if es.len() == 0 {
                    Loaded::NoProfile(name)
                } else {
                    match apply_all(c, es) {
                        Ok(d) => Loaded::Settings(d),
                        Err(k) => Loaded::Invalid(k),
                    }
                }
            },
        },
    }
}

/// One key and its value.
pub struct Entry {
    pub key: String,
    pub value: String,
}

/// The pairs that a list of entries holds.
pub open spec fn pairs(v: Seq<Entry>) -> Seq<(Seq<char>, Seq<char>)> {
    v.map_values(|e: Entry| (e.key@, e.value@))
}

/// Collects what a section sets.
pub fn section_entries(ls: &[Vec<char>], section: &[char]) -> (r: Vec<Entry>)
    ensures
        pairs(r@) == entries(text::texts(ls@), section@),
{
    let ghost all = text::texts(ls@);
    let mut out: Vec<Entry> = Vec::new();
    let mut current: Vec<char> = Vec::new();
    let mut i: usize = 0;
    assert(all.take(0) =~= Seq::<Seq<char>>::empty());
    assert(pairs(out@) =~= Seq::<(Seq<char>, Seq<char>)>::empty());
    assert(current@ =~= Seq::<char>::empty());
    while i < ls.len()
        invariant
            i <= ls@.len(),
            all == text::texts(ls@),
            current@ == section_after(all.take(i as int)),
            pairs(out@) == entries(all.take(i as int), section@),
        decreases ls@.len() - i,
    {
        let ghost next = all.take(i + 1);
        assert(next.drop_last() =~= all.take(i as int));
        assert(next.last() == ls@[i as int]@);
        match read_line(ls[i].as_slice()) {
            Line::Header(name) => {
                current = text::to_lower(name.as_slice());
            },
            Line::Entry(k, v) => {
                if text::alike(current.as_slice(), section) {
                    let ghost before = out@;
                    let low = text::to_lower(k.as_slice());
                    let e = Entry {
                        key: text::string_of(low.as_slice()),
                        value: text::string_of(v.as_slice()),
                    };
                    out.push(e);
                    assert(pairs(out@) =~= pairs(before).push((e.key@, e.value@)));
                }
            },
            Line::Blank => {},
            Line::Malformed => {},
        }
        i += 1;
    }
    assert(all.take(i as int) =~= all);
    out
}

/// Applies a list of keys in order, up to the first that cannot be.
pub fn apply_entries(cfg: &mut Config, es: &[Entry]) -> (r: Result<(), ConfigError>)
    ensures
        match apply_all(old(cfg)@, pairs(es@)) {
            Ok(c) => r is Ok && final(cfg)@ == c,
            Err(k) => r matches Err(ConfigError::Invalid(s)) && s@ == k,
        },
{
    let ghost all = pairs(es@);
    let mut i: usize = 0;
    assert(all.take(0) =~= Seq::<(Seq<char>, Seq<char>)>::empty());
    while i < es.len()
        invariant
            i <= es@.len(),
            all == pairs(es@),
            apply_all(old(cfg)@, all.take(i as int)) == Ok::<ConfigView, Seq<char>>(cfg@),
        decreases es@.len() - i,
    {
        let ghost next = all.take(i + 1);
        assert(next.drop_last() =~= all.take(i as int));
        assert(next.last() == (es@[i as int].key@, es@[i as int].value@));
        match config::apply_config_key(cfg, es[i].key.as_str(), es[i].value.as_str(), 0) {
            Ok(done) => {},
            Err(e) => {
                proof {
                    lemma_error_stays(old(cfg)@, all, i + 1);
                }
                return Err(e);
            },
        }
        i += 1;
    }
    assert(all.take(i as int) =~= all);
    Ok(())
}

proof fn lemma_error_stays(c: ConfigView, es: Seq<(Seq<char>, Seq<char>)>, n: int)
    requires
        0 <= n <= es.len(),
        apply_all(c, es.take(n)) is Err,
    ensures
        apply_all(c, es) == apply_all(c, es.take(n)),
    decreases es.len() - n,
{
    if n < es.len() {
        assert(es.take(n + 1).drop_last() =~= es.take(n));
        lemma_error_stays(c, es, n + 1);
    } else {
        assert(es.take(n) =~= es);
    }
}

impl Config {
    /// Reads the settings for a profile from the text of the file. Without a
    /// file the defaults hold, whatever the profile.
    pub fn load(platform: Platform, file: Option<&str>, profile: Option<&str>) -> (r: Result<
        Config,
        ConfigError,
    >)
        ensures
            match file {
                None => r matches Ok(c) && c@ == config::defaults(platform),
                Some(t) => match loaded(
                    platform,
                    text::lines(t@),
                    (match profile {
                        Some(p) => Some(p@),
                        None => None,
                    }),
                ) {
                    Loaded::Settings(c) => r matches Ok(d) && d@ == c,
                    Loaded::Invalid(k) => r matches Err(ConfigError::Invalid(s)) && s@ == k,
                    Loaded::NoProfile(n) => r matches Err(ConfigError::ProfileNotFound(s)) && s@
                        == n,
                },
            },
    {
        let mut cfg = Config::defaults(platform);
        let t = match file {
            Some(t) => t,
            None => {
                return Ok(cfg);
            },
        };
        let chars = text::chars_of(t);
        let ls = text::split_lines(chars.as_slice());
        let none: Vec<char> = Vec::new();
        assert(none@ =~= Seq::<char>::empty());
        let globals = section_entries(ls.as_slice(), none.as_slice());
        match apply_entries(&mut cfg, globals.as_slice()) {
            Ok(done) => {},
            Err(e) => {
                return Err(e);
            },
        }
        if let Some(name) = profile {
            let c = text::chars_of(name);
            let low = text::to_lower(c.as_slice());
            let own = section_entries(ls.as_slice(), low.as_slice());
            if own.len() == 0 {
                assert(pairs(own@).len() == 0);
                return Err(ConfigError::ProfileNotFound(name.to_owned()));
            }
            assert(pairs(own@).len() == own@.len());
            match apply_entries(&mut cfg, own.as_slice()) {
                Ok(done) => {},
                Err(e) => {
                    return Err(e);
                },
            }
        }
        Ok(cfg)
    }
}

/// The names of the sections, as they are written.
pub open spec fn section_names(ls: Seq<Seq<char>>) -> Seq<Seq<char>>
    decreases ls.len(),
{
    if ls.len() == 0 {
        Seq::empty()
    } else {
        let before = section_names(ls.drop_last());
        match classify(ls.last()) {
            LineView::Header(name) => if name.len() > 0 {
                before.push(name)
            } else {
                before
            },
            _ => before,
        }
    }
}

impl Config {
    /// Lists the profiles of the file: the names of its sections, in order.
    pub fn list_profiles(file: &str) -> (r: Vec<String>)
        ensures
            config::strings(r@) == section_names(text::lines(file@)),
    {
        let chars = text::chars_of(file);
        let ls = text::split_lines(chars.as_slice());
        let ghost all = text::texts(ls@);
        let mut out: Vec<String> = Vec::new();
        let mut i: usize = 0;
        assert(all.take(0) =~= Seq::<Seq<char>>::empty());
        assert(config::strings(out@) =~= Seq::<Seq<char>>::empty());
        while i < ls.len()
            invariant
                i <= ls@.len(),
                all == text::texts(ls@),
                config::strings(out@) == section_names(all.take(i as int)),
            decreases ls@.len() - i,
        {
            assert(all.take(i + 1).drop_last() =~= all.take(i as int));
            if let Line::Header(name) = read_line(ls[i].as_slice()) {
                if name.len() > 0 {
                    let ghost before = out@;
                    let s = text::string_of(name.as_slice());
                    out.push(s);
                    assert(config::strings(out@) =~= config::strings(before).push(s@));
                }
            }
            i += 1;
        }
        assert(all.take(i as int) =~= all);
        out
    }
}

/// The line that sets a key.
pub open spec fn written(key: Seq<char>, value: Seq<char>) -> Seq<char> {
    number::padded_right(key, 16) + seq!['=', ' '] + value
}

/// Whether line `i` sets a key in a section.
pub open spec fn sets_key(ls: Seq<Seq<char>>, i: int, section: Seq<char>, key: Seq<char>) -> bool {
    &&& 0 <= i < ls.len()
    &&& section_after(ls.take(i)) == section
    &&& classify(ls[i]) matches LineView::Entry(k, v) && text::lower(k) == text::lower(key)
}

/// The last line that sets a key in a section.
pub open spec fn last_setting(ls: Seq<Seq<char>>, n: int, section: Seq<char>, key: Seq<char>) -> Option<
    int,
>
    decreases n,
{
    if n <= 0 {
        None
    } else if sets_key(ls, n - 1, section, key) {
        Some(n - 1)
    } else {
        last_setting(ls, n - 1, section, key)
    }
}

/// Whether line `i` is the header at which a section ends.
pub open spec fn leaves(ls: Seq<Seq<char>>, i: int, section: Seq<char>) -> bool {
    &&& 0 <= i < ls.len()
    &&& section_after(ls.take(i)) == section
    &&& classify(ls[i]) is Header
}

/// The first line from `i` on at which a section ends, or the number of lines.
pub open spec fn first_leave(ls: Seq<Seq<char>>, i: int, section: Seq<char>) -> int
    decreases ls.len() - i,
{
    if i >= ls.len() {
        ls.len() as int
    } else if leaves(ls, i, section) {
        i
    } else {
        first_leave(ls, i + 1, section)
    }
}

/// Whether line `i` is the header of a section.
pub open spec fn heads(ls: Seq<Seq<char>>, i: int, section: Seq<char>) -> bool {
    &&& 0 <= i < ls.len()
    &&& classify(ls[i]) matches LineView::Header(name) && text::lower(name) == section
}

/// Whether the file has a section. The nameless one is always there.
pub open spec fn has_section(ls: Seq<Seq<char>>, section: Seq<char>) -> bool {
    section.len() == 0 || exists|i: int| heads(ls, i, section)
}

/// The section of a profile, in lower case.
pub open spec fn section_of(profile: Option<Seq<char>>) -> Seq<char> {
    match profile {
        Some(name) => text::lower(name),
        None => Seq::empty(),
    }
}

/// The header of the section of a profile.
pub open spec fn header_of(profile: Option<Seq<char>>) -> Seq<Seq<char>> {
    match profile {
        Some(name) => seq![seq!['['] + name + seq![']']],
        None => Seq::empty(),
    }
}

/// The lines after a key was written: in place where the section sets it, else
/// at the section's end, else in a new section at the end of the file.
pub open spec fn saved_lines(
    ls: Seq<Seq<char>>,
    profile: Option<Seq<char>>,
    key: Seq<char>,
    value: Seq<char>,
) -> Seq<Seq<char>> {
    let section = section_of(profile);
    match last_setting(ls, ls.len() as int, section, key) {
        Some(i) => ls.update(i, written(key, value)),
        None => if has_section(ls, section) {
            ls.insert(first_leave(ls, 0, section), written(key, value))
        } else {
            ls.push(Seq::empty()) + header_of(profile) + seq![written(key, value)]
        },
    }
}

/// The text of a file with these lines.
pub open spec fn file_text(ls: Seq<Seq<char>>) -> Seq<char> {
    let t = text::joined(ls);
    if t.len() > 0 && t.last() == '\n' {
        t
    } else {
        t.push('\n')
    }
}

/// The text that `save_key` starts from: that of the file, or the one that a
/// new file gets.
pub open spec fn text_or_default(file: Option<&str>) -> Seq<char> {
    match file {
        Some(t) => t@,
        None => DEFAULT_CONFIG@,
    }
}

fn write_line(key: &[char], value: &[char]) -> (r: Vec<char>)
    ensures
        r@ == written(key@, value@),
{
    let mut line = number::pad_right(key, 16);
    line.push('=');
    line.push(' ');
    text::extend(&mut line, value);
    assert(line@ =~= written(key@, value@));
    line
}

/// Where a key stands in a file, or where it goes.
struct Place {
    key_line: Option<usize>,
    section_found: bool,
    insert_at: usize,
}

fn find_place(ls: &[Vec<char>], section: &[char], key: &[char]) -> (r: Place)
    ensures
        match r.key_line {
            Some(i) => last_setting(text::texts(ls@), ls@.len() as int, section@, key@) == Some(
                i as int,
            ) && i < ls@.len(),
            None => last_setting(text::texts(ls@), ls@.len() as int, section@, key@) is None,
        },
        r.section_found == has_section(text::texts(ls@), section@),
        r.insert_at == first_leave(text::texts(ls@), 0, section@),
        r.insert_at <= ls@.len(),
{
    let ghost all = text::texts(ls@);
    let low = text::to_lower(key);
    let mut current: Vec<char> = Vec::new();
    let mut key_line: Option<usize> = None;
    let mut section_found = section.len() == 0;
    let mut insert_at: Option<usize> = None;
    let mut i: usize = 0;
    assert(all.take(0) =~= Seq::<Seq<char>>::empty());
    assert(current@ =~= Seq::<char>::empty());
    while i < ls.len()
        invariant
            i <= ls@.len(),
            all == text::texts(ls@),
            low@ == text::lower(key@),
            current@ == section_after(all.take(i as int)),
            match key_line {
                Some(k) => last_setting(all, i as int, section@, key@) == Some(k as int) && k < i,
                None => last_setting(all, i as int, section@, key@) is None,
            },
            section_found == (section@.len() == 0 || exists|k: int|
                k < i && #[trigger] heads(all, k, section@)),
            match insert_at {
                Some(k) => k < i && first_leave(all, 0, section@) == k,
                None => first_leave(all, 0, section@) == first_leave(all, i as int, section@),
            },
        decreases ls@.len() - i,
    {
        let ghost next = all.take(i + 1);
        assert(next.drop_last() =~= all.take(i as int));
        assert(next.last() == ls@[i as int]@);
        assert(all[i as int] == ls@[i as int]@);
        let inside = text::alike(current.as_slice(), section);
        match read_line(ls[i].as_slice()) {
            Line::Header(name) => {
                if inside && insert_at.is_none() {
                    insert_at = Some(i);
                }
                current = text::to_lower(name.as_slice());
                if text::alike(current.as_slice(), section) {
                    section_found = true;
                    assert(heads(all, i as int, section@));
                }
            },
            Line::Entry(k, v) => {
                if inside && text::alike(text::to_lower(k.as_slice()).as_slice(), low.as_slice()) {
                    key_line = Some(i);
                }
            },
            Line::Blank => {},
            Line::Malformed => {},
        }
        i += 1;
    }
    proof {
        if exists|k: int| heads(all, k, section@) {
            let k = choose|k: int| heads(all, k, section@);
            assert(k < i && heads(all, k, section@));
        }
    }
    let at: usize = match insert_at {
        Some(k) => k,
        None => ls.len(),
    };
    Place { key_line, section_found, insert_at: at }
}

/// Writes one key into the text of the file and gives the new text. A profile's
/// key goes into the profile's section, any other above the first section.
pub fn save_key(file: Option<&str>, profile: Option<&str>, key: &str, value: &str) -> (r: String)
    ensures
        r@ == file_text(
            saved_lines(
                text::lines(text_or_default(file)),
                (match profile {
                    Some(p) => Some(p@),
                    None => None,
                }),
                key@,
                value@,
            ),
        ),
{
    let t = match file {
        Some(t) => t,
        None => DEFAULT_CONFIG,
    };
    let chars = text::chars_of(t);
    let mut ls = text::split_lines(chars.as_slice());
    let ghost before = text::texts(ls@);
    let section: Vec<char> = match profile {
        Some(name) => text::to_lower(text::chars_of(name).as_slice()),
        None => Vec::new(),
    };
    let ghost wanted: Option<Seq<char>> = match profile {
        Some(p) => Some(p@),
        None => None,
    };
    assert(section@ =~= section_of(wanted));
    let k = text::chars_of(key);
    let v = text::chars_of(value);
    let place = find_place(ls.as_slice(), section.as_slice(), k.as_slice());
    let line = write_line(k.as_slice(), v.as_slice());
    let ghost l = line@;
    if let Some(i) = place.key_line {
        ls.set(i, line);
        assert(text::texts(ls@) =~= before.update(i as int, l));
    } else if place.section_found {
        ls.insert(place.insert_at, line);
        assert(text::texts(ls@) =~= before.insert(place.insert_at as int, l));
    } else {
        let blank: Vec<char> = Vec::new();
        assert(blank@ =~= Seq::<char>::empty());
        ls.push(blank);
        if let Some(name) = profile {
            let mut header: Vec<char> = Vec::new();
            header.push('[');
            text::extend(&mut header, text::chars_of(name).as_slice());
            header.push(']');
            assert(header@ =~= seq!['['] + name@ + seq![']']);
            ls.push(header);
        }
        ls.push(line);
        assert(text::texts(ls@) =~= before.push(Seq::empty()) + header_of(wanted) + seq![l]);
    }
    let mut out = text::join(ls.as_slice());
    if out.len() == 0 || out[out.len() - 1] != '\n' {
        out.push('\n');
    }
    text::string_of(out.as_slice())
}

} // verus!
