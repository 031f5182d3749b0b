//! What is worth telling about the configuration file: lines that mean nothing and
//! words that are not known. None of it stops the file from being read.

use vstd::prelude::*;

use crate::config::{self, Config, ConfigView, Outcome, Platform};
use crate::config_file::{self, Line, LineView};
use crate::number;
use crate::text;

verus! {

/// Why something is worth telling.
#[derive(Clone, Copy, Debug, PartialEq, Eq, Structural)]
pub enum Cause {
    /// The line is neither a header nor sets a key.
    Malformed,
    Key,
    Format,
    Window,
    RecordResolution,
    ScreenshotFormat,
    Renderer,
    PresentMode,
    /// Four parts that are not all numbers of a byte.
    Address,
    /// Not four parts.
    AddressParts,
    /// One name in the list of priority flags.
    PriorityFlag,
}

/// One thing worth telling.
pub struct Warning {
    /// The line, counted from 1.
    pub line: usize,
    pub cause: Cause,
    /// The word that is not known; nothing for a line that means nothing.
    pub word: String,
}

/// What a warning holds.
#[verifier::ext_equal]
pub struct WarningView {
    pub line: nat,
    pub cause: Cause,
    pub word: Seq<char>,
}

impl View for Warning {
    type V = WarningView;

    open spec fn view(&self) -> WarningView {
        WarningView { line: self.line as nat, cause: self.cause, word: self.word@ }
    }
}

/// What a list of warnings holds.
pub open spec fn views(v: Seq<Warning>) -> Seq<WarningView> {
    v.map_values(|w: Warning| w@)
}

/// Whether a pixel format, in lower case, is known.
pub open spec fn format_known(low: Seq<char>) -> bool {
    low == "nv12"@ || low == "yuyv"@ || low == "yuy2"@ || low == "uyvy"@ || low == "xrgb"@ || low
        == "rgbx"@ || low == "bgrx"@ || low == "p010"@ || low == "mjpeg"@ || low == "mjpg"@
}

/// Whether a resolution of recordings, in lower case, is known.
pub open spec fn resolution_known(low: Seq<char>) -> bool {
    low == "native"@ || low == "full"@ || low == "window"@ || low == "win"@
}

/// Whether a format of screenshots, in lower case, is known.
pub open spec fn screenshot_known(low: Seq<char>) -> bool {
    low == "png"@ || low == "jpeg"@ || low == "jpg"@
}

/// Whether a renderer, in lower case, is known.
pub open spec fn renderer_known(low: Seq<char>) -> bool {
    low == "sdl"@ || low == "sdl2"@ || low == "gl"@ || low == "opengl"@ || low == "vk"@ || low
        == "vulkan"@
}

/// Whether a present mode, in lower case, is known.
pub open spec fn present_known(low: Seq<char>) -> bool {
    low == "mailbox"@ || low == "immediate"@ || low == "fifo"@ || low == "vsync"@
}

/// Whether a value of the `priority` key stands for all flags or for none.
pub open spec fn is_whole_priority(low: Seq<char>) -> bool {
    low == "all"@ || low == "true"@ || low == "1"@ || low == "yes"@ || low == "none"@ || low
        == "false"@ || low == "0"@ || low == "no"@ || low == "off"@
}

/// A warning where something is not known.
pub open spec fn unless(known: bool, line: nat, cause: Cause, word: Seq<char>) -> Seq<WarningView> {
    if known {
        Seq::empty()
    } else {
        seq![WarningView { line, cause, word }]
    }
}

/// The names in a list of priority flags that are not known, in order.
pub open spec fn strange_flags(line: nat, names: Seq<Seq<char>>) -> Seq<WarningView>
    decreases names.len(),
{
    if names.len() == 0 {
        Seq::empty()
    } else {
        let name = text::trimmed(names.last());
        strange_flags(line, names.drop_last()) + unless(
            config::flag_bits(name) != 0,
            line,
            Cause::PriorityFlag,
            name,
        )
    }
}

/// What is worth telling about the value of a key that is known.
pub open spec fn remarks(line: nat, key: Seq<char>, val: Seq<char>) -> Seq<WarningView> {
    let low = text::lower(val);
    if key == "format"@ {
        unless(format_known(low), line, Cause::Format, val)
    } else if key == "window"@ {
        unless(config::window_size(val) is Some, line, Cause::Window, val)
    } else if key == "record_resolution"@ || key == "record_res"@ {
        unless(resolution_known(low), line, Cause::RecordResolution, val)
    } else if key == "screenshot_format"@ || key == "screenshot_fmt"@ {
        unless(screenshot_known(low), line, Cause::ScreenshotFormat, val)
    } else if key == "renderer"@ || key == "render_backend"@ {
        unless(renderer_known(low), line, Cause::Renderer, val)
    } else if key == "vk_present_mode"@ || key == "present_mode"@ {
        unless(present_known(low), line, Cause::PresentMode, val)
    } else if key == "stream_client_ip"@ {
        if text::pieces(val, '.').len() == 4 {
            unless(config::address(val) is Some, line, Cause::Address, val)
        } else {
            unless(false, line, Cause::AddressParts, val)
        }
    } else if key == "priority"@ {
        let flags = text::lower(text::trimmed(val));
        if is_whole_priority(flags) {
            Seq::empty()
        } else {
            strange_flags(line, text::pieces(flags, ','))
        }
    } else {
        Seq::empty()
    }
}

/// A key of a line, in lower case, and its value.
pub struct NumberedView {
    pub line: nat,
    pub key: Seq<char>,
    pub value: Seq<char>,
}

/// The keys and values that a section sets, in order, with their lines.
pub open spec fn numbered(ls: Seq<Seq<char>>, section: Seq<char>) -> Seq<NumberedView>
    decreases ls.len(),
{
    if ls.len() == 0 {
        Seq::empty()
    } else {
        let before = numbered(ls.drop_last(), section);
        match config_file::classify(ls.last()) {
            LineView::Entry(k, v) => if config_file::section_after(ls.drop_last()) == section {
                before.push(NumberedView { line: ls.len(), key: text::lower(k), value: v })
            } else {
                before
            },
            _ => before,
        }
    }
}

/// The settings after keys were applied in order; `None` where one could not be.
pub open spec fn settled(c: ConfigView, es: Seq<NumberedView>) -> Option<ConfigView>
    decreases es.len(),
{
    if es.len() == 0 {
        Some(c)
    } else {
        match settled(c, es.drop_last()) {
            Some(d) => config::applied(d, es.last().key, es.last().value),
            None => None,
        }
    }
}

/// What is worth telling about one key and its value.
pub open spec fn remarked(c: ConfigView, e: NumberedView) -> Seq<WarningView> {
    match config::outcome(c, e.key, e.value) {
        Outcome::Unknown => unless(false, e.line, Cause::Key, e.key),
        Outcome::Invalid => Seq::empty(),
        Outcome::Done(_) => remarks(e.line, e.key, e.value),
    }
}

/// What is worth telling about keys, up to the first that cannot be applied.
pub open spec fn all_remarked(c: ConfigView, es: Seq<NumberedView>) -> Seq<WarningView>
    decreases es.len(),
{
    if es.len() == 0 {
        Seq::empty()
    } else {
        let before = all_remarked(c, es.drop_last());
        match settled(c, es.drop_last()) {
            Some(d) => before + remarked(d, es.last()),
            None => before,
        }
    }
}

/// The lines that mean nothing, in order.
pub open spec fn malformed(ls: Seq<Seq<char>>) -> Seq<WarningView>
    decreases ls.len(),
{
    if ls.len() == 0 {
        Seq::empty()
    } else {
        malformed(ls.drop_last()) + unless(
            config_file::classify(ls.last()) !is Malformed,
            ls.len(),
            Cause::Malformed,
            Seq::empty(),
        )
    }
}

/// All that is worth telling when a file is read for a profile: first the lines
/// that mean nothing, then what the keys for every run have, then what those of the
/// profile have.
pub open spec fn warned(
    platform: Platform,
    ls: Seq<Seq<char>>,
    profile: Option<Seq<char>>,
) -> Seq<WarningView> {
    let c = config::defaults(platform);
    let globals = numbered(ls, Seq::empty());
    malformed(ls) + all_remarked(c, globals) + (match (settled(c, globals), profile) {
        (Some(d), Some(name)) => all_remarked(d, numbered(ls, text::lower(name))),
        _ => Seq::empty(),
    })
}

fn push_unless(out: &mut Vec<Warning>, known: bool, line: usize, cause: Cause, word: &[char])
    ensures
        views(final(out)@) == views(old(out)@) + unless(known, line as nat, cause, word@),
{
    let ghost before = views(out@);
    if !known {
        let w = Warning { line, cause, word: text::string_of(word) };
        out.push(w);
        assert(views(out@) =~= before + unless(known, line as nat, cause, word@));
    } else {
        assert(before + unless(known, line as nat, cause, word@) =~= before);
    }
}

fn know_format(low: &[char]) -> (r: bool)
    ensures
        r == format_known(low@),
{
    text::spells(low, "nv12") || text::spells(low, "yuyv") || text::spells(low, "yuy2")
        || text::spells(low, "uyvy") || text::spells(low, "xrgb") || text::spells(low, "rgbx")
        || text::spells(low, "bgrx") || text::spells(low, "p010") || text::spells(low, "mjpeg")
        || text::spells(low, "mjpg")
}

fn know_renderer(low: &[char]) -> (r: bool)
    ensures
        r == renderer_known(low@),
{
    text::spells(low, "sdl") || text::spells(low, "sdl2") || text::spells(low, "gl")
        || text::spells(low, "opengl") || text::spells(low, "vk") || text::spells(low, "vulkan")
}

fn know_resolution(low: &[char]) -> (r: bool)
    ensures
        r == resolution_known(low@),
{
    text::spells(low, "native") || text::spells(low, "full") || text::spells(low, "window")
        || text::spells(low, "win")
}

fn know_screenshot(low: &[char]) -> (r: bool)
    ensures
        r == screenshot_known(low@),
{
    text::spells(low, "png") || text::spells(low, "jpeg") || text::spells(low, "jpg")
}

fn know_present(low: &[char]) -> (r: bool)
    ensures
        r == present_known(low@),
{
    text::spells(low, "mailbox") || text::spells(low, "immediate") || text::spells(low, "fifo")
        || text::spells(low, "vsync")
}

fn push_flags(out: &mut Vec<Warning>, line: usize, val: &[char])
    ensures
        views(final(out)@) == views(old(out)@) + (if is_whole_priority(
            text::lower(text::trimmed(val@)),
        ) {
            Seq::empty()
        } else {
            strange_flags(
                line as nat,
                text::pieces(text::lower(text::trimmed(val@)), ','),
            )
        }),
{
    let ghost before = views(out@);
    assert(before + Seq::<WarningView>::empty() =~= before);
    let flags = text::to_lower(text::trim(val));
    let s = flags.as_slice();
    if text::spells(s, "all") || text::spells(s, "true") || text::spells(s, "1") || text::spells(
        s,
        "yes",
    ) || text::spells(s, "none") || text::spells(s, "false") || text::spells(s, "0")
        || text::spells(s, "no") || text::spells(s, "off") {
        return ;
    }
    let names = text::split(s, ',');
    let ghost all = text::texts(names@);
    let mut i: usize = 0;
    assert(all.take(0) =~= Seq::<Seq<char>>::empty());
    while i < names.len()
        invariant
            i <= names@.len(),
            all == text::texts(names@),
            views(out@) == before + strange_flags(line as nat, all.take(i as int)),
        decreases names@.len() - i,
    {
        assert(all.take(i + 1).drop_last() =~= all.take(i as int));
        assert(all.take(i + 1).last() == names@[i as int]@);
        let name = text::trim(names[i].as_slice());
        let known = config::flag_of(name) != 0;
        push_unless(out, known, line, Cause::PriorityFlag, name);
        i += 1;
        assert(views(out@) =~= before + strange_flags(line as nat, all.take(i as int)));
    }
    assert(all.take(i as int) =~= all);
}

/// Tells what is worth telling about the value of a key that is known.
fn push_remarks(out: &mut Vec<Warning>, line: usize, key: &str, val: &str)
    ensures
        views(final(out)@) == views(old(out)@) + remarks(line as nat, key@, val@),
{
    let c = text::chars_of(val);
    let v = c.as_slice();
    let lowered = text::to_lower(v);
    let low = lowered.as_slice();
    if text::same(key, "format") {
        push_unless(out, know_format(low), line, Cause::Format, v);
    } else if text::same(key, "window") {
        push_unless(out, config::read_window(v).is_some(), line, Cause::Window, v);
    } else if text::same(key, "record_resolution") || text::same(key, "record_res") {
        push_unless(out, know_resolution(low), line, Cause::RecordResolution, v);
    } else if text::same(key, "screenshot_format") || text::same(key, "screenshot_fmt") {
        push_unless(out, know_screenshot(low), line, Cause::ScreenshotFormat, v);
    } else if text::same(key, "renderer") || text::same(key, "render_backend") {
        push_unless(out, know_renderer(low), line, Cause::Renderer, v);
    } else if text::same(key, "vk_present_mode") || text::same(key, "present_mode") {
        push_unless(out, know_present(low), line, Cause::PresentMode, v);
    } else if text::same(key, "stream_client_ip") {
        let parts = text::split(v, '.');
        assert(text::texts(parts@).len() == parts@.len());
        if parts.len() == 4 {
            push_unless(out, config::read_address(v).is_some(), line, Cause::Address, v);
        } else {
            push_unless(out, false, line, Cause::AddressParts, v);
        }
    } else if text::same(key, "priority") {
        push_flags(out, line, v);
    } else {
        assert(views(out@) + Seq::<WarningView>::empty() =~= views(out@));
    }
}

/// A key of a line, in lower case, and its value.
struct Numbered {
    line: usize,
    key: String,
    value: String,
}

spec fn numbered_views(v: Seq<Numbered>) -> Seq<NumberedView> {
    v.map_values(
        |e: Numbered| NumberedView { line: e.line as nat, key: e.key@, value: e.value@ },
    )
}

fn number_entries(ls: &[Vec<char>], section: &[char]) -> (r: Vec<Numbered>)
    ensures
        numbered_views(r@) == numbered(text::texts(ls@), section@),
{
    let ghost all = text::texts(ls@);
    let mut out: Vec<Numbered> = Vec::new();
    let mut current: Vec<char> = Vec::new();
    let mut i: usize = 0;
    assert(all.take(0) =~= Seq::<Seq<char>>::empty());
    assert(numbered_views(out@) =~= Seq::<NumberedView>::empty());
    assert(current@ =~= Seq::<char>::empty());
    while i < ls.len()
        invariant
            i <= ls@.len(),
            all == text::texts(ls@),
            current@ == config_file::section_after(all.take(i as int)),
            numbered_views(out@) == numbered(all.take(i as int), section@),
        decreases ls@.len() - i,
    {
        let ghost next = all.take(i + 1);
        assert(next.drop_last() =~= all.take(i as int));
        assert(next.last() == ls@[i as int]@);
        match config_file::read_line(ls[i].as_slice()) {
            Line::Header(name) => {
                current = text::to_lower(name.as_slice());
            },
            Line::Entry(k, v) => {
                if text::alike(current.as_slice(), section) {
                    let ghost before = out@;
                    let low = text::to_lower(k.as_slice());
                    let e = Numbered {
                        line: i + 1,
                        key: text::string_of(low.as_slice()),
                        value: text::string_of(v.as_slice()),
                    };
                    out.push(e);
                    assert(numbered_views(out@) =~= numbered_views(before).push(
                        NumberedView { line: next.len(), key: e.key@, value: e.value@ },
                    ));
                }
            },
            Line::Blank => {},
            Line::Malformed => {},
        }
        i += 1;
    }
    assert(all.take(i as int) =~= all);
    out
}

fn push_malformed(out: &mut Vec<Warning>, ls: &[Vec<char>])
    ensures
        views(final(out)@) == views(old(out)@) + malformed(text::texts(ls@)),
{
    let ghost all = text::texts(ls@);
    let ghost before = views(out@);
    let nothing: Vec<char> = Vec::new();
    let mut i: usize = 0;
    assert(nothing@ =~= Seq::<char>::empty());
    assert(all.take(0) =~= Seq::<Seq<char>>::empty());
    assert(before + malformed(all.take(0)) =~= before);
    while i < ls.len()
        invariant
            i <= ls@.len(),
            all == text::texts(ls@),
            nothing@ == Seq::<char>::empty(),
            views(out@) == before + malformed(all.take(i as int)),
        decreases ls@.len() - i,
    {
        assert(all.take(i + 1).drop_last() =~= all.take(i as int));
        assert(all.take(i + 1).last() == ls@[i as int]@);
        let means = match config_file::read_line(ls[i].as_slice()) {
            Line::Malformed => false,
            _ => true,
        };
        push_unless(out, means, i + 1, Cause::Malformed, nothing.as_slice());
        i += 1;
        assert(views(out@) =~= before + malformed(all.take(i as int)));
    }
    assert(all.take(i as int) =~= all);
}

proof fn lemma_unsettled(c: ConfigView, es: Seq<NumberedView>, n: int)
    requires
        0 <= n <= es.len(),
        settled(c, es.take(n)) is None,
    ensures
        settled(c, es) is None,
        all_remarked(c, es) == all_remarked(c, es.take(n)),
    decreases es.len() - n,
{
    if n < es.len() {
        assert(es.take(n + 1).drop_last() =~= es.take(n));
        lemma_unsettled(c, es, n + 1);
    } else {
        assert(es.take(n) =~= es);
    }
}

/// Applies keys in order, telling what is worth telling, and says whether all could
/// be applied.
fn push_remarked(out: &mut Vec<Warning>, cfg: &mut Config, es: &[Numbered]) -> (r: bool)
    ensures
        views(final(out)@) == views(old(out)@) + all_remarked(
            old(cfg).state(),
            numbered_views(es@),
        ),
        match settled(old(cfg).state(), numbered_views(es@)) {
            Some(d) => r && final(cfg).state() == d,
            None => !r,
        },
{
    let ghost all = numbered_views(es@);
    let ghost start = cfg.state();
    let ghost before = views(out@);
    let mut i: usize = 0;
    assert(all.take(0) =~= Seq::<NumberedView>::empty());
    assert(before + all_remarked(start, all.take(0)) =~= before);
    while i < es.len()
        invariant
            i <= es@.len(),
            all == numbered_views(es@),
            start == old(cfg).state(),
            before == views(old(out)@),
            settled(start, all.take(i as int)) == Some(cfg.state()),
            views(out@) == before + all_remarked(start, all.take(i as int)),
        decreases es@.len() - i,
    {
        let ghost next = all.take(i + 1);
        let ghost now = cfg.state();
        let ghost so_far = views(out@);
        assert(next.drop_last() =~= all.take(i as int));
        let e = &es[i];
        assert(next.last() == (NumberedView {
            line: e.line as nat,
            key: e.key@,
            value: e.value@,
        }));
        assert(all_remarked(start, next) == all_remarked(start, all.take(i as int)) + remarked(
            now,
            next.last(),
        ));
        match config::apply_key(cfg, e.key.as_str(), e.value.as_str()) {
            Ok(known) => {
                if known {
                    push_remarks(out, e.line, e.key.as_str(), e.value.as_str());
                } else {
                    let key = text::chars_of(e.key.as_str());
                    push_unless(out, false, e.line, Cause::Key, key.as_slice());
                }
            },
            Err(_) => {
                proof {
                    assert(remarked(now, next.last()) =~= Seq::<WarningView>::empty());
                    assert(so_far =~= before + all_remarked(start, next));
                    lemma_unsettled(start, all, i + 1);
                }
                return false;
            },
        }
        assert(views(out@) == so_far + remarked(now, next.last()));
        i += 1;
        assert(views(out@) =~= before + all_remarked(start, all.take(i as int)));
    }
    assert(all.take(i as int) =~= all);
    true
}

/// Collects all that is worth telling when a file is read for a profile.
pub fn warnings(platform: Platform, file: &str, profile: Option<&str>) -> (r: Vec<Warning>)
    ensures
        views(r@) == warned(
            platform,
            text::lines(file@),
            match profile {
                Some(p) => Some(p@),
                None => None,
            },
        ),
{
    let mut out: Vec<Warning> = Vec::new();
    assert(views(out@) =~= Seq::<WarningView>::empty());
    let chars = text::chars_of(file);
    let ls = text::split_lines(chars.as_slice());
    let ghost all = text::texts(ls@);
    push_malformed(&mut out, ls.as_slice());
    assert(views(out@) =~= malformed(all));
    let mut cfg = Config::defaults(platform);
    assert(cfg@ == cfg.state()) by {
        reveal(Config::state);
    }
    let none: Vec<char> = Vec::new();
    assert(none@ =~= Seq::<char>::empty());
    let globals = number_entries(ls.as_slice(), none.as_slice());
    let settled_so_far = push_remarked(&mut out, &mut cfg, globals.as_slice());
    let ghost two = views(out@);
    assert(two + Seq::<WarningView>::empty() =~= two);
    if let Some(name) = profile {
        if settled_so_far {
            let c = text::chars_of(name);
            let low = text::to_lower(c.as_slice());
            let own = number_entries(ls.as_slice(), low.as_slice());
            let _ = push_remarked(&mut out, &mut cfg, own.as_slice());
        }
    }
    out
}

/// What stands before and behind the word in the text of a warning.
pub open spec fn phrase(cause: Cause) -> (Seq<char>, Seq<char>) {
    match cause {
        Cause::Malformed => ("malformed line"@, ""@),
        Cause::Key => ("unknown key '"@, "'"@),
        Cause::Format => ("unknown format '"@, "'"@),
        Cause::Window => ("bad window size '"@, "' (want WxH)"@),
        Cause::RecordResolution => ("unknown record_resolution '"@, "' (native|window)"@),
        Cause::ScreenshotFormat => ("unknown screenshot_format '"@, "' (png|jpeg)"@),
        Cause::Renderer => ("unknown renderer '"@, "' (sdl|opengl|vulkan)"@),
        Cause::PresentMode => ("unknown present mode '"@, "' (mailbox|immediate|fifo)"@),
        Cause::Address => ("bad stream_client_ip '"@, "'"@),
        Cause::AddressParts => ("bad stream_client_ip '"@, "' (want A.B.C.D)"@),
        Cause::PriorityFlag => ("unknown priority flag '"@, "'"@),
    }
}

/// The text of a warning: the file and the line, but for a priority flag the
/// program, and what is wrong.
pub open spec fn message_of(w: WarningView) -> Seq<char> {
    (if w.cause == Cause::PriorityFlag {
        "capview: "@
    } else {
        "capview.conf:"@ + number::decimal(w.line) + ": "@
    }) + phrase(w.cause).0 + w.word + phrase(w.cause).1
}

fn words_of(cause: Cause) -> (r: (&'static str, &'static str))
    ensures
        (r.0@, r.1@) == phrase(cause),
{
    match cause {
        Cause::Malformed => ("malformed line", ""),
        Cause::Key => ("unknown key '", "'"),
        Cause::Format => ("unknown format '", "'"),
        Cause::Window => ("bad window size '", "' (want WxH)"),
        Cause::RecordResolution => ("unknown record_resolution '", "' (native|window)"),
        Cause::ScreenshotFormat => ("unknown screenshot_format '", "' (png|jpeg)"),
        Cause::Renderer => ("unknown renderer '", "' (sdl|opengl|vulkan)"),
        Cause::PresentMode => ("unknown present mode '", "' (mailbox|immediate|fifo)"),
        Cause::Address => ("bad stream_client_ip '", "'"),
        Cause::AddressParts => ("bad stream_client_ip '", "' (want A.B.C.D)"),
        Cause::PriorityFlag => ("unknown priority flag '", "'"),
    }
}

impl Warning {
    /// The text of the warning.
    pub fn message(&self) -> (r: String)
        ensures
            r@ == message_of(self@),
    {
        let mut out: Vec<char> = match self.cause {
            Cause::PriorityFlag => text::chars_of("capview: "),
            _ => {
                let mut head = text::chars_of("capview.conf:");
                text::extend(&mut head, number::to_decimal(self.line as u64).as_slice());
                text::extend(&mut head, text::chars_of(": ").as_slice());
                head
            },
        };
        let words = words_of(self.cause);
        text::extend(&mut out, text::chars_of(words.0).as_slice());
        text::extend(&mut out, text::chars_of(self.word.as_str()).as_slice());
        text::extend(&mut out, text::chars_of(words.1).as_slice());
        text::string_of(out.as_slice())
    }
}

proof fn lemma_numbered(ls: Seq<Seq<char>>, section: Seq<char>)
    ensures
        numbered(ls, section).map_values(|e: NumberedView| (e.key, e.value)) == config_file::entries(
            ls,
            section,
        ),
    decreases ls.len(),
{
    if ls.len() > 0 {
        lemma_numbered(ls.drop_last(), section);
    }
    assert(numbered(ls, section).map_values(|e: NumberedView| (e.key, e.value))
        =~= config_file::entries(ls, section));
}

proof fn lemma_settled(c: ConfigView, es: Seq<NumberedView>)
    ensures
        settled(c, es) == (match config_file::apply_all(
            c,
            es.map_values(|e: NumberedView| (e.key, e.value)),
        ) {
            Ok(d) => Some(d),
            Err(_) => None,
        }),
    decreases es.len(),
{
    let f = |e: NumberedView| (e.key, e.value);
    if es.len() > 0 {
        lemma_settled(c, es.drop_last());
        assert(es.drop_last().map_values(f) =~= es.map_values(f).drop_last());
    }
}

/// Warnings go with what the file comes to: keys are looked at with the settings
/// that reading the file gives them, and as far as it is read.
pub proof fn law_warnings_go_with_the_settings(c: ConfigView, ls: Seq<Seq<char>>, section: Seq<char>)
    ensures
        settled(c, numbered(ls, section)) == (match config_file::apply_all(
            c,
            config_file::entries(ls, section),
        ) {
            Ok(d) => Some(d),
            Err(_) => None,
        }),
{
    lemma_numbered(ls, section);
    lemma_settled(c, numbered(ls, section));
}

proof fn lemma_lines_of_malformed(ls: Seq<Seq<char>>, i: int)
    requires
        0 <= i < malformed(ls).len(),
    ensures
        1 <= malformed(ls)[i].line <= ls.len(),
        malformed(ls)[i].cause == Cause::Malformed,
        config_file::classify(ls[malformed(ls)[i].line - 1]) is Malformed,
    decreases ls.len(),
{
    if ls.len() > 0 {
        let front = ls.drop_last();
        if i < malformed(front).len() {
            lemma_lines_of_malformed(front, i);
        }
    }
}

/// What is said to mean nothing is a line of the file that means nothing, and every
/// such line is named.
pub proof fn law_malformed_lines_are_named(ls: Seq<Seq<char>>, n: int)
    requires
        0 <= n < ls.len(),
    ensures
        forall|i: int|
            0 <= i < malformed(ls).len() ==> (1 <= (#[trigger] malformed(ls)[i]).line <= ls.len()
                && config_file::classify(ls[malformed(ls)[i].line - 1]) is Malformed),
        config_file::classify(ls[n]) is Malformed ==> exists|i: int|
            0 <= i < malformed(ls).len() && (#[trigger] malformed(ls)[i]).line == n + 1,
    decreases ls.len(),
{
    assert forall|i: int| 0 <= i < malformed(ls).len() implies 1 <= (
    #[trigger] malformed(ls)[i]).line <= ls.len() && config_file::classify(
        ls[malformed(ls)[i].line - 1],
    ) is Malformed by {
        lemma_lines_of_malformed(ls, i);
    }
    if config_file::classify(ls[n]) is Malformed {
        let front = ls.drop_last();
        if n == ls.len() - 1 {
            let k = malformed(front).len() as int;
            assert(malformed(ls)[k].line == n + 1);
        } else {
            law_malformed_lines_are_named(front, n);
            let k = choose|i: int|
                0 <= i < malformed(front).len() && (#[trigger] malformed(front)[i]).line == n + 1;
            assert(malformed(ls)[k] == malformed(front)[k]);
        }
    }
}

} // verus!
