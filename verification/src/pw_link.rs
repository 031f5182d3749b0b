//! Linking ports of the sound server: which ports belong to a source, which to
//! the default sink, and how they are paired.

use vstd::prelude::*;

use crate::config;
use crate::text;

verus! {

/// Whether a port is one of the two front channels of a sink.
pub open spec fn is_front(p: Seq<char>) -> bool {
    text::occurs(p, "playback_FL"@) || text::occurs(p, "playback_FR"@)
}

/// By what a port is chosen.
#[derive(Clone, Copy, Debug, PartialEq, Eq, Structural)]
pub enum Rule {
    /// Its name holds a text.
    Named,
    /// Its name holds a text and it is a front channel.
    Sink,
    /// It is a front channel of a sound card.
    Card,
}

/// Whether a rule chooses a port. The needle is in lower case.
pub open spec fn chosen(p: Seq<char>, rule: Rule, needle: Seq<char>) -> bool {
    match rule {
        Rule::Named => text::occurs(text::lower(p), needle),
        Rule::Sink => text::occurs(text::lower(p), needle) && is_front(p),
        Rule::Card => text::begins(p, "alsa_output"@) && is_front(p),
    }
}

/// The ports that a rule chooses, in order.
pub open spec fn choice(ps: Seq<Seq<char>>, rule: Rule, needle: Seq<char>) -> Seq<Seq<char>>
    decreases ps.len(),
{
    if ps.len() == 0 {
        Seq::empty()
    } else {
        let rest = choice(ps.drop_last(), rule, needle);
        if chosen(ps.last(), rule, needle) {
            rest.push(ps.last())
        } else {
            rest
        }
    }
}

/// The ports that lines list: one a line, with the white space around it cut
/// off, empty lines left out.
pub open spec fn listed(ls: Seq<Seq<char>>) -> Seq<Seq<char>>
    decreases ls.len(),
{
    if ls.len() == 0 {
        Seq::empty()
    } else {
        let rest = listed(ls.drop_last());
        let p = text::trimmed(ls.last());
        if p.len() == 0 {
            rest
        } else {
            rest.push(p)
        }
    }
}

/// Reads the ports out of a listing.
fn ports_of(listing: &str) -> (r: Vec<Vec<char>>)
    ensures
        text::texts(r@) == listed(text::lines(listing@)),
{
    let lines = text::split_lines(text::chars_of(listing).as_slice());
    let ghost ls = text::texts(lines@);
    let mut out: Vec<Vec<char>> = Vec::new();
    let mut i: usize = 0;
    assert(text::texts(out@) =~= listed(ls.take(0)));
    while i < lines.len()
        invariant
            i <= lines@.len(),
            ls == text::texts(lines@),
            text::texts(out@) == listed(ls.take(i as int)),
        decreases lines@.len() - i,
    {
        let p = text::trim(lines[i].as_slice());
        assert(ls.take(i + 1).drop_last() =~= ls.take(i as int));
        if p.len() > 0 {
            let ghost before = out@;
            out.push(vstd::slice::slice_to_vec(p));
            assert(text::texts(out@) =~= text::texts(before).push(p@));
        }
        i += 1;
    }
    assert(ls.take(i as int) =~= ls);
    out
}

fn front(p: &[char]) -> (r: bool)
    ensures
        r == is_front(p@),
{
    text::contains(p, text::chars_of("playback_FL").as_slice()) || text::contains(
        p,
        text::chars_of("playback_FR").as_slice(),
    )
}

fn is_chosen(p: &[char], rule: Rule, needle: &[char]) -> (r: bool)
    ensures
        r == chosen(p@, rule, needle@),
{
    match rule {
        Rule::Named => text::contains(text::to_lower(p).as_slice(), needle),
        Rule::Sink => text::contains(text::to_lower(p).as_slice(), needle) && front(p),
        Rule::Card => text::starts_with(p, text::chars_of("alsa_output").as_slice()) && front(p),
    }
}

fn choose_ports(ports: &[Vec<char>], rule: Rule, needle: &[char]) -> (r: Vec<String>)
    ensures
        config::strings(r@) == choice(text::texts(ports@), rule, needle@),
{
    let ghost ps = text::texts(ports@);
    let mut out: Vec<String> = Vec::new();
    let mut i: usize = 0;
    assert(config::strings(out@) =~= choice(ps.take(0), rule, needle@));
    while i < ports.len()
        invariant
            i <= ports@.len(),
            ps == text::texts(ports@),
            config::strings(out@) == choice(ps.take(i as int), rule, needle@),
        decreases ports@.len() - i,
    {
        assert(ps.take(i + 1).drop_last() =~= ps.take(i as int));
        if is_chosen(ports[i].as_slice(), rule, needle) {
            let ghost before = out@;
            let p = text::string_of(ports[i].as_slice());
            out.push(p);
            assert(config::strings(out@) =~= config::strings(before).push(p@));
        }
        i += 1;
    }
    assert(ps.take(i as int) =~= ps);
    out
}

/// The ports of a listing whose names hold a text, whatever the case.
pub fn pw_find_ports(listing: &str, query: &str) -> (r: Vec<String>)
    ensures
        config::strings(r@) == choice(
            listed(text::lines(listing@)),
            Rule::Named,
            text::lower(query@),
        ),
{
    let ports = ports_of(listing);
    let needle = text::to_lower(text::chars_of(query).as_slice());
    choose_ports(ports.as_slice(), Rule::Named, needle.as_slice())
}

/// The text between the first two quotes of a line; `None` without a quote.
pub open spec fn quoted(line: Seq<char>) -> Option<Seq<char>> {
    let ps = text::pieces(line, '"');
    if ps.len() >= 2 {
        Some(ps[1])
    } else {
        None
    }
}

/// The name of a sink as the session manager describes it: what the first line
/// with `node.name` quotes.
pub open spec fn sink_name(ls: Seq<Seq<char>>) -> Option<Seq<char>>
    decreases ls.len(),
{
    if ls.len() == 0 {
        None
    } else if text::occurs(ls[0], "node.name"@) {
        quoted(ls[0])
    } else {
        sink_name(ls.skip(1))
    }
}

/// Reads the name of a sink out of its description.
pub fn default_sink_name(description: &str) -> (r: Option<String>)
    ensures
        match r {
            Some(s) => sink_name(text::lines(description@)) == Some(s@),
            None => sink_name(text::lines(description@)) is None,
        },
{
    let lines = text::split_lines(text::chars_of(description).as_slice());
    let key = text::chars_of("node.name");
    let ghost ls = text::texts(lines@);
    assert(ls.skip(0) =~= ls);
    let mut i: usize = 0;
    while i < lines.len()
        invariant
            i <= lines@.len(),
            ls == text::texts(lines@),
            ls == text::lines(description@),
            key@ == "node.name"@,
            sink_name(ls) == sink_name(ls.skip(i as int)),
        decreases lines@.len() - i,
    {
        assert(ls.skip(i as int)[0] == lines@[i as int]@);
        assert(ls.skip(i as int).skip(1) =~= ls.skip(i + 1));
        if text::contains(lines[i].as_slice(), key.as_slice()) {
            let ps = text::split(lines[i].as_slice(), '"');
            assert(text::texts(ps@).len() == ps@.len());
            if ps.len() >= 2 {
                assert(text::texts(ps@)[1] == ps@[1]@);
                return Some(text::string_of(ps[1].as_slice()));
            }
            return None;
        }
        i += 1;
    }
    None
}

/// The front ports of a sink: those of the named one, else those of the sound
/// cards.
pub open spec fn sink_ports(ps: Seq<Seq<char>>, sink: Option<Seq<char>>) -> Seq<Seq<char>> {
    match sink {
        Some(name) if choice(ps, Rule::Sink, text::lower(name)).len() > 0 => {
            choice(ps, Rule::Sink, text::lower(name))
        },
        _ => choice(ps, Rule::Card, Seq::empty()),
    }
}

/// Chooses the front ports of the default sink among those of a listing.
pub fn pw_default_sink_ports(listing: &str, sink: Option<&str>) -> (r: Vec<String>)
    ensures
        config::strings(r@) == sink_ports(
            listed(text::lines(listing@)),
            match sink {
                Some(s) => Some(s@),
                None => None,
            },
        ),
{
    let ports = ports_of(listing);
    if let Some(name) = sink {
        let needle = text::to_lower(text::chars_of(name).as_slice());
        let found = choose_ports(ports.as_slice(), Rule::Sink, needle.as_slice());
        assert(config::strings(found@).len() == found@.len());
        if found.len() > 0 {
            return found;
        }
    }
    let none: Vec<char> = Vec::new();
    assert(none@ =~= Seq::empty());
    choose_ports(ports.as_slice(), Rule::Card, none.as_slice())
}

/// Why no link can be made.
#[derive(Clone, Copy, Debug, PartialEq, Eq, Structural)]
pub enum LinkError {
    NoSourcePorts,
    NoSinkPorts,
}

/// Ports of a source and of a sink that are linked in pairs.
pub struct PwLinkState {
    pub source_ports: Vec<String>,
    pub sink_ports: Vec<String>,
    pub linked: bool,
}

impl PwLinkState {
    /// How many pairs there are: as many as the side with fewer ports has.
    pub open spec fn pair_count(&self) -> nat {
        if self.source_ports@.len() <= self.sink_ports@.len() {
            self.source_ports@.len()
        } else {
            self.sink_ports@.len()
        }
    }

    /// Pairs ports, with nothing linked yet. Both sides need a port.
    pub fn start(source_ports: Vec<String>, sink_ports: Vec<String>) -> (r: Result<
        PwLinkState,
        LinkError,
    >)
        ensures
            match r {
                Ok(s) => source_ports@.len() > 0 && sink_ports@.len() > 0 && s == (PwLinkState {
                    source_ports,
                    sink_ports,
                    linked: false,
                }),
                Err(LinkError::NoSourcePorts) => source_ports@.len() == 0,
                Err(LinkError::NoSinkPorts) => source_ports@.len() > 0 && sink_ports@.len() == 0,
            },
    {
        if source_ports.len() == 0 {
            Err(LinkError::NoSourcePorts)
        } else if sink_ports.len() == 0 {
            Err(LinkError::NoSinkPorts)
        } else {
            Ok(PwLinkState { source_ports, sink_ports, linked: false })
        }
    }

    fn pairs(&self) -> (r: usize)
        ensures
            r == self.pair_count(),
    {
        if self.source_ports.len() <= self.sink_ports.len() {
            self.source_ports.len()
        } else {
            self.sink_ports.len()
        }
    }

    /// How many pairs, from the first, are to be linked now: none where they
    /// already are.
    pub fn to_link(&self) -> (r: usize)
        ensures
            r == (if self.linked {
                0
            } else {
                self.pair_count()
            }),
    {
        if self.linked {
            0
        } else {
            self.pairs()
        }
    }

    /// Notes that linking was tried; it counts as done where every command could
    /// be started.
    pub fn link(&mut self, started: bool)
        ensures
            final(self).source_ports == old(self).source_ports,
            final(self).sink_ports == old(self).sink_ports,
            final(self).linked == (old(self).linked || started),
    {
        if started {
            self.linked = true;
        }
    }

    /// Breaks the links and tells how many pairs, from the first, are to be
    /// parted: none where they are not linked.
    pub fn unlink(&mut self) -> (r: usize)
        ensures
            r == (if old(self).linked {
                old(self).pair_count()
            } else {
                0
            }),
            final(self).source_ports == old(self).source_ports,
            final(self).sink_ports == old(self).sink_ports,
            !final(self).linked,
    {
        if self.linked {
            let n: usize = self.pairs();
            self.linked = false;
            n
        } else {
            0
        }
    }
}

/// Whether what a failed link command wrote is worth telling: it is unless the
/// ports were linked already.
pub fn worth_telling(stderr: &str) -> (r: bool)
    ensures
        r == !text::occurs(stderr@, "already linked"@),
{
    !text::contains(
        text::chars_of(stderr).as_slice(),
        text::chars_of("already linked").as_slice(),
    )
}

/// The choice holds a port exactly where the listing has it and the rule chooses
/// it.
pub proof fn law_choice_is_listed(ps: Seq<Seq<char>>, rule: Rule, needle: Seq<char>)
    ensures
        choice(ps, rule, needle).len() <= ps.len(),
        forall|i: int|
            0 <= i < choice(ps, rule, needle).len() ==> {
                let p = #[trigger] choice(ps, rule, needle)[i];
                ps.contains(p) && chosen(p, rule, needle)
            },
        forall|k: int|
            0 <= k < ps.len() && chosen(#[trigger] ps[k], rule, needle) ==> choice(
                ps,
                rule,
                needle,
            ).contains(ps[k]),
    decreases ps.len(),
{
    if ps.len() > 0 {
        let front = ps.drop_last();
        let sub = choice(front, rule, needle);
        let all = choice(ps, rule, needle);
        law_choice_is_listed(front, rule, needle);
        assert forall|i: int| 0 <= i < all.len() implies {
            let p = #[trigger] all[i];
            ps.contains(p) && chosen(p, rule, needle)
        } by {
            if i < sub.len() {
                assert(all[i] == sub[i]);
                let k = choose|k: int| 0 <= k < front.len() && front[k] == sub[i];
                assert(ps[k] == sub[i]);
            } else {
                assert(ps[ps.len() - 1] == all[i]);
            }
        }
        assert forall|k: int|
            0 <= k < ps.len() && chosen(#[trigger] ps[k], rule, needle) implies all.contains(
            ps[k],
        ) by {
            if k < front.len() {
                assert(front[k] == ps[k]);
                let i = choose|i: int| 0 <= i < sub.len() && sub[i] == ps[k];
                assert(all[i] == ps[k]);
            } else {
                assert(all[all.len() - 1] == ps[k]);
            }
        }
    }
}

} // verus!
