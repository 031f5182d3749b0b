//! What reading and writing the configuration file promise together.

use vstd::prelude::*;

use crate::config::{self, ConfigView, Platform};
use crate::config_file::{self, LineView, Loaded};
use crate::number;
use crate::text;

verus! {

/// Whether a text is free of line feeds.
pub open spec fn one_line(s: Seq<char>) -> bool {
    forall|i: int| 0 <= i < s.len() ==> #[trigger] s[i] != '\n'
}

/// Whether every line is free of line feeds.
pub open spec fn all_one_line(ls: Seq<Seq<char>>) -> bool {
    forall|i: int| 0 <= i < ls.len() ==> one_line(#[trigger] ls[i])
}

/// The given lines, each with a line feed behind it.
spec fn terminated(ls: Seq<Seq<char>>) -> Seq<char>
    decreases ls.len(),
{
    if ls.len() == 0 {
        Seq::empty()
    } else {
        ls[0] + seq!['\n'] + terminated(ls.drop_first())
    }
}

proof fn lemma_terminated_last(ls: Seq<Seq<char>>)
    requires
        ls.len() > 0,
    ensures
        terminated(ls) == terminated(ls.drop_last()) + ls.last() + seq!['\n'],
    decreases ls.len(),
{
    if ls.len() == 1 {
        assert(ls.drop_first() =~= Seq::<Seq<char>>::empty());
        assert(ls.drop_last() =~= Seq::<Seq<char>>::empty());
        assert(terminated(ls.drop_first()) =~= Seq::<char>::empty());
        assert(terminated(ls) =~= terminated(ls.drop_last()) + ls.last() + seq!['\n']);
    } else {
        lemma_terminated_last(ls.drop_first());
        assert(ls.drop_first().drop_last() =~= ls.drop_last().drop_first());
        assert(ls.drop_first().last() == ls.last());
        assert(ls.drop_last()[0] == ls[0]);
        assert(terminated(ls) =~= terminated(ls.drop_last()) + ls.last() + seq!['\n']);
    }
}

proof fn lemma_joined_terminated(ls: Seq<Seq<char>>)
    requires
        ls.len() > 0,
    ensures
        text::joined(ls).push('\n') == terminated(ls),
    decreases ls.len(),
{
    lemma_terminated_last(ls);
    if ls.len() == 1 {
        assert(ls.drop_last() =~= Seq::<Seq<char>>::empty());
        assert(text::joined(ls).push('\n') =~= terminated(ls));
    } else {
        lemma_joined_terminated(ls.drop_last());
        assert(text::joined(ls).push('\n') =~= text::joined(ls.drop_last()).push('\n') + ls.last()
            + seq!['\n']);
    }
}

spec fn chomped_all(ls: Seq<Seq<char>>) -> Seq<Seq<char>> {
    ls.map_values(|l: Seq<char>| text::chomped(l))
}

proof fn lemma_lines_terminated(ls: Seq<Seq<char>>)
    requires
        all_one_line(ls),
    ensures
        text::lines(terminated(ls)) == chomped_all(ls),
    decreases ls.len(),
{
    if ls.len() == 0 {
        assert(chomped_all(ls) =~= Seq::<Seq<char>>::empty());
    } else {
        let s = terminated(ls);
        let n = ls[0].len() as int;
        assert(one_line(ls[0]));
        assert forall|k: int| 0 <= k < n implies s[k] != '\n' by {
            assert(s[k] == ls[0][k]);
        }
        assert(s[n] == '\n');
        text::lemma_find_unique(s, '\n', n);
        assert(s.take(n) =~= ls[0]);
        assert(s.skip(n + 1) =~= terminated(ls.drop_first()));
        assert forall|i: int| 0 <= i < ls.drop_first().len() implies one_line(
            #[trigger] ls.drop_first()[i],
        ) by {
            assert(one_line(ls[i + 1]));
        }
        lemma_lines_terminated(ls.drop_first());
        assert(chomped_all(ls) =~= seq![text::chomped(ls[0])] + chomped_all(ls.drop_first()));
    }
}

/// The lines of a text hold no line feed.
pub proof fn lemma_lines_one_line(s: Seq<char>)
    ensures
        all_one_line(text::lines(s)),
    decreases s.len(),
{
    let i = text::find(s, '\n');
    text::lemma_find_from(s, '\n', 0);
    if s.len() == 0 {
    } else if i < s.len() {
        lemma_lines_one_line(s.skip(i + 1));
        let first = text::chomped(s.take(i));
        assert forall|k: int| 0 <= k < first.len() implies #[trigger] first[k] != '\n' by {
            assert(first[k] == s[k]);
        }
        let rest = text::lines(s.skip(i + 1));
        assert forall|j: int| 0 <= j < text::lines(s).len() implies one_line(
            #[trigger] text::lines(s)[j],
        ) by {
            if j > 0 {
                assert(text::lines(s)[j] == rest[j - 1]);
            }
        }
    }
}

/// White space at the end does not bear on what is left when both ends are cut.
proof fn lemma_trim_last(s: Seq<char>)
    requires
        s.len() > 0,
        text::is_space(s.last()),
    ensures
        text::trimmed(s.drop_last()) == text::trimmed(s),
    decreases s.len(),
{
    if text::is_space(s[0]) {
        if s.len() == 1 {
            assert(s.drop_first() =~= s.drop_last());
        } else {
            lemma_trim_last(s.drop_first());
            assert(s.drop_first().drop_last() =~= s.drop_last().drop_first());
        }
    }
}

proof fn lemma_classify_chomped(l: Seq<char>)
    ensures
        config_file::classify(text::chomped(l)) == config_file::classify(l),
{
    if l.len() > 0 && l.last() == '\r' {
        lemma_trim_last(l);
    }
}

proof fn lemma_same_meaning(a: Seq<Seq<char>>, b: Seq<Seq<char>>, start: Seq<char>, section: Seq<char>)
    requires
        a.len() == b.len(),
        forall|i: int| 0 <= i < a.len() ==> config_file::classify(#[trigger] a[i]) == config_file::classify(b[i]),
    ensures
        config_file::section_from(start, a) == config_file::section_from(start, b),
        config_file::entries_from(start, a, section) == config_file::entries_from(start, b, section),
    decreases a.len(),
{
    if a.len() > 0 {
        assert(config_file::classify(a[a.len() - 1]) == config_file::classify(b[b.len() - 1]));
        assert forall|i: int| 0 <= i < a.drop_last().len() implies config_file::classify(
            #[trigger] a.drop_last()[i],
        ) == config_file::classify(b.drop_last()[i]) by {
            assert(config_file::classify(a[i]) == config_file::classify(b[i]));
        }
        lemma_same_meaning(a.drop_last(), b.drop_last(), start, section);
    }
}

proof fn lemma_trimmed_empty()
    ensures
        text::trimmed(Seq::<char>::empty()) == Seq::<char>::empty(),
        config_file::classify(Seq::<char>::empty()) is Blank,
{
}

/// What a file of these lines sets is what the lines set.
pub proof fn lemma_file_text_entries(ls: Seq<Seq<char>>, section: Seq<char>)
    requires
        ls.len() > 0,
        all_one_line(ls),
    ensures
        config_file::entries(text::lines(config_file::file_text(ls)), section) == config_file::entries(ls, section),
{
    let t = text::joined(ls);
    lemma_joined_terminated(ls);
    if t.len() > 0 && t.last() == '\n' {
        if ls.len() == 1 {
            assert(one_line(ls[0]));
            assert(t[t.len() - 1] != '\n');
        } else if ls.last().len() > 0 {
            assert(one_line(ls[ls.len() - 1]));
            assert(t.last() == ls.last().last());
            assert(ls.last()[ls.last().len() - 1] != '\n');
        } else {
            let front = ls.drop_last();
            lemma_joined_terminated(front);
            assert(t =~= text::joined(front).push('\n'));
            assert forall|i: int| 0 <= i < front.len() implies one_line(#[trigger] front[i]) by {
                assert(one_line(ls[i]));
            }
            lemma_lines_terminated(front);
            lemma_chomped_entries(front, section);
            lemma_trimmed_empty();
            assert(ls.last() =~= Seq::<char>::empty());
        }
    } else {
        lemma_lines_terminated(ls);
        lemma_chomped_entries(ls, section);
    }
}

proof fn lemma_chomped_entries(ls: Seq<Seq<char>>, section: Seq<char>)
    ensures
        config_file::entries(chomped_all(ls), section) == config_file::entries(ls, section),
{
    let c = chomped_all(ls);
    assert forall|i: int| 0 <= i < c.len() implies config_file::classify(#[trigger] c[i]) == config_file::classify(ls[i]) by {
        lemma_classify_chomped(ls[i]);
    }
    lemma_same_meaning(c, ls, Seq::empty(), section);
}

proof fn lemma_append(start: Seq<char>, a: Seq<Seq<char>>, b: Seq<Seq<char>>, section: Seq<char>)
    ensures
        config_file::section_from(start, a + b) == config_file::section_from(config_file::section_from(start, a), b),
        config_file::entries_from(start, a + b, section) == config_file::entries_from(start, a, section) + config_file::entries_from(
            config_file::section_from(start, a),
            b,
            section,
        ),
    decreases b.len(),
{
    if b.len() == 0 {
        assert(a + b =~= a);
        assert(config_file::entries_from(start, a, section) + Seq::empty() =~= config_file::entries_from(start, a, section));
    } else {
        lemma_append(start, a, b.drop_last(), section);
        assert((a + b).drop_last() =~= a + b.drop_last());
        assert((a + b).last() == b.last());
        let whole = config_file::entries_from(start, a + b, section);
        let parts = config_file::entries_from(start, a, section) + config_file::entries_from(
            config_file::section_from(start, a),
            b,
            section,
        );
        assert(whole =~= parts);
    }
}

/// What a single line does.
proof fn lemma_single(start: Seq<char>, l: Seq<char>, section: Seq<char>)
    ensures
        config_file::section_from(start, seq![l]) == (match config_file::classify(l) {
            LineView::Header(name) => text::lower(name),
            _ => start,
        }),
        config_file::entries_from(start, seq![l], section) == (match config_file::classify(l) {
            LineView::Entry(k, v) => if start == section {
                seq![(text::lower(k), v)]
            } else {
                Seq::empty()
            },
            _ => Seq::empty(),
        }),
{
    reveal_with_fuel(config_file::section_from, 2);
    assert(seq![l].drop_last() =~= Seq::<Seq<char>>::empty());
    assert(config_file::entries_from(start, seq![l].drop_last(), section) =~= Seq::empty());
    assert(config_file::entries_from(start, seq![l], section) =~= (match config_file::classify(l) {
        LineView::Entry(k, v) => if start == section {
            seq![(text::lower(k), v)]
        } else {
            Seq::empty()
        },
        _ => Seq::empty(),
    }));
}

proof fn lemma_last_setting(ls: Seq<Seq<char>>, n: int, section: Seq<char>, key: Seq<char>)
    requires
        0 <= n <= ls.len(),
    ensures
        match config_file::last_setting(ls, n, section, key) {
            Some(i) => 0 <= i < n && config_file::sets_key(ls, i, section, key) && forall|j: int|
                i < j < n ==> !#[trigger] config_file::sets_key(ls, j, section, key),
            None => forall|j: int| 0 <= j < n ==> !#[trigger] config_file::sets_key(ls, j, section, key),
        },
    decreases n,
{
    if n > 0 {
        lemma_last_setting(ls, n - 1, section, key);
    }
}

/// Lines that do not set a key hold no entry of it.
proof fn lemma_no_entry(ls: Seq<Seq<char>>, from: int, n: int, section: Seq<char>, key: Seq<char>)
    requires
        0 <= from <= n <= ls.len(),
        forall|j: int| from <= j < n ==> !#[trigger] config_file::sets_key(ls, j, section, key),
    ensures
        config_file::section_from(config_file::section_after(ls.take(from)), ls.subrange(from, n)) == config_file::section_after(
            ls.take(n),
        ),
        forall|j: int|
            0 <= j < config_file::entries_from(
                config_file::section_after(ls.take(from)),
                ls.subrange(from, n),
                section,
            ).len() ==> (#[trigger] config_file::entries_from(
                config_file::section_after(ls.take(from)),
                ls.subrange(from, n),
                section,
            )[j]).0 != text::lower(key),
    decreases n - from,
{
    let part = ls.subrange(from, n);
    if from < n {
        lemma_no_entry(ls, from, n - 1, section, key);
        assert(part.drop_last() =~= ls.subrange(from, n - 1));
        assert(part.last() == ls[n - 1]);
        assert(!config_file::sets_key(ls, n - 1, section, key));
        assert(ls.take(n).drop_last() =~= ls.take(n - 1));
        let start = config_file::section_after(ls.take(from));
        let before = config_file::entries_from(start, part.drop_last(), section);
        let now = config_file::entries_from(start, part, section);
        assert forall|j: int| 0 <= j < now.len() implies (#[trigger] now[j]).0 != text::lower(
            key,
        ) by {
            if j < before.len() {
                assert(now[j] == before[j]);
            }
        }
    } else {
        assert(part =~= Seq::<Seq<char>>::empty());
    }
}

proof fn lemma_first_leave(ls: Seq<Seq<char>>, i: int, section: Seq<char>)
    requires
        0 <= i <= ls.len(),
    ensures
        i <= config_file::first_leave(ls, i, section) <= ls.len(),
        config_file::first_leave(ls, i, section) < ls.len() ==> config_file::leaves(
            ls,
            config_file::first_leave(ls, i, section),
            section,
        ),
        forall|j: int| i <= j < config_file::first_leave(ls, i, section) ==> !#[trigger] config_file::leaves(ls, j, section),
    decreases ls.len() - i,
{
    if i < ls.len() && !config_file::leaves(ls, i, section) {
        lemma_first_leave(ls, i + 1, section);
    }
}

/// A section that is entered and never left is the one that the file ends in.
proof fn lemma_never_left(ls: Seq<Seq<char>>, n: int, section: Seq<char>)
    requires
        0 <= n <= ls.len(),
        section.len() == 0 || exists|i: int| i < n && #[trigger] config_file::heads(ls, i, section),
        forall|j: int| 0 <= j < n ==> !#[trigger] config_file::leaves(ls, j, section),
    ensures
        config_file::section_after(ls.take(n)) == section,
    decreases n,
{
    if n == 0 {
        assert(ls.take(0) =~= Seq::<Seq<char>>::empty());
        if section.len() != 0 {
            let i = choose|i: int| i < 0 && #[trigger] config_file::heads(ls, i, section);
            assert(config_file::heads(ls, i, section));
        }
        assert(section =~= Seq::<char>::empty());
    } else {
        assert(ls.take(n).drop_last() =~= ls.take(n - 1));
        assert(ls.take(n).last() == ls[n - 1]);
        assert(!config_file::leaves(ls, n - 1, section));
        if config_file::heads(ls, n - 1, section) {
        } else {
            if section.len() != 0 {
                let i = choose|i: int| i < n && #[trigger] config_file::heads(ls, i, section);
                assert(i < n - 1 && config_file::heads(ls, i, section));
            }
            lemma_never_left(ls, n - 1, section);
        }
    }
}

/// Whether the line that `save_key` writes for a key reads back as that key and
/// value.
pub open spec fn writable(key: Seq<char>, value: Seq<char>) -> bool {
    &&& one_line(key)
    &&& one_line(value)
    &&& config_file::classify(config_file::written(key, value)) == LineView::Entry(key, config_file::unquoted(text::trimmed(value)))
}

/// Whether the section header of a profile reads back as the profile.
pub open spec fn nameable(profile: Option<Seq<char>>) -> bool {
    match profile {
        Some(name) => one_line(name) && text::lower(text::trimmed(name)) == text::lower(name),
        None => true,
    }
}

/// Whether the last entry of a key has a value.
pub open spec fn ends_up(es: Seq<(Seq<char>, Seq<char>)>, key: Seq<char>, value: Seq<char>) -> bool {
    exists|at: int| #[trigger] settles(es, at, key, value)
}

/// Whether entry `at` gives a key its value and no later entry sets the key.
pub open spec fn settles(
    es: Seq<(Seq<char>, Seq<char>)>,
    at: int,
    key: Seq<char>,
    value: Seq<char>,
) -> bool {
    &&& 0 <= at < es.len()
    &&& es[at] == (key, value)
    &&& forall|j: int| at < j < es.len() ==> (#[trigger] es[j]).0 != key
}

/// The entries of all keys but one.
pub open spec fn others(es: Seq<(Seq<char>, Seq<char>)>, key: Seq<char>) -> Seq<
    (Seq<char>, Seq<char>),
> {
    es.filter(|e: (Seq<char>, Seq<char>)| e.0 != key)
}

proof fn lemma_others_add(
    a: Seq<(Seq<char>, Seq<char>)>,
    b: Seq<(Seq<char>, Seq<char>)>,
    key: Seq<char>,
)
    ensures
        others(a + b, key) == others(a, key) + others(b, key),
{
    Seq::filter_distributes_over_add(a, b, |e: (Seq<char>, Seq<char>)| e.0 != key);
}

proof fn lemma_others_one(e: (Seq<char>, Seq<char>), key: Seq<char>)
    requires
        e.0 == key,
    ensures
        others(seq![e], key) == Seq::<(Seq<char>, Seq<char>)>::empty(),
{
    reveal(Seq::filter);
    assert(seq![e].drop_last() =~= Seq::empty());
    assert(others(seq![e].drop_last(), key) =~= Seq::empty());
    assert(others(seq![e], key) =~= Seq::empty());
}

/// What the lines after a write set, piece by piece.
proof fn lemma_saved(
    ls: Seq<Seq<char>>,
    profile: Option<Seq<char>>,
    key: Seq<char>,
    value: Seq<char>,
    other: Seq<char>,
)
    requires
        writable(key, value),
        nameable(profile),
    ensures
        ends_up(
            config_file::entries(config_file::saved_lines(ls, profile, key, value), config_file::section_of(profile)),
            text::lower(key),
            config_file::unquoted(text::trimmed(value)),
        ),
        others(
            config_file::entries(config_file::saved_lines(ls, profile, key, value), config_file::section_of(profile)),
            text::lower(key),
        ) == others(config_file::entries(ls, config_file::section_of(profile)), text::lower(key)),
        other != config_file::section_of(profile) ==> config_file::entries(config_file::saved_lines(ls, profile, key, value), other)
            == config_file::entries(ls, other),
{
    let section = config_file::section_of(profile);
    let n = ls.len() as int;
    let w = config_file::written(key, value);
    let e = (text::lower(key), config_file::unquoted(text::trimmed(value)));
    let new = config_file::saved_lines(ls, profile, key, value);
    let start = Seq::<char>::empty();
    lemma_last_setting(ls, n, section, key);
    lemma_first_leave(ls, 0, section);
    match config_file::last_setting(ls, n, section, key) {
        Some(i) => {
            let a = ls.take(i);
            let x = seq![ls[i]];
            let b = ls.subrange(i + 1, n);
            assert(new =~= a + seq![w] + b);
            assert(ls =~= a + x + b);
            assert(ls.take(i + 1) =~= a + x);
            lemma_no_entry(ls, i + 1, n, section, key);
            lemma_split(a, w, b, section);
            lemma_split(a, w, b, other);
            lemma_split(a, ls[i], b, section);
            lemma_split(a, ls[i], b, other);
            lemma_append(start, a, x, section);
            lemma_single(section, ls[i], section);
            lemma_settled(
                config_file::entries(a, section),
                e,
                config_file::entries_from(section, b, section),
                config_file::entries(new, section),
            );
            let old_e = config_file::entries_from(section, x, section)[0];
            assert(old_e.0 == text::lower(key));
            lemma_others_one(old_e, text::lower(key));
            lemma_others_one(e, text::lower(key));
            lemma_others_middle(config_file::entries(a, section), old_e, config_file::entries_from(section, b, section));
            lemma_others_middle(config_file::entries(a, section), e, config_file::entries_from(section, b, section));
        },
        None => {
            if config_file::has_section(ls, section) {
                let p = config_file::first_leave(ls, 0, section);
                if p == n {
                    if section.len() != 0 {
                        let i = choose|i: int| config_file::heads(ls, i, section);
                        assert(i < n && config_file::heads(ls, i, section));
                    }
                    lemma_never_left(ls, n, section);
                }
                let a = ls.take(p);
                let b = ls.subrange(p, n);
                assert(new =~= a + seq![w] + b);
                assert(ls =~= a + b);
                lemma_no_entry(ls, p, n, section, key);
                lemma_split(a, w, b, section);
                lemma_split(a, w, b, other);
                lemma_append(start, a, b, section);
                lemma_append(start, a, b, other);
                lemma_settled(
                    config_file::entries(a, section),
                    e,
                    config_file::entries_from(section, b, section),
                    config_file::entries(new, section),
                );
                lemma_others_middle(config_file::entries(a, section), e, config_file::entries_from(section, b, section));
                lemma_others_add(
                    config_file::entries(a, section),
                    config_file::entries_from(section, b, section),
                    text::lower(key),
                );
            } else {
                let name = profile->0;
                let h = seq!['['] + name + seq![']'];
                let a = ls.push(Seq::empty()) + seq![h];
                let b = Seq::<Seq<char>>::empty();
                assert(new =~= a + seq![w] + b);
                lemma_header(name);
                lemma_trimmed_empty();
                assert(ls.push(Seq::empty()) =~= ls + seq![Seq::<char>::empty()]);
                let blank = Seq::<char>::empty();
                lemma_append(start, ls, seq![blank], section);
                lemma_append(start, ls, seq![blank], other);
                lemma_single(config_file::section_after(ls), blank, section);
                lemma_single(config_file::section_after(ls), blank, other);
                let c = ls.push(Seq::empty());
                lemma_append(start, c, seq![h], section);
                lemma_append(start, c, seq![h], other);
                lemma_single(config_file::section_after(c), h, section);
                lemma_single(config_file::section_after(c), h, other);
                lemma_split(a, w, b, section);
                lemma_split(a, w, b, other);
                assert(config_file::entries(a, section) =~= config_file::entries(ls, section));
                assert(config_file::entries(a, other) =~= config_file::entries(ls, other));
                lemma_settled(
                    config_file::entries(a, section),
                    e,
                    config_file::entries_from(section, b, section),
                    config_file::entries(new, section),
                );
                lemma_others_middle(config_file::entries(a, section), e, config_file::entries_from(section, b, section));
                assert(config_file::entries(a, section) + config_file::entries_from(section, b, section) =~= config_file::entries(
                    ls,
                    section,
                ));
                lemma_others_add(
                    config_file::entries(a, section),
                    config_file::entries_from(section, b, section),
                    text::lower(key),
                );
                assert(config_file::entries(new, other) =~= config_file::entries(ls, other) || other == section);
            }
        },
    }
}

/// Lines around one entry.
proof fn lemma_split(a: Seq<Seq<char>>, l: Seq<char>, b: Seq<Seq<char>>, section: Seq<char>)
    requires
        config_file::classify(l) is Entry,
    ensures
        config_file::entries(a + seq![l] + b, section) == config_file::entries(a, section) + config_file::entries_from(
            config_file::section_after(a),
            seq![l],
            section,
        ) + config_file::entries_from(config_file::section_after(a), b, section),
        config_file::section_after(a + seq![l]) == config_file::section_after(a),
        config_file::section_after(a) != section ==> config_file::entries_from(config_file::section_after(a), seq![l], section)
            == Seq::<(Seq<char>, Seq<char>)>::empty() && config_file::entries(a + seq![l] + b, section)
            == config_file::entries(a, section) + config_file::entries_from(config_file::section_after(a), b, section),
        config_file::classify(l) matches LineView::Entry(k, v) && (config_file::section_after(a) == section ==> config_file::entries_from(
            config_file::section_after(a),
            seq![l],
            section,
        ) == seq![(text::lower(k), v)]),
{
    lemma_append(Seq::empty(), a, seq![l], section);
    lemma_append(Seq::empty(), a + seq![l], b, section);
    lemma_single(config_file::section_after(a), l, section);
    if config_file::section_after(a) != section {
        assert(config_file::entries(a, section) + Seq::empty() =~= config_file::entries(a, section));
    }
}

proof fn lemma_settled(
    a: Seq<(Seq<char>, Seq<char>)>,
    e: (Seq<char>, Seq<char>),
    b: Seq<(Seq<char>, Seq<char>)>,
    es: Seq<(Seq<char>, Seq<char>)>,
)
    requires
        es == a + seq![e] + b,
        forall|j: int| 0 <= j < b.len() ==> (#[trigger] b[j]).0 != e.0,
    ensures
        ends_up(es, e.0, e.1),
{
    let at = a.len() as int;
    assert forall|j: int| at < j < es.len() implies (#[trigger] es[j]).0 != e.0 by {
        assert(es[j] == b[j - at - 1]);
    }
    assert(settles(es, at, e.0, e.1));
}

proof fn lemma_others_middle(
    a: Seq<(Seq<char>, Seq<char>)>,
    e: (Seq<char>, Seq<char>),
    b: Seq<(Seq<char>, Seq<char>)>,
)
    ensures
        others(a + seq![e] + b, e.0) == others(a, e.0) + others(b, e.0),
{
    lemma_others_add(a + seq![e], b, e.0);
    lemma_others_add(a, seq![e], e.0);
    lemma_others_one(e, e.0);
    assert(others(a, e.0) + Seq::empty() =~= others(a, e.0));
}

proof fn lemma_header(name: Seq<char>)
    ensures
        config_file::classify(seq!['['] + name + seq![']']) == LineView::Header(text::trimmed(name)),
{
    let h = seq!['['] + name + seq![']'];
    assert(h.last() == ']');
    assert(text::trimmed(h) == h);
    assert(h.subrange(1, h.len() - 1) =~= name);
}

/// What `save_key` writes, reading gives back: in the section of the profile
/// the last entry of the key has the value, without the white space and the
/// quotes around it. The line written must read as an entry of the key, and the
/// header as that of the profile.
pub proof fn law_saved_value_reads_back(
    file: Seq<char>,
    profile: Option<Seq<char>>,
    key: Seq<char>,
    value: Seq<char>,
)
    requires
        writable(key, value),
        nameable(profile),
    ensures
        ends_up(
            config_file::entries(
                text::lines(config_file::file_text(config_file::saved_lines(text::lines(file), profile, key, value))),
                config_file::section_of(profile),
            ),
            text::lower(key),
            config_file::unquoted(text::trimmed(value)),
        ),
{
    let ls = text::lines(file);
    lemma_saved_lines_one_line(file, profile, key, value);
    lemma_file_text_entries(config_file::saved_lines(ls, profile, key, value), config_file::section_of(profile));
    lemma_saved(ls, profile, key, value, config_file::section_of(profile));
}

/// `save_key` leaves all else as it was: the other sections whole, and in the
/// profile's section the other keys.
pub proof fn law_save_keeps_the_rest(
    file: Seq<char>,
    profile: Option<Seq<char>>,
    key: Seq<char>,
    value: Seq<char>,
    other: Seq<char>,
)
    requires
        writable(key, value),
        nameable(profile),
    ensures
        others(
            config_file::entries(
                text::lines(config_file::file_text(config_file::saved_lines(text::lines(file), profile, key, value))),
                config_file::section_of(profile),
            ),
            text::lower(key),
        ) == others(config_file::entries(text::lines(file), config_file::section_of(profile)), text::lower(key)),
        other != config_file::section_of(profile) ==> config_file::entries(
            text::lines(config_file::file_text(config_file::saved_lines(text::lines(file), profile, key, value))),
            other,
        ) == config_file::entries(text::lines(file), other),
{
    let ls = text::lines(file);
    lemma_saved_lines_one_line(file, profile, key, value);
    lemma_file_text_entries(config_file::saved_lines(ls, profile, key, value), config_file::section_of(profile));
    lemma_file_text_entries(config_file::saved_lines(ls, profile, key, value), other);
    lemma_saved(ls, profile, key, value, other);
}

proof fn lemma_saved_lines_one_line(
    file: Seq<char>,
    profile: Option<Seq<char>>,
    key: Seq<char>,
    value: Seq<char>,
)
    requires
        writable(key, value),
        nameable(profile),
    ensures
        all_one_line(config_file::saved_lines(text::lines(file), profile, key, value)),
        config_file::saved_lines(text::lines(file), profile, key, value).len() > 0,
{
    let ls = text::lines(file);
    let new = config_file::saved_lines(ls, profile, key, value);
    let section = config_file::section_of(profile);
    lemma_lines_one_line(file);
    lemma_last_setting(ls, ls.len() as int, section, key);
    lemma_first_leave(ls, 0, section);
    let w = config_file::written(key, value);
    assert(one_line(w)) by {
        let pad = number::padded_right(key, 16);
        assert forall|i: int| 0 <= i < w.len() implies #[trigger] w[i] != '\n' by {
            if i < key.len() {
                assert(w[i] == key[i]);
            } else if i < pad.len() {
                assert(w[i] == ' ');
            } else if i >= pad.len() + 2 {
                assert(w[i] == value[i - pad.len() - 2]);
            }
        }
    }
    assert forall|i: int| 0 <= i < new.len() implies one_line(#[trigger] new[i]) by {
        match config_file::last_setting(ls, ls.len() as int, section, key) {
            Some(k) => {
                if i != k {
                    assert(new[i] == ls[i]);
                }
            },
            None => {
                if config_file::has_section(ls, section) {
                    let p = config_file::first_leave(ls, 0, section);
                    if i < p {
                        assert(new[i] == ls[i]);
                    } else if i > p {
                        assert(new[i] == ls[i - 1]);
                    }
                } else {
                    let name = profile->0;
                    let h = seq!['['] + name + seq![']'];
                    if i < ls.len() {
                        assert(new[i] == ls[i]);
                    } else if i == ls.len() + 1 {
                        assert(new[i] == h);
                        assert forall|k: int| 0 <= k < h.len() implies #[trigger] h[k] != '\n' by {
                            if 0 < k <= name.len() {
                                assert(h[k] == name[k - 1]);
                            }
                        }
                    }
                }
            },
        }
    }
}

proof fn lemma_trimmed_trim_back(s: Seq<char>)
    ensures
        text::trimmed(text::trim_back(s)) == text::trimmed(s),
    decreases s.len(),
{
    if s.len() > 0 && text::is_space(s.last()) {
        lemma_trim_last(s);
        lemma_trimmed_trim_back(s.drop_last());
    }
}

proof fn lemma_trim_back_append(a: Seq<char>, b: Seq<char>)
    requires
        a.len() > 0,
        !text::is_space(a.last()),
    ensures
        text::trim_back(a + b) == a + text::trim_back(b),
    decreases b.len(),
{
    if b.len() == 0 {
        assert(a + b =~= a);
        assert(a + text::trim_back(b) =~= a);
    } else if text::is_space(b.last()) {
        assert((a + b).drop_last() =~= a + b.drop_last());
        assert((a + b).last() == b.last());
        lemma_trim_back_append(a, b.drop_last());
    } else {
        assert((a + b).last() == b.last());
    }
}

proof fn lemma_trim_back_blanks(n: nat)
    ensures
        text::trim_back(number::repeat(' ', n as int)) == Seq::<char>::empty(),
    decreases n,
{
    if n > 0 {
        let r = number::repeat(' ', n as int);
        assert(r.drop_last() =~= number::repeat(' ', n - 1));
        lemma_trim_back_blanks((n - 1) as nat);
    } else {
        assert(number::repeat(' ', 0) =~= Seq::<char>::empty());
    }
}

/// Whether a key is one that the file can hold: it is not empty, has no white
/// space at its ends, holds neither an equals sign nor a line feed and does not
/// begin a comment or a header.
pub open spec fn plain_key(key: Seq<char>) -> bool {
    &&& key.len() > 0
    &&& !text::is_space(key[0])
    &&& !text::is_space(key.last())
    &&& key[0] != '#'
    &&& key[0] != '['
    &&& forall|i: int| 0 <= i < key.len() ==> #[trigger] key[i] != '='
    &&& one_line(key)
}

/// The line written for a plain key reads back as that key and value, whatever
/// the value, so long as it is one line.
pub proof fn law_plain_keys_are_writable(key: Seq<char>, value: Seq<char>)
    requires
        plain_key(key),
        one_line(value),
    ensures
        writable(key, value),
{
    let blanks = number::repeat(' ', 16 - key.len());
    let pad = number::padded_right(key, 16);
    let line = config_file::written(key, value);
    let a = pad + seq!['='];
    let b = seq![' '] + value;
    assert(line =~= a + b);
    assert(line[0] == key[0]);
    lemma_trim_back_append(a, b);
    let t = a + text::trim_back(b);
    assert(text::trimmed(line) == t);
    assert(t[0] == key[0]);
    let p = pad.len() as int;
    assert(t[p] == '=');
    assert forall|k: int| 0 <= k < p implies t[k] != '=' by {
        if k < key.len() {
            assert(t[k] == key[k]);
        } else {
            assert(t[k] == ' ');
        }
    }
    text::lemma_find_unique(t, '=', p);
    assert(t.take(p) =~= pad);
    assert(t.skip(p + 1) =~= text::trim_back(b));
    lemma_trimmed_trim_back(b);
    assert(b.drop_first() =~= value);
    assert(text::trimmed(b) == text::trimmed(value));
    assert(pad[0] == key[0]);
    lemma_trim_back_append(key, blanks);
    lemma_trim_back_blanks(if key.len() < 16 { (16 - key.len()) as nat } else { 0 });
    assert(blanks =~= number::repeat(
        ' ',
        if key.len() < 16 {
            16 - key.len()
        } else {
            0
        },
    ));
    assert(text::trimmed(pad) =~= key);
}

/// A profile is laid over the settings that hold without one.
pub proof fn law_profile_overrides(platform: Platform, ls: Seq<Seq<char>>, name: Seq<char>)
    requires
        config_file::loaded(platform, ls, Some(name)) is Settings,
    ensures
        config_file::loaded(platform, ls, None) matches Loaded::Settings(c)
            && config_file::apply_all(c, config_file::entries(ls, text::lower(name))) == Ok::<
            ConfigView,
            Seq<char>,
        >(config_file::loaded(platform, ls, Some(name))->Settings_0),
{
}

/// Keys applied in order keep every setting within its range.
pub proof fn lemma_apply_all_keeps_ranges(c: ConfigView, es: Seq<(Seq<char>, Seq<char>)>)
    requires
        config::in_range(c),
    ensures
        config_file::apply_all(c, es) matches Ok(d) ==> config::in_range(d),
    decreases es.len(),
{
    if es.len() > 0 {
        lemma_apply_all_keeps_ranges(c, es.drop_last());
        if let Ok(d) = config_file::apply_all(c, es.drop_last()) {
            config::law_applied_keeps_ranges(d, es.last().0, es.last().1);
        }
    }
}

/// Whatever the file holds, the settings read from it are within their ranges.
pub proof fn law_loaded_settings_in_range(
    platform: Platform,
    ls: Seq<Seq<char>>,
    profile: Option<Seq<char>>,
)
    ensures
        config_file::loaded(platform, ls, profile) matches Loaded::Settings(c)
            ==> config::in_range(c),
{
    let d = config::defaults(platform);
    lemma_apply_all_keeps_ranges(d, config_file::entries(ls, Seq::empty()));
    if let Ok(c) = config_file::apply_all(d, config_file::entries(ls, Seq::empty())) {
        if let Some(name) = profile {
            lemma_apply_all_keeps_ranges(c, config_file::entries(ls, text::lower(name)));
        }
    }
}

} // verus!
