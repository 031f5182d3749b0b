//! What reading texts promises: white space goes from the ends alone, lines of the
//! configuration file mean what they look like, lists of ports keep what they
//! should, and bits stand in the order in which they are read.

use vstd::prelude::*;

use crate::bits;
use crate::config_file::{self, LineView};
use crate::pw_link::{self, Rule};
use crate::text;

verus! {

/// Blanks, tabs and ends of lines are white space; letters, digits and the other
/// printed characters of ASCII are not.
pub proof fn law_white_space(c: char)
    ensures
        text::is_space(' ') && text::is_space('\t') && text::is_space('\n') && text::is_space('\r'),
        '!' <= c <= '~' ==> !text::is_space(c),
{
}

/// Letters of ASCII come into lower case, the 26 of them each by the same distance,
/// and nothing else changes; twice is as once.
pub proof fn law_lower_case(c: char)
    ensures
        'A' <= c <= 'Z' ==> text::ascii_lower(c) as u32 == c as u32 + 32,
        'A' <= c <= 'Z' ==> 'a' <= text::ascii_lower(c) <= 'z',
        !('A' <= c <= 'Z') ==> text::ascii_lower(c) == c,
        text::ascii_lower(text::ascii_lower(c)) == text::ascii_lower(c),
{
}

/// Trimming takes white space from the two ends and nothing else: what is left has
/// none there, and stands in the text between white space.
pub proof fn law_trimmed(s: Seq<char>)
    ensures
        text::trimmed(s).len() > 0 ==> !text::is_space(text::trimmed(s)[0]) && !text::is_space(
            text::trimmed(s).last(),
        ),
        exists|i: int, j: int|
            {
                &&& 0 <= i <= j <= s.len()
                &&& text::trimmed(s) == #[trigger] s.subrange(i, j)
                &&& forall|k: int| 0 <= k < i ==> text::is_space(#[trigger] s[k])
                &&& forall|k: int| j <= k < s.len() ==> text::is_space(#[trigger] s[k])
            },
{
    let i = lemma_trim_front(s);
    let f = text::trim_front(s);
    let n = lemma_trim_back(f);
    let j = i + n;
    assert(text::trimmed(s) =~= s.subrange(i, j));
    assert forall|k: int| j <= k < s.len() implies text::is_space(#[trigger] s[k]) by {
        assert(f[k - i] == s[k]);
    }
    assert(s.subrange(i, j) == text::trimmed(s));
    if text::trimmed(s).len() > 0 {
        assert(text::trimmed(s)[0] == f[0]);
    }
}

proof fn lemma_trim_front(s: Seq<char>) -> (i: int)
    ensures
        0 <= i <= s.len(),
        text::trim_front(s) == s.skip(i),
        forall|k: int| 0 <= k < i ==> text::is_space(#[trigger] s[k]),
        i < s.len() ==> !text::is_space(s[i]),
    decreases s.len(),
{
    if s.len() > 0 && text::is_space(s[0]) {
        let d = s.drop_first();
        let j = lemma_trim_front(d);
        assert(d.skip(j) =~= s.skip(j + 1));
        assert forall|k: int| 0 <= k < j + 1 implies text::is_space(#[trigger] s[k]) by {
            if k > 0 {
                assert(d[k - 1] == s[k]);
            }
        }
        if j < d.len() {
            assert(d[j] == s[j + 1]);
        }
        j + 1
    } else {
        assert(s.skip(0) =~= s);
        0
    }
}

proof fn lemma_trim_back(s: Seq<char>) -> (n: int)
    ensures
        0 <= n <= s.len(),
        text::trim_back(s) == s.take(n),
        forall|k: int| n <= k < s.len() ==> text::is_space(#[trigger] s[k]),
        n > 0 ==> !text::is_space(s[n - 1]),
    decreases s.len(),
{
    if s.len() > 0 && text::is_space(s.last()) {
        let d = s.drop_last();
        let n = lemma_trim_back(d);
        assert(d.take(n) =~= s.take(n));
        assert forall|k: int| n <= k < s.len() implies text::is_space(#[trigger] s[k]) by {
            if k < d.len() {
                assert(d[k] == s[k]);
            }
        }
        if n > 0 {
            assert(d[n - 1] == s[n - 1]);
        }
        n
    } else {
        assert(s.take(s.len() as int) =~= s);
        s.len() as int
    }
}

/// A line of a text ends at its line feed, and the carriage return before that is
/// no part of it; what has no line feed is one line.
pub proof fn law_lines(a: Seq<char>, rest: Seq<char>)
    requires
        forall|i: int| 0 <= i < a.len() ==> #[trigger] a[i] != '\n',
    ensures
        text::lines(a + seq!['\n'] + rest) == seq![text::chomped(a)] + text::lines(rest),
        a.len() > 0 ==> text::lines(a) == seq![a],
        text::chomped(a + seq!['\r']) == a,
        a.len() == 0 || a.last() != '\r' ==> text::chomped(a) == a,
        text::lines(Seq::empty()).len() == 0,
{
    let s = a + seq!['\n'] + rest;
    text::lemma_find_unique(s, '\n', a.len() as int);
    assert(s.take(a.len() as int) =~= a);
    assert(s.skip(a.len() as int + 1) =~= rest);
    text::lemma_find_unique(a, '\n', a.len() as int);
    assert((a + seq!['\r']).drop_last() =~= a);
}

/// Pieces are what stands between the separators.
pub proof fn law_pieces(a: Seq<char>, rest: Seq<char>, c: char)
    requires
        forall|i: int| 0 <= i < a.len() ==> #[trigger] a[i] != c,
    ensures
        text::pieces(a + seq![c] + rest, c) == seq![a] + text::pieces(rest, c),
        text::pieces(a, c) == seq![a],
        text::cut(a + seq![c] + rest, c) == Some((a, rest)),
        text::cut(a, c) is None,
{
    let s = a + seq![c] + rest;
    text::lemma_find_unique(s, c, a.len() as int);
    assert(s.take(a.len() as int) =~= a);
    assert(s.skip(a.len() as int + 1) =~= rest);
    text::lemma_find_unique(a, c, a.len() as int);
}

/// Texts are in the order of a dictionary by the codes of their characters: the
/// first difference decides, and a beginning comes before the whole.
pub proof fn law_text_order(a: Seq<char>, x: char, b: Seq<char>, y: char, c: Seq<char>)
    ensures
        x < y ==> text::comes_before(a + seq![x] + b, a + seq![y] + c),
        x < y ==> !text::comes_before(a + seq![y] + c, a + seq![x] + b),
        text::comes_before(a, a + seq![x] + b),
    decreases a.len(),
{
    let p = a + seq![x] + b;
    let q = a + seq![y] + c;
    if a.len() > 0 {
        let d = a.drop_first();
        law_text_order(d, x, b, y, c);
        assert(p.drop_first() =~= d + seq![x] + b);
        assert(q.drop_first() =~= d + seq![y] + c);
        assert(p[0] == a[0] && q[0] == a[0]);
    } else {
        assert(p[0] == x && q[0] == y);
    }
}

/// A line with `=` sets the key before the first one to the value behind it, both
/// without white space around them and the value without the quotes around it. A
/// line that begins with `#` and an empty line set nothing, one in brackets begins
/// a section, and any other is passed over.
pub proof fn law_line_kinds(k: Seq<char>, v: Seq<char>, name: Seq<char>)
    requires
        k.len() > 0 && k[0] != '#' && k[0] != '[',
        forall|i: int| 0 <= i < k.len() ==> #[trigger] k[i] != '=',
    ensures
        config_file::classify_trimmed(k + seq!['='] + v) == LineView::Entry(
            text::trimmed(k),
            config_file::unquoted(text::trimmed(v)),
        ),
        config_file::classify_trimmed(seq!['#'] + v) == LineView::Blank,
        config_file::classify_trimmed(Seq::empty()) == LineView::Blank,
        config_file::classify_trimmed(seq!['['] + name + seq![']']) == LineView::Header(
            text::trimmed(name),
        ),
        config_file::classify_trimmed(k) == LineView::Malformed,
        config_file::unquoted(seq!['"'] + v + seq!['"']) == v,
        config_file::unquoted(seq!['\''] + v + seq!['\'']) == v,
        v.len() == 0 || (v[0] != '"' && v[0] != '\'') ==> config_file::unquoted(v) == v,
{
    law_pieces(k, v, '=');
    let t = k + seq!['='] + v;
    assert(t[0] == k[0]);
    let h = seq!['['] + name + seq![']'];
    assert(h[0] == '[' && h.last() == ']');
    assert(h.subrange(1, h.len() - 1) =~= name);
    let q = seq!['"'] + v + seq!['"'];
    assert(q[0] == '"' && q.last() == '"');
    assert(q.subrange(1, q.len() - 1) =~= v);
    let r = seq!['\''] + v + seq!['\''];
    assert(r[0] == '\'' && r.last() == '\'');
    assert(r.subrange(1, r.len() - 1) =~= v);
    assert((seq!['#'] + v)[0] == '#');
}

/// The profiles of a file are its sections that have a name, in order and as they are
/// written.
pub proof fn law_profiles(ls: Seq<Seq<char>>, line: Seq<char>)
    ensures
        ({
            let before = config_file::section_names(ls);
            let after = config_file::section_names(ls.push(line));
            &&& config_file::classify(line) matches LineView::Header(name) ==> {
                &&& name.len() > 0 ==> after == before.push(name)
                &&& name.len() == 0 ==> after == before
            }
            &&& config_file::classify(line) !is Header ==> after == before
        }),
        config_file::section_names(Seq::empty()).len() == 0,
{
    assert(ls.push(line).drop_last() =~= ls);
}

/// A line belongs to the section of the last header before it, in lower case, and a
/// setting counts for its section alone.
pub proof fn law_sections(ls: Seq<Seq<char>>, line: Seq<char>, section: Seq<char>)
    ensures
        ({
            let now = config_file::section_after(ls);
            let before = config_file::entries(ls, section);
            let after = config_file::entries(ls.push(line), section);
            &&& config_file::classify(line) matches LineView::Header(name) ==> {
                &&& config_file::section_after(ls.push(line)) == text::lower(name)
                &&& after == before
            }
            &&& config_file::classify(line) matches LineView::Entry(k, v) ==> {
                &&& config_file::section_after(ls.push(line)) == now
                &&& now == section ==> after == before.push((text::lower(k), v))
                &&& now != section ==> after == before
            }
        }),
        config_file::section_after(Seq::empty()).len() == 0,
        config_file::entries(Seq::empty(), section).len() == 0,
{
    assert(ls.push(line).drop_last() =~= ls);
}

/// A setting is written as its key, filled up to sixteen characters, and `= ` with
/// the value behind it.
pub proof fn law_written_lines(key: Seq<char>, value: Seq<char>)
    ensures
        ({
            let w = config_file::written(key, value);
            let n = if key.len() < 16 {
                16int
            } else {
                key.len() as int
            };
            &&& w.len() == n + 2 + value.len()
            &&& w.take(key.len() as int) == key
            &&& forall|i: int| key.len() <= i < n ==> #[trigger] w[i] == ' '
            &&& w[n] == '=' && w[n + 1] == ' '
            &&& w.skip(n + 2) == value
        }),
{
    let w = config_file::written(key, value);
    let n = if key.len() < 16 {
        16int
    } else {
        key.len() as int
    };
    assert(w.take(key.len() as int) =~= key);
    assert(w.skip(n + 2) =~= value);
}

/// The front channels of a sink are those for front left and front right, whatever
/// stands around the channel; a sound card is told by how its name begins.
pub proof fn law_front_channels(a: Seq<char>, b: Seq<char>, needle: Seq<char>)
    ensures
        pw_link::is_front(a + "playback_FL"@ + b),
        pw_link::is_front(a + "playback_FR"@ + b),
        pw_link::chosen("alsa_output"@ + a + "playback_FL"@ + b, Rule::Card, needle),
        text::occurs(text::lower(a), needle) ==> pw_link::chosen(a, Rule::Named, needle),
        text::occurs(text::lower(a), needle) && pw_link::is_front(a) ==> pw_link::chosen(
            a,
            Rule::Sink,
            needle,
        ),
        !text::occurs(text::lower(a), needle) ==> !pw_link::chosen(a, Rule::Named, needle)
            && !pw_link::chosen(a, Rule::Sink, needle),
        !pw_link::is_front(a) ==> !pw_link::chosen(a, Rule::Sink, needle) && !pw_link::chosen(
            a,
            Rule::Card,
            needle,
        ),
{
    let l = "playback_FL"@;
    let r = "playback_FR"@;
    let c = "alsa_output"@;
    assert((a + l + b).subrange(a.len() as int, (a.len() + l.len()) as int) =~= l);
    assert(text::occurs_at(a + l + b, l, a.len() as int));
    assert((a + r + b).subrange(a.len() as int, (a.len() + r.len()) as int) =~= r);
    assert(text::occurs_at(a + r + b, r, a.len() as int));
    let s = c + a + l + b;
    assert(s.subrange((c.len() + a.len()) as int, (c.len() + a.len() + l.len()) as int) =~= l);
    assert(text::occurs_at(s, l, (c.len() + a.len()) as int));
    assert(s.subrange(0, c.len() as int) =~= c);
}

/// What stands between the first two quotes of a line is what it quotes.
pub proof fn law_quoted(a: Seq<char>, b: Seq<char>, c: Seq<char>)
    requires
        forall|i: int| 0 <= i < a.len() ==> #[trigger] a[i] != '"',
        forall|i: int| 0 <= i < b.len() ==> #[trigger] b[i] != '"',
    ensures
        pw_link::quoted(a + seq!['"'] + (b + seq!['"'] + c)) == Some(b),
        pw_link::quoted(a) is None,
{
    law_pieces(a, b + seq!['"'] + c, '"');
    law_pieces(b, c, '"');
}

/// The ports of the named sink are taken where it has any, else those of the sound
/// cards.
pub proof fn law_sink_ports(ps: Seq<Seq<char>>, name: Seq<char>)
    ensures
        ({
            let own = pw_link::choice(ps, Rule::Sink, text::lower(name));
            let cards = pw_link::choice(ps, Rule::Card, Seq::empty());
            &&& own.len() > 0 ==> pw_link::sink_ports(ps, Some(name)) == own
            &&& own.len() == 0 ==> pw_link::sink_ports(ps, Some(name)) == cards
            &&& pw_link::sink_ports(ps, None) == cards
        }),
{
}

/// The bits of a byte stand from the highest to the lowest, and a row of bits is
/// filled up with ones, by fewer than eight.
pub proof fn law_bits_of_a_byte(v: u8, s: Seq<bool>)
    ensures
        ({
            let b = bits::bits_of(v as nat, 8);
            &&& b.len() == 8
            &&& b[0] <==> v >= 128
            &&& b[1] <==> v % 128 >= 64
            &&& b[6] <==> v % 4 >= 2
            &&& b[7] <==> v % 2 == 1
        }),
        ({
            let p = bits::padded(s);
            &&& p.len() % 8 == 0
            &&& s.len() <= p.len() < s.len() + 8
            &&& p.take(s.len() as int) == s
            &&& forall|i: int| s.len() <= i < p.len() ==> #[trigger] p[i]
        }),
{
    reveal_with_fuel(bits::bits_of, 9);
    let p = bits::padded(s);
    assert(p.take(s.len() as int) =~= s);
}

} // verus!
