//! What smaller parts promise: names of archives, words of a process's description,
//! the spread of gaps, ports in pairs, memory types, and frames that are taken in.

use vstd::prelude::*;

use crate::analysis_strip::{self, Frame};
use crate::convert;
use crate::framegen::Size;
use crate::framegen_vk::{self, ImageRef, MipBlit};
use crate::gl_renderer;
use crate::keys;
use crate::menu_build;
use crate::number;
use crate::paths;
use crate::pw_link::{self, PwLinkState};
use crate::startup;
use crate::stats;
use crate::text;
use crate::text_laws;
use crate::vk_commands::{self, Command};

verus! {

/// The archive of a session is named by the second at which it began, and lies in
/// the directory for screenshots.
pub proof fn law_archive_path(dir: Seq<char>, secs: nat)
    requires
        dir.len() > 0,
        dir.last() != '/',
    ensures
        analysis_strip::joined_path(dir, analysis_strip::tar_name(secs)) == dir + "/capview_strips_"@
            + number::decimal(secs) + ".tar"@,
        analysis_strip::joined_path(dir + seq!['/'], analysis_strip::tar_name(secs)) == dir
            + "/capview_strips_"@ + number::decimal(secs) + ".tar"@,
{
    reveal_strlit("capview_strips_");
    reveal_strlit("/capview_strips_");
    let t = dir + "/capview_strips_"@ + number::decimal(secs) + ".tar"@;
    assert((dir + seq!['/']).last() == '/');
    assert(analysis_strip::joined_path(dir, analysis_strip::tar_name(secs)) =~= t);
    assert(analysis_strip::joined_path(dir + seq!['/'], analysis_strip::tar_name(secs)) =~= t);
}

/// A frame that waits adds its three bytes a pixel to what waits, and what may wait
/// is half a gibibyte.
pub proof fn law_waiting_bytes(frames: Seq<Frame>, f: Frame)
    requires
        f.wf(),
    ensures
        analysis_strip::total_bytes(frames.push(f)) == analysis_strip::total_bytes(frames) + 3 * (f.width
            * f.height),
        analysis_strip::total_bytes(Seq::empty()) == 0,
        analysis_strip::MAX_BUFFER_BYTES == 512 * 1024 * 1024,
        analysis_strip::TARGET_WIDTH == 960,
        analysis_strip::STRIP_JPEG_QUALITY == 70,
        analysis_strip::at_least_one(0) == 1,
        analysis_strip::at_least_one(f.width) >= f.width,
        f.width > 0 ==> analysis_strip::at_least_one(f.width) == f.width,
{
    assert(frames.push(f).drop_last() =~= frames);
}

/// A pixel of a frame: three bytes, red first, row by row.
pub proof fn law_frame_pixels(f: Frame, x: int, y: int)
    ensures
        f.pixel(x, y).r == f.rgb@[3 * (y * f.width + x)],
        f.pixel(x, y).g == f.rgb@[3 * (y * f.width + x) + 1],
        f.pixel(x, y).b == f.rgb@[3 * (y * f.width + x) + 2],
{
}

/// The words of a text are what stands between white space: the first word and then
/// those of the rest.
pub proof fn law_words(s: Seq<char>, from: int, to: int)
    requires
        0 <= from < to <= s.len(),
        forall|i: int| from <= i < to ==> !text::is_space(#[trigger] s[i]),
        to < s.len() ==> text::is_space(s[to]),
    ensures
        stats::words_from(s, from) == seq![s.subrange(from, to)] + stats::words_from(s, to),
        to < s.len() ==> stats::words_from(s, to) == stats::words_from(s, to + 1),
        stats::words_from(s, s.len() as int).len() == 0,
{
    lemma_space_from(s, from, to);
    assert(!text::is_space(s[from]));
}

proof fn lemma_space_from(s: Seq<char>, from: int, to: int)
    requires
        0 <= from <= to <= s.len(),
        forall|i: int| from <= i < to ==> !text::is_space(#[trigger] s[i]),
        to < s.len() ==> text::is_space(s[to]),
    ensures
        stats::space_from(s, from) == to,
    decreases to - from,
{
    if from < to {
        assert(!text::is_space(s[from]));
        lemma_space_from(s, from + 1, to);
    }
}

/// A word of a description that is a number counts as it, and any other as 0.
pub proof fn law_number_or_zero(n: u64, s: Seq<char>)
    ensures
        stats::number_or_zero(number::decimal(n as nat)) == n,
        number::number(s) is None ==> stats::number_or_zero(s) == 0,
{
    number::law_decimal_reads_back(n as nat);
}

/// Gaps that are all alike do not spread, and come to so many times one of them.
pub proof fn law_spread_of_gaps(s: Seq<u64>, m: u64, n: int)
    requires
        0 <= n <= s.len(),
        forall|i: int| 0 <= i < s.len() ==> #[trigger] s[i] == m,
    ensures
        stats::sum(s, n) == n * m,
        stats::squares(s, m as int, n) == 0,
    decreases n,
{
    if n > 0 {
        law_spread_of_gaps(s, m, n - 1);
        assert(s[n - 1] == m);
        assert((n - 1) * m + m == n * m) by (nonlinear_arith);
    } else {
        assert(0 * m == 0);
    }
}

/// One more gap adds itself to the sum, and the square of its distance to the
/// squares, on whichever side of the mean it lies.
pub proof fn law_one_more_gap(s: Seq<u64>, mean: int, n: int)
    requires
        0 < n <= s.len(),
    ensures
        stats::sum(s, n) == stats::sum(s, n - 1) + s[n - 1],
        stats::squares(s, mean, n) == stats::squares(s, mean, n - 1) + (s[n - 1] - mean) * (s[n - 1]
            - mean),
{
    let d = s[n - 1] - mean;
    assert((-d) * (-d) == d * d) by (nonlinear_arith);
}

/// As many ports are linked as both sides have.
pub proof fn law_port_pairs(p: PwLinkState)
    ensures
        p.pair_count() <= p.source_ports@.len(),
        p.pair_count() <= p.sink_ports@.len(),
        p.pair_count() == p.source_ports@.len() || p.pair_count() == p.sink_ports@.len(),
{
}

/// The sink is named by the first line that tells a node's name; lines before it are
/// passed over.
pub proof fn law_sink_line(ls: Seq<Seq<char>>, line: Seq<char>)
    ensures
        text::occurs(line, "node.name"@) ==> pw_link::sink_name(seq![line] + ls) == pw_link::quoted(line),
        !text::occurs(line, "node.name"@) ==> pw_link::sink_name(seq![line] + ls)
            == pw_link::sink_name(ls),
        pw_link::sink_name(Seq::empty()) is None,
{
    let t = seq![line] + ls;
    assert(t[0] == line);
    assert(t.skip(1) =~= ls);
}

/// A listing has a port on each line that is not blank.
pub proof fn law_listed_ports(ls: Seq<Seq<char>>, line: Seq<char>)
    ensures
        text::trimmed(line).len() > 0 ==> pw_link::listed(ls.push(line)) == pw_link::listed(ls).push(
            text::trimmed(line),
        ),
        text::trimmed(line).len() == 0 ==> pw_link::listed(ls.push(line)) == pw_link::listed(ls),
{
    assert(ls.push(line).drop_last() =~= ls);
}

/// The first place that holds is the one before which none holds.
pub proof fn law_first_true(b: Seq<bool>, from: int, i: int)
    requires
        0 <= from <= i <= b.len(),
        forall|k: int| from <= k < i ==> !#[trigger] b[k],
    ensures
        i < b.len() && b[i] ==> paths::first_true(b, from) == Some(i),
        i == b.len() ==> paths::first_true(b, from) is None,
    decreases i - from,
{
    if from < i {
        assert(!b[from]);
        law_first_true(b, from + 1, i);
    }
}

/// A memory type that is allowed suits where it has the wanted properties, or where
/// none is wanted; one without properties does not suit where one is, and none suits
/// where none is allowed.
pub proof fn law_memory_types(flags: Seq<u32>, wanted: u32, i: int)
    requires
        0 <= i < flags.len(),
        i < 32,
    ensures
        flags[i] == wanted ==> framegen_vk::suits(u32::MAX, flags, wanted, i),
        !framegen_vk::suits(0, flags, wanted, i),
        flags[i] == 0 && wanted != 0 ==> !framegen_vk::suits(u32::MAX, flags, wanted, i),
        wanted == 0 ==> framegen_vk::suits(u32::MAX, flags, wanted, i),
{
    let f = flags[i];
    let k = i as u32;
    assert(wanted & wanted == wanted) by (bit_vector);
    assert(0u32 & wanted == 0) by (bit_vector);
    assert(f & 0u32 == 0) by (bit_vector);
    assert(0u32 & (1u32 << k) == 0) by (bit_vector);
    assert(0xffff_ffffu32 & (1u32 << k) != 0) by (bit_vector)
        requires
            k < 32,
    ;
}

/// A shader is its version, the two files of the library with the part to use
/// switched on between them, and what is added at the end.
pub proof fn law_shader_texts(
    version: Seq<char>,
    a: Seq<char>,
    switch: Seq<char>,
    b: Seq<char>,
    wrapper: Seq<char>,
)
    ensures
        ({
            let t = gl_renderer::shader_text(version, a, switch, b, wrapper);
            let head = version + "#define A_GPU 1\n#define A_GLSL 1\n"@ + gl_renderer::PACK_POLYFILL@;
            &&& t.take(version.len() as int) == version
            &&& t == head + (a + switch + b) + "\n"@ + wrapper
            &&& t.skip(t.len() - wrapper.len()) == wrapper
        }),
{
    let t = gl_renderer::shader_text(version, a, switch, b, wrapper);
    let head = version + "#define A_GPU 1\n#define A_GLSL 1\n"@ + gl_renderer::PACK_POLYFILL@;
    assert(t =~= head + (a + switch + b) + "\n"@ + wrapper);
    assert(t.take(version.len() as int) =~= version);
    assert(t.skip(t.len() - wrapper.len()) =~= wrapper);
}

/// The line on streaming: the port of the server and how many are connected, where
/// the client is connected to, or both with a bar between them.
pub proof fn law_streaming_line(port: u16, count: usize, ip: Seq<u8>, to: u16)
    ensures
        ({
            let a = "Server :"@ + number::decimal(port as nat) + " ("@ + number::decimal(count as nat)
                + ")"@;
            let b = "-> "@ + menu_build::dotted(ip) + ":"@ + number::decimal(to as nat);
            &&& menu_build::streaming_line(Some((port, count)), None) == Some(a)
            &&& menu_build::streaming_line(None, Some((ip, to))) == Some(b)
            &&& menu_build::streaming_line(Some((port, count)), Some((ip, to))) == Some(a + " | "@ + b)
            &&& menu_build::streaming_line(None, None) is None
        }),
{
}

/// An address that was written with dots is read as its four numbers.
pub proof fn law_address_is_read(ip: Seq<u8>)
    requires
        ip.len() == 4,
    ensures
        keys::four_numbers(menu_build::dotted(ip)) == Some(ip),
{
    let a = number::decimal(ip[0] as nat);
    let b = number::decimal(ip[1] as nat);
    let c = number::decimal(ip[2] as nat);
    let d = number::decimal(ip[3] as nat);
    let dot = seq!['.'];
    reveal_strlit(".");
    assert("."@ =~= dot);
    assert(menu_build::dotted(ip) =~= a + dot + (b + dot + (c + dot + d)));
    lemma_no_dot(ip[0]);
    lemma_no_dot(ip[1]);
    lemma_no_dot(ip[2]);
    lemma_no_dot(ip[3]);
    text_laws::law_pieces(a, b + dot + (c + dot + d), '.');
    text_laws::law_pieces(b, c + dot + d, '.');
    text_laws::law_pieces(c, d, '.');
    text_laws::law_pieces(d, d, '.');
    assert(text::pieces(menu_build::dotted(ip), '.') =~= seq![a, b, c, d]);
    number::law_decimal_reads_back(ip[0] as nat);
    number::law_decimal_reads_back(ip[1] as nat);
    number::law_decimal_reads_back(ip[2] as nat);
    number::law_decimal_reads_back(ip[3] as nat);
    assert(keys::four_numbers(menu_build::dotted(ip))->0 =~= ip);
}

proof fn lemma_no_dot(n: u8)
    ensures
        forall|i: int|
            0 <= i < number::decimal(n as nat).len() ==> #[trigger] number::decimal(n as nat)[i]
                != '.',
{
    number::lemma_decimal(n as nat);
    let d = number::decimal(n as nat);
    assert forall|i: int| 0 <= i < d.len() implies #[trigger] d[i] != '.' by {
        assert(number::is_digit(d[i]));
    }
}

/// A word of the line at the start is there where its switch is on, and a name where
/// there is one.
pub proof fn law_banner_words(word: Seq<char>, name: Seq<char>)
    ensures
        startup::word_if(true, word) == word,
        startup::word_if(false, word).len() == 0,
        startup::labelled(word, Some(name)) == word + name,
        startup::labelled(word, None).len() == 0,
{
}

/// A captured frame becomes the newer one, the newer one the older, and its levels
/// are filled each from the one before: the frame is copied at its own size to the
/// size that is kept.
pub proof fn law_frame_is_taken_in(chain: Seq<MipBlit>, frame: Size, size: Size)
    requires
        framegen_vk::is_mip_chain(chain, size.w, size.h),
    ensures
        ({
            let c = vk_commands::push_commands(chain, frame, size);
            &&& c.len() == 16
            &&& c[0] == Command::SwapFrames
            &&& c[2] == (Command::Blit {
                from: ImageRef::Frame,
                from_level: 0,
                from_size: frame,
                to: ImageRef::Curr,
                to_level: 0,
                to_size: size,
            })
            &&& c[5] == (Command::Blit {
                from: ImageRef::Curr,
                from_level: 0,
                from_size: chain[0].src,
                to: ImageRef::Curr,
                to_level: 1,
                to_size: chain[0].dst,
            })
            &&& c[8] == (Command::Blit {
                from: ImageRef::Curr,
                from_level: 1,
                from_size: chain[1].src,
                to: ImageRef::Curr,
                to_level: 2,
                to_size: chain[1].dst,
            })
            &&& c[11] == (Command::Blit {
                from: ImageRef::Curr,
                from_level: 2,
                from_size: chain[2].src,
                to: ImageRef::Curr,
                to_level: 3,
                to_size: chain[2].dst,
            })
        }),
        chain[0].src == size,
        chain[0].dst == chain[1].src,
        chain[1].dst == chain[2].src,
{
    assert(chain[0].src_level == 0 && chain[1].src_level == 1 && chain[2].src_level == 2);
    assert(framegen_vk::mip_dim(size.w as int, 0) == size.w);
    assert(framegen_vk::mip_dim(size.h as int, 0) == size.h);
}

/// Planes of chroma may be missing at the end of a ten-bit frame; they count as
/// grey.
pub proof fn law_missing_chroma_is_grey(data: Seq<u8>, at: int)
    ensures
        at >= data.len() ==> convert::chroma_at(data, at) == 128,
        0 <= at < data.len() ==> convert::chroma_at(data, at) == data[at],
{
}

} // verus!
