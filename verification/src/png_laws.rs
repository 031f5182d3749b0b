//! What a reader finds in a written PNG file: the picture's size and kind, and
//! its rows in a stream that reads back.

use vstd::prelude::*;

use crate::png;

verus! {

/// The number that four bytes of a file hold, the high one first.
pub open spec fn long_at(f: Seq<u8>, at: int) -> int {
    16777216 * f[at] + 65536 * f[at + 1] + 256 * f[at + 2] + f[at + 3]
}

/// The number that four bytes of a file hold is the one they were made of.
proof fn lemma_long(f: Seq<u8>, at: int, v: u32)
    requires
        0 <= at,
        at + 4 <= f.len(),
        f.subrange(at, at + 4) == png::be32(v),
    ensures
        long_at(f, at) == v,
{
    let s = f.subrange(at, at + 4);
    assert(s[0] == f[at] && s[1] == f[at + 1] && s[2] == f[at + 2] && s[3] == f[at + 3]);
}

/// The file begins with the signature of the format and the chunk that describes
/// the picture: its width, its height, eight bits a sample, red, green and blue,
/// and nothing special. The chunk ends with its check.
pub proof fn law_file_states_its_size(rgb: Seq<u8>, width: u32, height: u32)
    ensures
        ({
            let f = png::file(rgb, width, height);
            &&& f.take(8) == seq![0x89u8, 0x50, 0x4e, 0x47, 0x0d, 0x0a, 0x1a, 0x0a]
            &&& long_at(f, 8) == 13
            &&& f.subrange(12, 16) == seq![0x49u8, 0x48, 0x44, 0x52]
            &&& long_at(f, 16) == width
            &&& long_at(f, 20) == height
            &&& f.subrange(24, 29) == seq![8u8, 2, 0, 0, 0]
            &&& long_at(f, 29) == png::crc(f.subrange(12, 29))
        }),
{
    let f = png::file(rgb, width, height);
    let d = png::be32(width) + png::be32(height) + png::RGB8@;
    let c = png::chunk(png::IHDR@, d);
    assert(d.len() == 13);
    assert(c.len() == 25);
    assert(f.take(8) =~= seq![0x89u8, 0x50, 0x4e, 0x47, 0x0d, 0x0a, 0x1a, 0x0a]);
    assert(f.subrange(8, 33) =~= c);
    assert(f.subrange(8, 12) =~= png::be32(13));
    lemma_long(f, 8, 13);
    assert(f.subrange(12, 16) =~= seq![0x49u8, 0x48, 0x44, 0x52]);
    assert(f.subrange(16, 20) =~= png::be32(width));
    lemma_long(f, 16, width);
    assert(f.subrange(20, 24) =~= png::be32(height));
    lemma_long(f, 20, height);
    assert(f.subrange(24, 29) =~= seq![8u8, 2, 0, 0, 0]);
    assert(f.subrange(12, 29) =~= png::IHDR@ + d);
    assert(f.subrange(29, 33) =~= png::be32(png::crc(png::IHDR@ + d)));
    lemma_long(f, 29, png::crc(png::IHDR@ + d));
}

/// Behind that stands one chunk with the rows: a stream whose two first bytes
/// say that it is one, whose blocks read back as the rows, and which ends with
/// its check sum. The empty last chunk ends the file.
pub proof fn law_file_holds_the_rows(rgb: Seq<u8>, width: u32, height: u32)
    requires
        png::fits(width, height),
    ensures
        ({
            let f = png::file(rgb, width, height);
            let n = long_at(f, 33);
            let data = f.subrange(41, 41 + n);
            &&& f.len() == 33 + 12 + n + 12
            &&& f.subrange(37, 41) == seq![0x49u8, 0x44, 0x41, 0x54]
            &&& data[0] == 0x78 && data[1] == 0x01
            &&& (256 * data[0] + data[1]) % 31 == 0
            &&& png::read_blocks(data.subrange(2, n - 4)) == Some(png::rows(rgb, width, height))
            &&& long_at(data, n - 4) == png::adler(png::rows(rgb, width, height))
            &&& long_at(f, 41 + n) == png::crc(f.subrange(37, 41 + n))
            &&& f.skip(45 + n).take(8) == seq![0u8, 0, 0, 0, 0x49, 0x45, 0x4e, 0x44]
        }),
{
    let f = png::file(rgb, width, height);
    let rows = png::rows(rgb, width, height);
    let s = png::stream(rows);
    let head = png::SIGNATURE@ + png::chunk(
        png::IHDR@,
        png::be32(width) + png::be32(height) + png::RGB8@,
    );
    let mid = png::chunk(png::IDAT@, s);
    let tail = png::chunk(png::IEND@, Seq::empty());
    assert(head.len() == 33);
    assert(f =~= head + mid + tail);
    png::lemma_blocks_len(rows);
    assert(s.len() == png::stream_len(rows.len() as int));
    assert(height * png::row_len(width) >= 0) by (nonlinear_arith)
        requires
            height >= 0,
            png::row_len(width) >= 0,
    ;
    assert(s.len() <= 0x7fff_ffff);
    let n = s.len() as int;
    assert(mid.len() == n + 12);
    assert(f.subrange(33, 37) =~= png::be32(n as u32));
    lemma_long(f, 33, n as u32);
    let data = f.subrange(41, 41 + n);
    assert(data =~= s);
    assert(f.subrange(37, 41) =~= seq![0x49u8, 0x44, 0x41, 0x54]);
    assert(data.subrange(2, n - 4) =~= png::blocks(rows));
    png::law_blocks_read_back(rows);
    assert(data.subrange(n - 4, n) =~= png::be32(png::adler(rows)));
    lemma_long(data, n - 4, png::adler(rows));
    assert(f.subrange(37, 41 + n) =~= png::IDAT@ + s);
    assert(f.subrange(41 + n, 45 + n) =~= png::be32(png::crc(png::IDAT@ + s)));
    lemma_long(f, 41 + n, png::crc(png::IDAT@ + s));
    assert(f.skip(45 + n) =~= tail);
    assert(tail.take(8) =~= seq![0u8, 0, 0, 0, 0x49, 0x45, 0x4e, 0x44]);
}

/// The sum of some bytes.
pub open spec fn byte_sum(s: Seq<u8>) -> int
    decreases s.len(),
{
    if s.len() == 0 {
        0
    } else {
        byte_sum(s.drop_last()) + s.last()
    }
}

/// The sum over all beginnings of the bytes, the empty one left out, of one more
/// than their sum.
pub open spec fn sum_of_sums(s: Seq<u8>) -> int
    decreases s.len(),
{
    if s.len() == 0 {
        0
    } else {
        sum_of_sums(s.drop_last()) + 1 + byte_sum(s)
    }
}

/// A check sum has one more than the sum of the bytes in its low half and the sum
/// of these sums in its high half, both up to a multiple of 65521.
pub proof fn law_check_sum(s: Seq<u8>)
    ensures
        png::adler(s) % 65536 == (1 + byte_sum(s)) % 65521,
        png::adler(s) / 65536 == sum_of_sums(s) % 65521,
{
    lemma_halves(s);
    assert(0 <= png::adler_high(s) * 65536 + png::adler_low(s) <= u32::MAX);
}

proof fn lemma_halves(s: Seq<u8>)
    ensures
        png::adler_low(s) == (1 + byte_sum(s)) % 65521,
        png::adler_high(s) == sum_of_sums(s) % 65521,
    decreases s.len(),
{
    if s.len() > 0 {
        lemma_halves(s.drop_last());
    }
}

/// One step of the check divides by two and, where a bit falls out, mixes the
/// reflected polynomial of the format in; the check of nothing is 0.
pub proof fn law_check_polynomial(k: u32)
    requires
        k < 0x8000_0000,
    ensures
        png::crc_step((2 * k) as u32) == k,
        png::crc_step((2 * k + 1) as u32) == k ^ 0xedb8_8320,
        png::crc_steps(1, 8) == 0x7707_3096,
        png::crc(Seq::empty()) == 0,
{
    assert(0xffff_ffffu32 ^ 0xffff_ffffu32 == 0) by (bit_vector);
    reveal_with_fuel(png::crc_steps, 9);
    assert(0u32 ^ 0xedb8_8320u32 == 0xedb8_8320u32) by (bit_vector);
    assert(0x03b6_e20cu32 ^ 0xedb8_8320u32 == 0xee0e_612cu32) by (bit_vector);
    assert(png::crc_steps(1, 1) == 0xedb8_8320);
    assert(png::crc_steps(1, 7) == 0xee0e_612c);
}

/// A stored block holds what two bytes can count, and a chunk what 31 bits can.
pub proof fn law_limits()
    ensures
        png::BLOCK == 65535,
        png::CHUNK == 0x7fff_ffff,
{
}

/// A byte is mixed into the low bits of the check, and eight steps follow.
pub proof fn law_check_goes_on(s: Seq<u8>, b: u8)
    ensures
        png::crc(s.push(b)) == png::crc_steps((png::crc(s) ^ 0xffff_ffff) ^ (b as u32), 8) ^ 0xffff_ffff,
{
    assert(s.push(b).drop_last() =~= s);
    let c = png::crc_state(s);
    assert((c ^ 0xffff_ffffu32) ^ 0xffff_ffffu32 == c) by (bit_vector);
}

/// A picture is written where it has pixels and its rows, each with one byte more
/// than its pixels have, fit a chunk together with what the stream adds: eleven
/// bytes, and five more for each further 65535.
pub proof fn law_written_sizes(width: u32, height: u32)
    ensures
        ({
            let n = height as int * (3 * width + 1);
            png::fits(width, height) <==> width > 0 && height > 0 && n + 11 + 5 * ((n - 1) / 65535)
                <= 0x7fff_ffff
        }),
{
    let n = height as int * (3 * width + 1);
    assert(png::row_len(width) == 3 * width + 1);
    if width > 0 && height > 0 {
        assert(n > 0) by (nonlinear_arith)
            requires
                n == height as int * (3 * width + 1),
                height > 0,
                width > 0,
        ;
    }
}

} // verus!
