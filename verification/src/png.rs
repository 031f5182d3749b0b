//! PNG files of packed RGB. Rows are stored as they are: nothing is filtered or
//! compressed.

use vstd::prelude::*;

verus! {

/// What every file begins with.
pub const SIGNATURE: [u8; 8] = [0x89, 0x50, 0x4e, 0x47, 0x0d, 0x0a, 0x1a, 0x0a];

/// The kind of the chunk that describes the picture.
pub const IHDR: [u8; 4] = [0x49, 0x48, 0x44, 0x52];

/// The kind of the chunk that holds the picture.
pub const IDAT: [u8; 4] = [0x49, 0x44, 0x41, 0x54];

/// The kind of the last chunk.
pub const IEND: [u8; 4] = [0x49, 0x45, 0x4e, 0x44];

/// Eight bits a sample, red, green and blue, no interlacing.
pub const RGB8: [u8; 5] = [8, 2, 0, 0, 0];

/// The most bytes that a stored block holds.
pub const BLOCK: usize = 65535;

/// The most bytes that a chunk holds.
pub const CHUNK: u128 = 0x7fff_ffff;

/// A number as four bytes, the most significant first.
pub open spec fn be32(v: u32) -> Seq<u8> {
    seq![(v / 0x100_0000) as u8, (v / 0x1_0000 % 256) as u8, (v / 256 % 256) as u8, (v % 256) as u8]
}

/// A number as two bytes, the less significant first.
pub open spec fn le16(v: int) -> Seq<u8> {
    seq![(v % 256) as u8, (v / 256) as u8]
}

/// One step of the cyclic redundancy check.
pub open spec fn crc_step(c: u32) -> u32 {
    if c % 2 == 1 {
        (c / 2) ^ 0xedb8_8320
    } else {
        c / 2
    }
}

/// Steps of the cyclic redundancy check.
pub open spec fn crc_steps(c: u32, n: nat) -> u32
    decreases n,
{
    if n == 0 {
        c
    } else {
        crc_step(crc_steps(c, (n - 1) as nat))
    }
}

/// The state of the cyclic redundancy check after some bytes.
pub open spec fn crc_state(s: Seq<u8>) -> u32
    decreases s.len(),
{
    if s.len() == 0 {
        0xffff_ffff
    } else {
        crc_steps(crc_state(s.drop_last()) ^ s.last() as u32, 8)
    }
}

/// The cyclic redundancy check of some bytes.
pub open spec fn crc(s: Seq<u8>) -> u32 {
    crc_state(s) ^ 0xffff_ffff
}

/// One more than the sum of some bytes, up to a multiple of 65521.
pub open spec fn adler_low(s: Seq<u8>) -> int
    decreases s.len(),
{
    if s.len() == 0 {
        1
    } else {
        (adler_low(s.drop_last()) + s.last()) % 65521
    }
}

/// The sum of these sums over all beginnings, up to a multiple of 65521.
pub open spec fn adler_high(s: Seq<u8>) -> int
    decreases s.len(),
{
    if s.len() == 0 {
        0
    } else {
        (adler_high(s.drop_last()) + adler_low(s)) % 65521
    }
}

/// The check sum of a stream.
pub open spec fn adler(s: Seq<u8>) -> u32 {
    (adler_high(s) * 65536 + adler_low(s)) as u32
}

/// A stored block.
pub open spec fn block(last: bool, s: Seq<u8>) -> Seq<u8> {
    seq![
        if last {
            1u8
        } else {
            0u8
        },
    ] + le16(s.len() as int) + le16(BLOCK - s.len()) + s
}

/// Bytes in stored blocks, all but the last of them full.
pub open spec fn blocks(s: Seq<u8>) -> Seq<u8>
    decreases s.len(),
{
    if s.len() <= BLOCK {
        block(true, s)
    } else {
        block(false, s.take(BLOCK as int)) + blocks(s.skip(BLOCK as int))
    }
}

/// A stream that holds bytes as they are.
pub open spec fn stream(s: Seq<u8>) -> Seq<u8> {
    seq![0x78u8, 0x01] + blocks(s) + be32(adler(s))
}

/// How many bytes a stream has.
pub open spec fn stream_len(n: int) -> int {
    n + 11 + (if n <= 0 {
        0
    } else {
        (n - 1) / BLOCK as int * 5
    })
}

/// A chunk.
pub open spec fn chunk(kind: Seq<u8>, data: Seq<u8>) -> Seq<u8> {
    be32(data.len() as u32) + kind + data + be32(crc(kind + data))
}

/// How many bytes a row has: one that tells its filter, and three a pixel.
pub open spec fn row_len(width: u32) -> int {
    1 + 3 * width
}

/// The rows of a picture, none of them filtered.
pub open spec fn rows(rgb: Seq<u8>, width: u32, height: u32) -> Seq<u8> {
    Seq::new(
        (height * row_len(width)) as nat,
        |i: int|
            if i % row_len(width) == 0 {
                0u8
            } else {
                rgb[i / row_len(width) * (3 * width) + i % row_len(width) - 1]
            },
    )
}

/// Whether a picture has pixels and its rows fit a chunk.
pub open spec fn fits(width: u32, height: u32) -> bool {
    0 < width && 0 < height && stream_len(height * row_len(width)) <= CHUNK
}

/// The file of a picture.
pub open spec fn file(rgb: Seq<u8>, width: u32, height: u32) -> Seq<u8> {
    SIGNATURE@ + chunk(IHDR@, be32(width) + be32(height) + RGB8@) + chunk(
        IDAT@,
        stream(rows(rgb, width, height)),
    ) + chunk(IEND@, Seq::empty())
}

fn append(out: &mut Vec<u8>, s: &[u8])
    ensures
        final(out)@ == old(out)@ + s@,
{
    let mut i: usize = 0;
    let ghost before = out@;
    assert(before + s@.take(0) =~= before);
    while i < s.len()
        invariant
            i <= s@.len(),
            out@ == before + s@.take(i as int),
        decreases s@.len() - i,
    {
        out.push(s[i]);
        i += 1;
        assert(out@ =~= before + s@.take(i as int));
    }
    assert(s@.take(i as int) =~= s@);
}

fn append_be32(out: &mut Vec<u8>, v: u32)
    ensures
        final(out)@ == old(out)@ + be32(v),
{
    let ghost before = out@;
    out.push((v / 0x100_0000) as u8);
    out.push((v / 0x1_0000 % 256) as u8);
    out.push((v / 256 % 256) as u8);
    out.push((v % 256) as u8);
    assert(out@ =~= before + be32(v));
}

fn append_le16(out: &mut Vec<u8>, v: u16)
    ensures
        final(out)@ == old(out)@ + le16(v as int),
{
    let ghost before = out@;
    out.push((v % 256) as u8);
    out.push((v / 256) as u8);
    assert(out@ =~= before + le16(v as int));
}

fn crc_from(s: &[u8], from: usize) -> (r: u32)
    requires
        from <= s@.len(),
    ensures
        r == crc(s@.skip(from as int)),
{
    let mut c: u32 = 0xffff_ffff;
    let mut i: usize = from;
    assert(s@.subrange(from as int, from as int) =~= Seq::<u8>::empty());
    while i < s.len()
        invariant
            from <= i <= s@.len(),
            c == crc_state(s@.subrange(from as int, i as int)),
        decreases s@.len() - i,
    {
        let ghost next = s@.subrange(from as int, i + 1);
        assert(next.drop_last() =~= s@.subrange(from as int, i as int));
        let start: u32 = c ^ s[i] as u32;
        let mut d: u32 = start;
        let mut n: u32 = 0;
        while n < 8
            invariant
                n <= 8,
                d == crc_steps(start, n as nat),
            decreases 8 - n,
        {
            d = if d % 2 == 1 {
                (d / 2) ^ 0xedb8_8320
            } else {
                d / 2
            };
            n += 1;
        }
        c = d;
        i += 1;
    }
    assert(s@.subrange(from as int, i as int) =~= s@.skip(from as int));
    c ^ 0xffff_ffff
}

/// The check sum of a stream.
fn adler_of(s: &[u8]) -> (r: u32)
    ensures
        r == adler(s@),
{
    let mut low: u32 = 1;
    let mut high: u32 = 0;
    let mut i: usize = 0;
    assert(s@.take(0) =~= Seq::<u8>::empty());
    while i < s.len()
        invariant
            i <= s@.len(),
            low < 65521,
            high < 65521,
            low == adler_low(s@.take(i as int)),
            high == adler_high(s@.take(i as int)),
        decreases s@.len() - i,
    {
        assert(s@.take(i + 1).drop_last() =~= s@.take(i as int));
        low = (low + s[i] as u32) % 65521;
        high = (high + low) % 65521;
        i += 1;
    }
    assert(s@.take(i as int) =~= s@);
    high * 65536 + low
}

fn append_block(out: &mut Vec<u8>, last: bool, s: &[u8], from: usize, to: usize)
    requires
        from <= to <= s@.len(),
        to - from <= BLOCK,
    ensures
        final(out)@ == old(out)@ + block(last, s@.subrange(from as int, to as int)),
{
    let ghost before = out@;
    let ghost piece = s@.subrange(from as int, to as int);
    out.push(
        if last {
            1
        } else {
            0
        },
    );
    let n: u16 = (to - from) as u16;
    append_le16(out, n);
    append_le16(out, 65535 - n);
    let ghost head = out@;
    assert(head =~= before + (seq![
        if last {
            1u8
        } else {
            0u8
        },
    ] + le16(piece.len() as int) + le16(BLOCK - piece.len())));
    let mut i: usize = from;
    assert(s@.subrange(from as int, from as int) =~= Seq::<u8>::empty());
    assert(head + Seq::<u8>::empty() =~= head);
    while i < to
        invariant
            from <= i <= to <= s@.len(),
            out@ == head + s@.subrange(from as int, i as int),
        decreases to - i,
    {
        out.push(s[i]);
        i += 1;
        assert(out@ =~= head + s@.subrange(from as int, i as int));
    }
    assert(out@ =~= before + block(last, piece));
}

fn append_blocks(out: &mut Vec<u8>, s: &[u8])
    ensures
        final(out)@ == old(out)@ + blocks(s@),
{
    let ghost before = out@;
    let mut from: usize = 0;
    let len: usize = s.len();
    assert(s@.skip(0) =~= s@);
    while len - from > BLOCK
        invariant
            from <= len,
            len == s@.len(),
            out@ + blocks(s@.skip(from as int)) == before + blocks(s@),
        decreases len - from,
    {
        let ghost so_far = out@;
        let ghost rest = s@.skip(from as int);
        append_block(out, false, s, from, from + BLOCK);
        assert(rest.take(BLOCK as int) =~= s@.subrange(from as int, from + BLOCK));
        assert(rest.skip(BLOCK as int) =~= s@.skip(from + BLOCK));
        from = from + BLOCK;
        assert(out@ + blocks(s@.skip(from as int)) =~= so_far + blocks(rest));
    }
    assert(s@.skip(from as int) =~= s@.subrange(from as int, len as int));
    append_block(out, true, s, from, len);
}

fn append_chunk(out: &mut Vec<u8>, kind: &[u8], data: &[u8])
    requires
        data@.len() <= CHUNK,
    ensures
        final(out)@ == old(out)@ + chunk(kind@, data@),
{
    let ghost before = out@;
    append_be32(out, data.len() as u32);
    let from: usize = out.len();
    append(out, kind);
    append(out, data);
    let check: u32 = crc_from(out.as_slice(), from);
    assert(out@.skip(from as int) =~= kind@ + data@);
    append_be32(out, check);
    assert(out@ =~= before + chunk(kind@, data@));
}

pub proof fn lemma_blocks_len(s: Seq<u8>)
    ensures
        blocks(s).len() + 6 == stream_len(s.len() as int),
    decreases s.len(),
{
    if s.len() > BLOCK {
        lemma_blocks_len(s.skip(BLOCK as int));
    }
}

proof fn lemma_row(width: u32, y: int, i: int)
    requires
        0 <= y,
        0 <= i < row_len(width),
    ensures
        (y * row_len(width) + i) % row_len(width) == i,
        (y * row_len(width) + i) / row_len(width) == y,
{
    vstd::arithmetic::div_mod::lemma_fundamental_div_mod_converse(
        y * row_len(width) + i,
        row_len(width),
        y,
        i,
    );
}

fn lay_rows(rgb: &[u8], width: u32, height: u32) -> (r: Vec<u8>)
    requires
        rgb@.len() >= 3 * width * height,
    ensures
        r@ == rows(rgb@, width, height),
{
    let mut out: Vec<u8> = Vec::new();
    let mut at: usize = 0;
    let mut y: u32 = 0;
    let ghost whole = rows(rgb@, width, height);
    assert(0 * row_len(width) == 0 && 0 * (3 * width) == 0);
    assert(0 <= height * row_len(width)) by (nonlinear_arith)
        requires
            0 <= height,
            0 <= row_len(width),
    ;
    while y < height
        invariant
            y <= height,
            rgb@.len() >= 3 * width * height,
            whole == rows(rgb@, width, height),
            whole.len() == height * row_len(width),
            at == y * (3 * width),
            out@.len() == y * row_len(width),
            forall|i: int| 0 <= i < out@.len() ==> out@[i] == whole[i],
        decreases height - y,
    {
        let ghost base = y * row_len(width);
        proof {
            assert((y + 1) * row_len(width) == base + row_len(width)) by (nonlinear_arith)
                requires
                    base == y * row_len(width),
            ;
            assert((y + 1) * row_len(width) <= height * row_len(width)) by (nonlinear_arith)
                requires
                    y + 1 <= height,
                    0 <= row_len(width),
            ;
            assert(y * (3 * width) + 3 * width <= 3 * width * height) by (nonlinear_arith)
                requires
                    y + 1 <= height,
                    0 <= width,
            ;
            lemma_row(width, y as int, 0);
        }
        out.push(0);
        let start: usize = at;
        let mut i: u64 = 0;
        let bytes: u64 = 3 * width as u64;
        while i < bytes
            invariant
                y < height,
                i <= bytes == 3 * width,
                rgb@.len() >= 3 * width * height,
                whole == rows(rgb@, width, height),
                whole.len() == height * row_len(width),
                base == y * row_len(width),
                base + row_len(width) <= whole.len(),
                start == y * (3 * width),
                start + 3 * width <= rgb@.len(),
                at == start + i,
                out@.len() == base + 1 + i,
                forall|k: int| 0 <= k < out@.len() ==> out@[k] == whole[k],
            decreases bytes - i,
        {
            proof {
                lemma_row(width, y as int, i + 1);
            }
            out.push(rgb[at]);
            at += 1;
            i += 1;
        }
        assert((y + 1) * (3 * width) == y * (3 * width) + 3 * width) by (nonlinear_arith);
        y += 1;
    }
    assert(out@ =~= whole);
    out
}

fn within(width: u32, height: u32) -> (r: bool)
    ensures
        r == fits(width, height),
{
    if width == 0 || height == 0 {
        return false;
    }
    let row: u128 = 1 + 3 * width as u128;
    assert(0 < height * row <= 0x1_0000_0000 * 0x4_0000_0000) by (nonlinear_arith)
        requires
            0 < height <= 0xffff_ffff,
            0 < row <= 0x4_0000_0000,
    ;
    let n: u128 = height as u128 * row;
    n + 11 + (n - 1) / 65535 * 5 <= CHUNK
}

/// Writes the file of a picture of packed RGB; `None` where it has no pixels or
/// its rows do not fit a chunk.
pub fn encode(rgb: &[u8], width: u32, height: u32) -> (r: Option<Vec<u8>>)
    requires
        rgb@.len() >= 3 * width * height,
    ensures
        r is Some <==> fits(width, height),
        r matches Some(f) ==> f@ == file(rgb@, width, height),
{
    if !within(width, height) {
        return None;
    }
    let lines = lay_rows(rgb, width, height);
    let mut size: Vec<u8> = Vec::new();
    append_be32(&mut size, width);
    append_be32(&mut size, height);
    append(&mut size, RGB8.as_slice());
    assert(size@ =~= be32(width) + be32(height) + RGB8@);
    let mut data: Vec<u8> = Vec::new();
    data.push(0x78);
    data.push(0x01);
    assert(data@ =~= seq![0x78u8, 0x01]);
    append_blocks(&mut data, lines.as_slice());
    append_be32(&mut data, adler_of(lines.as_slice()));
    proof {
        lemma_blocks_len(lines@);
    }
    let mut out: Vec<u8> = Vec::new();
    append(&mut out, SIGNATURE.as_slice());
    assert(out@ =~= SIGNATURE@);
    append_chunk(&mut out, IHDR.as_slice(), size.as_slice());
    append_chunk(&mut out, IDAT.as_slice(), data.as_slice());
    let none: Vec<u8> = Vec::new();
    assert(none@ =~= Seq::<u8>::empty());
    append_chunk(&mut out, IEND.as_slice(), none.as_slice());
    Some(out)
}

/// What stored blocks hold; `None` where they are not well formed.
pub open spec fn read_blocks(z: Seq<u8>) -> Option<Seq<u8>>
    decreases z.len(),
{
    if z.len() < 5 {
        None
    } else {
        let n = z[1] + 256 * z[2];
        if z[3] + 256 * z[4] != BLOCK - n || z.len() < 5 + n {
            None
        } else if z[0] == 1 {
            if z.len() == 5 + n {
                Some(z.skip(5))
            } else {
                None
            }
        } else {
            match read_blocks(z.skip(5 + n)) {
                Some(rest) => Some(z.subrange(5, 5 + n) + rest),
                None => None,
            }
        }
    }
}

/// What is stored in blocks reads back.
pub proof fn law_blocks_read_back(s: Seq<u8>)
    ensures
        read_blocks(blocks(s)) == Some(s),
    decreases s.len(),
{
    let z = blocks(s);
    if s.len() <= BLOCK {
        assert(z[1] + 256 * z[2] == s.len());
        assert(z[3] + 256 * z[4] == BLOCK - s.len());
        assert(z.skip(5) =~= s);
    } else {
        let first = s.take(BLOCK as int);
        let rest = s.skip(BLOCK as int);
        law_blocks_read_back(rest);
        assert(z[1] + 256 * z[2] == BLOCK);
        assert(z[3] + 256 * z[4] == 0);
        assert(z.subrange(5, 5 + BLOCK) =~= first);
        assert(z.skip(5 + BLOCK) =~= blocks(rest));
        assert(first + rest =~= s);
    }
}

/// Every byte of a picture stands in its row behind the byte that tells the
/// filter, and that byte is 0.
pub proof fn law_rows_hold_pixels(rgb: Seq<u8>, width: u32, height: u32, y: int, i: int)
    requires
        0 <= y < height,
        0 <= i < 3 * width,
    ensures
        rows(rgb, width, height)[y * row_len(width)] == 0,
        rows(rgb, width, height)[y * row_len(width) + 1 + i] == rgb[y * (3 * width) + i],
{
    lemma_row(width, y, 0);
    lemma_row(width, y, i + 1);
    assert(0 <= y * row_len(width) && y * row_len(width) + row_len(width) <= height * row_len(
        width,
    )) by (nonlinear_arith)
        requires
            0 <= y,
            y + 1 <= height,
            0 <= row_len(width),
    ;
}

} // verus!
