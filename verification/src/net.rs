//! The packets of the network stream.
//!
//! A frame is split into fragments, each with a header of twenty bytes: the
//! magic number, the number of the frame, the place of the fragment and how
//! many there are, width and height, frame rate, quality and two bytes of zero,
//! with the more significant byte of a number first.

use vstd::prelude::*;

verus! {

/// The number that every packet begins with.
pub const MAGIC: u32 = 0x43565357;

/// The length of the header.
pub const HEADER_SIZE: usize = 20;

/// The most bytes of a frame in one packet.
pub const MAX_PAYLOAD: usize = 1400;

/// The port that streams use unless told otherwise.
pub const DEFAULT_PORT: u16 = 9000;

/// The most fragments that a frame may have.
pub const MAX_FRAGMENT_COUNT: usize = 256;

/// What a header says.
#[derive(Debug, Clone, Copy, PartialEq, Eq, Structural)]
pub struct PacketHeader {
    /// Number of the frame.
    pub seq: u32,
    /// Place of the fragment, from 0.
    pub frag_idx: u16,
    /// How many fragments the frame has.
    pub frag_count: u16,
    pub width: u16,
    pub height: u16,
    pub fps: u8,
    pub quality: u8,
}

/// Four bytes as a number.
pub open spec fn be32_at(b: Seq<u8>, i: int) -> int {
    b[i] * 0x1000000 + b[i + 1] * 0x10000 + b[i + 2] * 0x100 + b[i + 3]
}

/// Two bytes as a number.
pub open spec fn be16_at(b: Seq<u8>, i: int) -> int {
    b[i] * 0x100 + b[i + 1]
}

/// Whether bytes begin with a header.
pub open spec fn has_header(b: Seq<u8>) -> bool {
    b.len() >= HEADER_SIZE && be32_at(b, 0) == MAGIC
}

/// What the header of a packet says.
pub open spec fn header_of(b: Seq<u8>) -> PacketHeader {
    PacketHeader {
        seq: be32_at(b, 4) as u32,
        frag_idx: be16_at(b, 8) as u16,
        frag_count: be16_at(b, 10) as u16,
        width: be16_at(b, 12) as u16,
        height: be16_at(b, 14) as u16,
        fps: b[16],
        quality: b[17],
    }
}

/// A number as four bytes.
pub open spec fn be32(v: u32) -> Seq<u8> {
    seq![
        (v / 0x1000000) as u8,
        (v / 0x10000 % 0x100) as u8,
        (v / 0x100 % 0x100) as u8,
        (v % 0x100) as u8,
    ]
}

/// A number as two bytes.
pub open spec fn be16(v: u16) -> Seq<u8> {
    seq![(v / 0x100) as u8, (v % 0x100) as u8]
}

/// The bytes of a header.
pub open spec fn header_bytes(h: PacketHeader) -> Seq<u8> {
    be32(MAGIC) + be32(h.seq) + be16(h.frag_idx) + be16(h.frag_count) + be16(h.width) + be16(
        h.height,
    ) + seq![h.fps, h.quality, 0u8, 0u8]
}

fn put32(buf: &mut [u8], at: usize, v: u32)
    requires
        at + 4 <= old(buf)@.len(),
    ensures
        final(buf)@.len() == old(buf)@.len(),
        final(buf)@.subrange(at as int, at + 4) == be32(v),
        forall|i: int|
            0 <= i < old(buf)@.len() && !(at <= i < at + 4) ==> #[trigger] final(buf)@[i] == old(
                buf,
            )@[i],
{
    buf[at] = (v / 0x1000000) as u8;
    buf[at + 1] = (v / 0x10000 % 0x100) as u8;
    buf[at + 2] = (v / 0x100 % 0x100) as u8;
    buf[at + 3] = (v % 0x100) as u8;
    assert(buf@.subrange(at as int, at + 4) =~= be32(v));
}

fn put16(buf: &mut [u8], at: usize, v: u16)
    requires
        at + 2 <= old(buf)@.len(),
    ensures
        final(buf)@.len() == old(buf)@.len(),
        final(buf)@.subrange(at as int, at + 2) == be16(v),
        forall|i: int|
            0 <= i < old(buf)@.len() && !(at <= i < at + 2) ==> #[trigger] final(buf)@[i] == old(
                buf,
            )@[i],
{
    buf[at] = (v / 0x100) as u8;
    buf[at + 1] = (v % 0x100) as u8;
    assert(buf@.subrange(at as int, at + 2) =~= be16(v));
}

fn get32(buf: &[u8], at: usize) -> (r: u32)
    requires
        at + 4 <= buf@.len(),
    ensures
        r == be32_at(buf@, at as int),
{
    buf[at] as u32 * 0x1000000 + buf[at + 1] as u32 * 0x10000 + buf[at + 2] as u32 * 0x100 + buf[at
        + 3] as u32
}

fn get16(buf: &[u8], at: usize) -> (r: u16)
    requires
        at + 2 <= buf@.len(),
    ensures
        r == be16_at(buf@, at as int),
{
    buf[at] as u16 * 0x100 + buf[at + 1] as u16
}

/// Writes a header into the first bytes of a packet and leaves the others.
pub fn write_header(
    buf: &mut [u8],
    seq: u32,
    frag_idx: u16,
    frag_count: u16,
    width: u16,
    height: u16,
    fps: u8,
    quality: u8,
)
    requires
        old(buf)@.len() >= HEADER_SIZE,
    ensures
        final(buf)@ == header_bytes(
            (PacketHeader { seq, frag_idx, frag_count, width, height, fps, quality }),
        ) + old(buf)@.skip(HEADER_SIZE as int),
{
    put32(buf, 0, MAGIC);
    put32(buf, 4, seq);
    put16(buf, 8, frag_idx);
    put16(buf, 10, frag_count);
    put16(buf, 12, width);
    put16(buf, 14, height);
    let ghost numbers = buf@;
    buf[16] = fps;
    buf[17] = quality;
    buf[18] = 0;
    buf[19] = 0;
    proof {
        let h = PacketHeader { seq, frag_idx, frag_count, width, height, fps, quality };
        let rest = old(buf)@.skip(HEADER_SIZE as int);
        assert forall|i: int| 0 <= i < 4 implies #[trigger] buf@[i] == be32(MAGIC)[i] by {
            assert(numbers[i] == numbers.subrange(0, 4)[i]);
        }
        assert forall|i: int| 4 <= i < 8 implies #[trigger] buf@[i] == be32(seq)[i - 4] by {
            assert(numbers[i] == numbers.subrange(4, 8)[i - 4]);
        }
        assert forall|i: int| 8 <= i < 10 implies #[trigger] buf@[i] == be16(frag_idx)[i - 8] by {
            assert(numbers[i] == numbers.subrange(8, 10)[i - 8]);
        }
        assert forall|i: int| 10 <= i < 12 implies #[trigger] buf@[i] == be16(frag_count)[i - 10] by {
            assert(numbers[i] == numbers.subrange(10, 12)[i - 10]);
        }
        assert forall|i: int| 12 <= i < 14 implies #[trigger] buf@[i] == be16(width)[i - 12] by {
            assert(numbers[i] == numbers.subrange(12, 14)[i - 12]);
        }
        assert forall|i: int| 14 <= i < 16 implies #[trigger] buf@[i] == be16(height)[i - 14] by {
            assert(numbers[i] == numbers.subrange(14, 16)[i - 14]);
        }
        assert(buf@ =~= header_bytes(h) + rest);
    }
}

/// Reads the header of a packet. There is none where the packet is too short or
/// begins with another number.
pub fn parse_header(buf: &[u8]) -> (r: Option<PacketHeader>)
    ensures
        match r {
            Some(h) => has_header(buf@) && h == header_of(buf@),
            None => !has_header(buf@),
        },
{
    if buf.len() < HEADER_SIZE {
        return None;
    }
    if get32(buf, 0) != MAGIC {
        return None;
    }
    Some(
        PacketHeader {
            seq: get32(buf, 4),
            frag_idx: get16(buf, 8),
            frag_count: get16(buf, 10),
            width: get16(buf, 12),
            height: get16(buf, 14),
            fps: buf[16],
            quality: buf[17],
        },
    )
}

proof fn lemma_be32(b: Seq<u8>, i: int, v: u32)
    requires
        0 <= i,
        i + 4 <= b.len(),
        b[i] == be32(v)[0],
        b[i + 1] == be32(v)[1],
        b[i + 2] == be32(v)[2],
        b[i + 3] == be32(v)[3],
    ensures
        be32_at(b, i) == v,
{
}

/// A header reads back as it was written, whatever follows it.
pub proof fn law_header_reads_back(h: PacketHeader, rest: Seq<u8>)
    ensures
        has_header(header_bytes(h) + rest),
        header_of(header_bytes(h) + rest) == h,
{
    let b = header_bytes(h) + rest;
    lemma_be32(b, 0, MAGIC);
    lemma_be32(b, 4, h.seq);
    assert(b[8] == be16(h.frag_idx)[0] && b[9] == be16(h.frag_idx)[1]);
    assert(b[10] == be16(h.frag_count)[0] && b[11] == be16(h.frag_count)[1]);
    assert(b[12] == be16(h.width)[0] && b[13] == be16(h.width)[1]);
    assert(b[14] == be16(h.height)[0] && b[15] == be16(h.height)[1]);
}

proof fn lemma_bytes32(b: Seq<u8>, i: int, v: u32)
    requires
        0 <= i,
        i + 4 <= b.len(),
        be32_at(b, i) == v,
    ensures
        b.subrange(i, i + 4) == be32(v),
{
    assert(b.subrange(i, i + 4) =~= be32(v));
}

proof fn lemma_bytes16(b: Seq<u8>, i: int, v: u16)
    requires
        0 <= i,
        i + 2 <= b.len(),
        be16_at(b, i) == v,
    ensures
        b.subrange(i, i + 2) == be16(v),
{
    assert(b.subrange(i, i + 2) =~= be16(v));
}

/// A header whose last two bytes are zero is made up of what it says: it holds
/// nothing else.
pub proof fn law_header_bytes_are_determined(b: Seq<u8>)
    requires
        has_header(b),
        b[18] == 0,
        b[19] == 0,
    ensures
        b.take(HEADER_SIZE as int) == header_bytes(header_of(b)),
{
    let h = header_of(b);
    lemma_bytes32(b, 0, MAGIC);
    lemma_bytes32(b, 4, h.seq);
    lemma_bytes16(b, 8, h.frag_idx);
    lemma_bytes16(b, 10, h.frag_count);
    lemma_bytes16(b, 12, h.width);
    lemma_bytes16(b, 14, h.height);
    assert(b.take(HEADER_SIZE as int) =~= b.subrange(0, 4) + b.subrange(4, 8) + b.subrange(8, 10)
        + b.subrange(10, 12) + b.subrange(12, 14) + b.subrange(14, 16) + seq![
        b[16],
        b[17],
        b[18],
        b[19],
    ]);
}

} // verus!
