//! What the packets of a stream promise to those who read them by hand.

use vstd::prelude::*;

use crate::net::{self, PacketHeader};

verus! {

/// What a reader finds where: a header has 20 bytes, begins with the letters
/// CVSW, and holds its numbers with the high byte first, the frame's number,
/// fragment, count of fragments, width and height, then the rate and the
/// quality, then nothing.
pub proof fn law_header_layout(h: PacketHeader)
    ensures
        ({
            let b = net::header_bytes(h);
            &&& b.len() == 20
            &&& b[0] == 'C' as u32 && b[1] == 'V' as u32 && b[2] == 'S' as u32 && b[3] == 'W' as u32
            &&& 16777216 * b[4] + 65536 * b[5] + 256 * b[6] + b[7] == h.seq
            &&& 256 * b[8] + b[9] == h.frag_idx
            &&& 256 * b[10] + b[11] == h.frag_count
            &&& 256 * b[12] + b[13] == h.width
            &&& 256 * b[14] + b[15] == h.height
            &&& b[16] == h.fps
            &&& b[17] == h.quality
            &&& b[18] == 0 && b[19] == 0
        }),
{
}

/// Bytes that are too few, or that begin with other letters, are no header.
pub proof fn law_foreign_packets(b: Seq<u8>)
    ensures
        net::has_header(b) <==> b.len() >= 20 && b[0] == 'C' as u32 && b[1] == 'V' as u32 && b[2]
            == 'S' as u32 && b[3] == 'W' as u32,
{
}

} // verus!
