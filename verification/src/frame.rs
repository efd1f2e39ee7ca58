//! The wire framing: every message body travels behind a four-byte header
//! that holds the body's length as a big-endian `u32`.

use vstd::prelude::*;

verus! {

/// The four big-endian bytes of `n`, most significant first.
pub open spec fn be_bytes(n: u32) -> Seq<u8> {
    seq![(n >> 24u32) as u8, (n >> 16u32) as u8, (n >> 8u32) as u8, n as u8]
}

/// The number that four big-endian bytes stand for.
pub open spec fn be_value(h: Seq<u8>) -> nat
    recommends
        h.len() == 4,
{
    (h[0] as nat) * 0x100_0000 + (h[1] as nat) * 0x1_0000 + (h[2] as nat) * 0x100 + (h[3] as nat)
}

/// The header written in front of a body of `len` bytes. As on the wire, the
/// length is cut to its low 32 bits (`len as u32`).
pub fn frame_header(len: usize) -> (h: [u8; 4])
    ensures
        h@ == be_bytes(len as u32),
{
    let n: u32 = len as u32;
    let h: [u8; 4] = [(n >> 24u32) as u8, (n >> 16u32) as u8, (n >> 8u32) as u8, n as u8];
    assert(h@ =~= be_bytes(n));
    h
}

/// Weighing four bytes with the shifts of the decoder and with the place
/// values of `be_value` gives the same number.
proof fn lemma_shifted_weight(n: u32, b0: u8, b1: u8, b2: u8, b3: u8)
    by (bit_vector)
    requires
        n == ((b0 as u32) << 24u32) | ((b1 as u32) << 16u32) | ((b2 as u32) << 8u32) | (b3 as u32),
    ensures
        n == (b0 as u32) * 0x100_0000 + (b1 as u32) * 0x1_0000 + (b2 as u32) * 0x100 + (b3 as u32),
        b0 == (n >> 24u32) as u8,
        b1 == (n >> 16u32) as u8,
        b2 == (n >> 8u32) as u8,
        b3 == n as u8,
{
}

/// Splitting a `u32` into its big-endian bytes and weighing them again gives
/// the number back.
proof fn lemma_bytes_weigh_back(n: u32, b0: u8, b1: u8, b2: u8, b3: u8)
    by (bit_vector)
    requires
        b0 == (n >> 24u32) as u8,
        b1 == (n >> 16u32) as u8,
        b2 == (n >> 8u32) as u8,
        b3 == n as u8,
    ensures
        n == (b0 as u32) * 0x100_0000 + (b1 as u32) * 0x1_0000 + (b2 as u32) * 0x100 + (b3 as u32),
{
}

/// The body length announced by a received header.
pub fn frame_len(h: [u8; 4]) -> (len: usize)
    ensures
        len == be_value(h@),
{
    let b0: u8 = h[0];
    let b1: u8 = h[1];
    let b2: u8 = h[2];
    let b3: u8 = h[3];
    let n: u32 = ((b0 as u32) << 24u32) | ((b1 as u32) << 16u32) | ((b2 as u32) << 8u32) | (b3 as u32);
    proof {
        lemma_shifted_weight(n, b0, b1, b2, b3);
    }
    n as usize
}

/// What the reader recovers is the length that the writer framed: the header
/// of a body of `len` bytes announces `len`, for every length that fits in the
/// header's 32 bits.
pub proof fn lemma_frame_len_of_header(len: usize)
    requires
        len <= u32::MAX,
    ensures
        be_value(be_bytes(len as u32)) == len,
{
    let n: u32 = len as u32;
    lemma_bytes_weigh_back(n, (n >> 24u32) as u8, (n >> 16u32) as u8, (n >> 8u32) as u8, n as u8);
}

/// Every four-byte header is the header of the length it announces: the
/// header is a faithful encoding of a `u32`.
pub proof fn lemma_header_of_frame_len(h: Seq<u8>)
    requires
        h.len() == 4,
    ensures
        be_value(h) <= u32::MAX,
        be_bytes(be_value(h) as u32) == h,
{
    let b0: u8 = h[0];
    let b1: u8 = h[1];
    let b2: u8 = h[2];
    let b3: u8 = h[3];
    let n: u32 = ((b0 as u32) << 24u32) | ((b1 as u32) << 16u32) | ((b2 as u32) << 8u32) | (b3 as u32);
    lemma_shifted_weight(n, b0, b1, b2, b3);
    assert(be_bytes(n) =~= h);
}

/// A frame written as header then body is read back whole: from a stream that
/// holds the frame of `body` followed by anything else, the reader takes the
/// four header bytes, learns the body's length from them, and the next that
/// many bytes are `body` itself.
pub proof fn lemma_frame_roundtrip(body: Seq<u8>, rest: Seq<u8>)
    requires
        body.len() <= u32::MAX,
    ensures
        ({
            let stream = be_bytes(body.len() as u32) + body + rest;
            &&& be_value(stream.take(4)) == body.len()
            &&& stream.subrange(4, 4 + body.len() as int) == body
        }),
{
    let stream = be_bytes(body.len() as u32) + body + rest;
    lemma_frame_len_of_header(body.len() as usize);
    assert(stream.take(4) =~= be_bytes(body.len() as u32));
    assert(stream.subrange(4, 4 + body.len() as int) =~= body);
}

} // verus!
