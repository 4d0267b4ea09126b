//! The wire framing of peer-to-peer datagrams.
//!
//! Each datagram is a length-delimited frame: a one-byte tag naming one
//! of the seven message kinds, the serialized message body, and a
//! detached signature over the content, both length-prefixed. A frame
//! with an unknown tag, or whose lengths do not add up, is dropped.
//! Serializing the message body itself is the transport runtime's
//! business; the frame treats it as bytes.

use crate::block::u32_le_bytes;
use vstd::prelude::*;

verus! {

/// The seven consensus message kinds, as they are tagged on the wire.
#[derive(Clone, Copy, Debug, PartialEq, Eq, Structural)]
pub enum FrameKind {
    /// `TransactionForwarded`.
    TransactionForwarded,
    /// `TransactionReceived`.
    TransactionReceived,
    /// `BlockCreated`.
    BlockCreated,
    /// `BlockSigned`.
    BlockSigned,
    /// `BlockCommitted`.
    BlockCommitted,
    /// `ViewChangeSuggested`.
    ViewChangeSuggested,
    /// `NoTransactionReceiptReceived`.
    NoTransactionReceiptReceived,
}

/// The wire tag of each kind.
pub open spec fn spec_tag_of(k: FrameKind) -> u8 {
    match k {
        FrameKind::TransactionForwarded => 1,
        FrameKind::TransactionReceived => 2,
        FrameKind::BlockCreated => 3,
        FrameKind::BlockSigned => 4,
        FrameKind::BlockCommitted => 5,
        FrameKind::ViewChangeSuggested => 6,
        FrameKind::NoTransactionReceiptReceived => 7,
    }
}

/// The kind a wire tag names, if any: unknown tags have none.
pub open spec fn spec_kind_of(tag: u8) -> Option<FrameKind> {
    if tag == 1 {
        Some(FrameKind::TransactionForwarded)
    } else if tag == 2 {
        Some(FrameKind::TransactionReceived)
    } else if tag == 3 {
        Some(FrameKind::BlockCreated)
    } else if tag == 4 {
        Some(FrameKind::BlockSigned)
    } else if tag == 5 {
        Some(FrameKind::BlockCommitted)
    } else if tag == 6 {
        Some(FrameKind::ViewChangeSuggested)
    } else if tag == 7 {
        Some(FrameKind::NoTransactionReceiptReceived)
    } else {
        None
    }
}

/// The `u32` held by four little-endian bytes.
pub open spec fn u32_from_le(s: Seq<u8>) -> u32
    recommends
        s.len() == 4,
{
    (s[0] as u32) | ((s[1] as u32) << 8) | ((s[2] as u32) << 16) | ((s[3] as u32) << 24)
}

/// Reading back the little-endian bytes of `x` yields `x`.
pub proof fn lemma_u32_le_round_trip(x: u32)
    ensures
        u32_from_le(u32_le_bytes(x)) == x,
{
    let s = u32_le_bytes(x);
    assert(s[0] == ((x >> 0u32) & 0xff) as u8);
    assert(s[1] == ((x >> 8u32) & 0xff) as u8);
    assert(s[2] == ((x >> 16u32) & 0xff) as u8);
    assert(s[3] == ((x >> 24u32) & 0xff) as u8);
    assert((((((x >> 0u32) & 0xff) as u8) as u32) | ((((x >> 8u32) & 0xff) as u8) as u32) << 8 | (
    (((x >> 16u32) & 0xff) as u8) as u32) << 16 | ((((x >> 24u32) & 0xff) as u8) as u32) << 24)
        == x) by (bit_vector);
}

/// Four little-endian bytes are recovered from the `u32` they hold.
pub proof fn lemma_u32_le_inverse(s: Seq<u8>)
    requires
        s.len() == 4,
    ensures
        u32_le_bytes(u32_from_le(s)) == s,
{
    let x = u32_from_le(s);
    let b0 = s[0];
    let b1 = s[1];
    let b2 = s[2];
    let b3 = s[3];
    assert(((((b0 as u32) | ((b1 as u32) << 8) | ((b2 as u32) << 16) | ((b3 as u32) << 24)) >> (
    0u32)) & 0xff) as u8 == b0) by (bit_vector);
    assert(((((b0 as u32) | ((b1 as u32) << 8) | ((b2 as u32) << 16) | ((b3 as u32) << 24)) >> (
    8u32)) & 0xff) as u8 == b1) by (bit_vector);
    assert(((((b0 as u32) | ((b1 as u32) << 8) | ((b2 as u32) << 16) | ((b3 as u32) << 24)) >> (
    16u32)) & 0xff) as u8 == b2) by (bit_vector);
    assert(((((b0 as u32) | ((b1 as u32) << 8) | ((b2 as u32) << 16) | ((b3 as u32) << 24)) >> (
    24u32)) & 0xff) as u8 == b3) by (bit_vector);
    assert(u32_le_bytes(x) =~= s);
}

/// The bytes of a frame: tag, length-prefixed body, length-prefixed
/// detached signature.
pub open spec fn spec_encode_frame(k: FrameKind, payload: Seq<u8>, signature: Seq<u8>) -> Seq<u8> {
    seq![spec_tag_of(k)] + u32_le_bytes(payload.len() as u32) + payload + u32_le_bytes(
        signature.len() as u32,
    ) + signature
}

/// What a byte string holds as a frame, if anything: the parse is a
/// function of the bytes, and a tag nobody knows, a truncated frame or
/// trailing garbage parse to nothing.
pub open spec fn spec_decode_frame(b: Seq<u8>) -> Option<(FrameKind, Seq<u8>, Seq<u8>)> {
    if b.len() < 9 {
        None
    } else {
        match spec_kind_of(b[0]) {
            None => None,
            Some(k) => {
                let plen = u32_from_le(b.subrange(1, 5)) as int;
                if b.len() < 9 + plen {
                    None
                } else {
                    let slen = u32_from_le(b.subrange(5 + plen, 9 + plen)) as int;
                    if b.len() != 9 + plen + slen {
                        None
                    } else {
                        Some(
                            (
                                k,
                                b.subrange(5, 5 + plen),
                                b.subrange(9 + plen, 9 + plen + slen),
                            ),
                        )
                    }
                }
            },
        }
    }
}

/// Round trip: a frame parses back to exactly what was framed.
pub proof fn lemma_frame_round_trip(k: FrameKind, payload: Seq<u8>, signature: Seq<u8>)
    requires
        payload.len() <= 0xffffffff,
        signature.len() <= 0xffffffff,
    ensures
        spec_decode_frame(spec_encode_frame(k, payload, signature)) == Some(
            (k, payload, signature),
        ),
{
    let b = spec_encode_frame(k, payload, signature);
    let plen = payload.len() as int;
    let slen = signature.len() as int;
    assert(b.len() == 9 + plen + slen);
    assert(b[0] == spec_tag_of(k));
    assert(spec_kind_of(spec_tag_of(k)) == Some(k));
    assert(b.subrange(1, 5) =~= u32_le_bytes(payload.len() as u32));
    lemma_u32_le_round_trip(payload.len() as u32);
    assert(b.subrange(5, 5 + plen) =~= payload);
    assert(b.subrange(5 + plen, 9 + plen) =~= u32_le_bytes(signature.len() as u32));
    lemma_u32_le_round_trip(signature.len() as u32);
    assert(b.subrange(9 + plen, 9 + plen + slen) =~= signature);
}

/// A parsed datagram: the message kind, the serialized body and the
/// sender's detached signature over it.
#[derive(Debug)]
pub struct Frame {
    /// Which consensus message the body holds.
    pub kind: FrameKind,
    /// The serialized message body.
    pub payload: Vec<u8>,
    /// The detached signature over the content.
    pub signature: Vec<u8>,
}

/// Frames a datagram for the wire.
pub fn encode_frame(frame: &Frame) -> (r: Vec<u8>)
    requires
        frame.payload@.len() <= 0xffffffff,
        frame.signature@.len() <= 0xffffffff,
    ensures
        r@ == spec_encode_frame(frame.kind, frame.payload@, frame.signature@),
{
    let mut out: Vec<u8> = Vec::new();
    let tag: u8 = match frame.kind {
        FrameKind::TransactionForwarded => 1,
        FrameKind::TransactionReceived => 2,
        FrameKind::BlockCreated => 3,
        FrameKind::BlockSigned => 4,
        FrameKind::BlockCommitted => 5,
        FrameKind::ViewChangeSuggested => 6,
        FrameKind::NoTransactionReceiptReceived => 7,
    };
    out.push(tag);
    append_u32_le_to(&mut out, frame.payload.len() as u32);
    append_all(&mut out, &frame.payload);
    append_u32_le_to(&mut out, frame.signature.len() as u32);
    append_all(&mut out, &frame.signature);
    proof {
        assert(out@ =~= spec_encode_frame(frame.kind, frame.payload@, frame.signature@));
    }
    out
}

/// Parses a datagram from the wire; anything malformed is dropped.
pub fn decode_frame(bytes: &Vec<u8>) -> (r: Option<Frame>)
    ensures
        match r {
            Some(f) => spec_decode_frame(bytes@) == Some((f.kind, f.payload@, f.signature@)),
            None => spec_decode_frame(bytes@) is None,
        },
{
    if bytes.len() < 9 {
        return None;
    }
    let tag = bytes[0];
    let kind = match tag {
        1u8 => FrameKind::TransactionForwarded,
        2u8 => FrameKind::TransactionReceived,
        3u8 => FrameKind::BlockCreated,
        4u8 => FrameKind::BlockSigned,
        5u8 => FrameKind::BlockCommitted,
        6u8 => FrameKind::ViewChangeSuggested,
        7u8 => FrameKind::NoTransactionReceiptReceived,
        _ => {
            return None;
        },
    };
    let plen = read_u32_le_at(bytes, 1);
    proof {
        assert(bytes@.subrange(1, 5) =~= seq![bytes@[1], bytes@[2], bytes@[3], bytes@[4]]);
    }
    if bytes.len() - 9 < plen as usize {
        return None;
    }
    let pl = plen as usize;
    let slen = read_u32_le_at(bytes, 5 + pl);
    proof {
        let base = 5 + pl as int;
        assert(bytes@.subrange(base, base + 4) =~= seq![
            bytes@[base],
            bytes@[base + 1],
            bytes@[base + 2],
            bytes@[base + 3],
        ]);
    }
    if bytes.len() - 9 - pl != slen as usize {
        return None;
    }
    let payload = copy_range(bytes, 5, pl);
    let signature = copy_range(bytes, 9 + pl, slen as usize);
    Some(Frame { kind, payload, signature })
}

/// Reads four little-endian bytes at `at`.
fn read_u32_le_at(bytes: &Vec<u8>, at: usize) -> (r: u32)
    requires
        at + 4 <= bytes@.len(),
    ensures
        r == u32_from_le(bytes@.subrange(at as int, at as int + 4)),
{
    let n = bytes.len();
    proof {
        assert(at + 4 <= n);
    }
    let b0 = bytes[at] as u32;
    let b1 = bytes[at + 1] as u32;
    let b2 = bytes[at + 2] as u32;
    let b3 = bytes[at + 3] as u32;
    b0 | (b1 << 8) | (b2 << 16) | (b3 << 24)
}

/// Copies `len` bytes starting at `from`.
fn copy_range(bytes: &Vec<u8>, from: usize, len: usize) -> (r: Vec<u8>)
    requires
        from + len <= bytes@.len(),
    ensures
        r@ == bytes@.subrange(from as int, from as int + len as int),
{
    let mut out: Vec<u8> = Vec::new();
    let mut i: usize = 0;
    let n = bytes.len();
    proof {
        assert(out@ =~= bytes@.subrange(from as int, from as int));
    }
    while i < len
        invariant
            i <= len,
            n == bytes@.len(),
            from + len <= n,
            out@ == bytes@.subrange(from as int, from as int + i as int),
        decreases len - i,
    {
        let b = bytes[from + i];
        out.push(b);
        proof {
            assert(out@ =~= bytes@.subrange(from as int, from as int + i + 1));
        }
        i += 1;
    }
    out
}

/// Appends all of `more`.
fn append_all(buf: &mut Vec<u8>, more: &Vec<u8>)
    ensures
        final(buf)@ == old(buf)@ + more@,
{
    let mut i: usize = 0;
    proof {
        assert(buf@ =~= old(buf)@ + more@.take(0));
    }
    while i < more.len()
        invariant
            i <= more@.len(),
            buf@ == old(buf)@ + more@.take(i as int),
        decreases more@.len() - i,
    {
        let b = more[i];
        buf.push(b);
        proof {
            assert(buf@ =~= old(buf)@ + more@.take(i + 1));
        }
        i += 1;
    }
    proof {
        assert(more@.take(more@.len() as int) =~= more@);
    }
}

/// Appends the four little-endian bytes of `x`.
fn append_u32_le_to(buf: &mut Vec<u8>, x: u32)
    ensures
        final(buf)@ == old(buf)@ + u32_le_bytes(x),
{
    let mut k: usize = 0;
    proof {
        assert(buf@ =~= old(buf)@ + u32_le_bytes(x).take(0));
    }
    while k < 4
        invariant
            k <= 4,
            buf@ == old(buf)@ + u32_le_bytes(x).take(k as int),
        decreases 4 - k,
    {
        let shift = (8 * k) as u32;
        let word = x >> shift;
        let masked = word & 0xff;
        proof {
            assert(masked <= 255) by (bit_vector)
                requires
                    masked == (x >> shift) & 0xff,
            ;
        }
        buf.push(masked as u8);
        proof {
            assert(u32_le_bytes(x)[k as int] == masked as u8);
            assert(buf@ =~= old(buf)@ + u32_le_bytes(x).take(k + 1));
        }
        k += 1;
    }
    proof {
        assert(u32_le_bytes(x).take(4) =~= u32_le_bytes(x));
    }
}

} // verus!
