//! Wire frames: a framed datagram parses back exactly; junk is dropped.

use iroha_core::framing::{decode_frame, encode_frame, Frame, FrameKind};

#[test]
fn frame_round_trip() {
    let frame = Frame {
        kind: FrameKind::BlockCreated,
        payload: vec![1, 2, 3, 4, 5],
        signature: vec![9; 64],
    };
    let bytes = encode_frame(&frame);
    assert_eq!(bytes.len(), 1 + 4 + 5 + 4 + 64);
    let back = decode_frame(&bytes).expect("a framed datagram parses");
    assert_eq!(back.kind, FrameKind::BlockCreated);
    assert_eq!(back.payload, vec![1, 2, 3, 4, 5]);
    assert_eq!(back.signature, vec![9; 64]);
}

#[test]
fn empty_payload_round_trip() {
    let frame = Frame {
        kind: FrameKind::NoTransactionReceiptReceived,
        payload: Vec::new(),
        signature: Vec::new(),
    };
    let bytes = encode_frame(&frame);
    assert_eq!(bytes.len(), 9);
    let back = decode_frame(&bytes).expect("an empty frame still parses");
    assert_eq!(back.kind, FrameKind::NoTransactionReceiptReceived);
    assert!(back.payload.is_empty());
    assert!(back.signature.is_empty());
}

#[test]
fn unknown_kinds_are_dropped() {
    let frame = Frame { kind: FrameKind::BlockSigned, payload: vec![1], signature: vec![2] };
    let mut bytes = encode_frame(&frame);
    bytes[0] = 200;
    assert!(decode_frame(&bytes).is_none(), "an unknown tag is dropped");
}

#[test]
fn truncated_or_padded_frames_are_dropped() {
    let frame = Frame { kind: FrameKind::BlockSigned, payload: vec![1, 2], signature: vec![3] };
    let bytes = encode_frame(&frame);
    let mut short = bytes.clone();
    short.pop();
    assert!(decode_frame(&short).is_none(), "a truncated frame is dropped");
    let mut long = bytes.clone();
    long.push(0);
    assert!(decode_frame(&long).is_none(), "trailing bytes are dropped");
    assert!(decode_frame(&vec![3u8; 5]).is_none(), "too short for any frame");
}
