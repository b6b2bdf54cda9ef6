use securechat::channel::Frame;
use securechat::codec::{body_len_from_header, decode_body, encode_frame};
use securechat::error::ChatError;

fn sample_frame() -> Frame {
    Frame { nonce: (0u8..12u8).collect(), ciphertext: (100u8..120u8).collect() }
}

#[test]
fn encoding_layout_is_exact() {
    let frame = sample_frame();
    let encoded = encode_frame(&frame);
    // 4-byte big-endian length of (nonce || ciphertext+tag), nonce, body.
    assert_eq!(encoded.len(), 4 + 12 + 20);
    assert_eq!(&encoded[..4], &[0u8, 0, 0, 32]);
    assert_eq!(&encoded[4..16], &frame.nonce[..]);
    assert_eq!(&encoded[16..], &frame.ciphertext[..]);
}

#[test]
fn encode_decode_round_trip() {
    let frame = sample_frame();
    let encoded = encode_frame(&frame);
    let header = encoded[..4].to_vec();
    let body_len = body_len_from_header(&header).expect("header length") as usize;
    assert_eq!(body_len, encoded.len() - 4);
    let body = encoded[4..].to_vec();
    let decoded = decode_body(&body).expect("decode body");
    assert_eq!(decoded.nonce, frame.nonce);
    assert_eq!(decoded.ciphertext, frame.ciphertext);
}

#[test]
fn header_carries_big_endian_length() {
    let header = vec![0u8, 0, 1, 2];
    assert_eq!(body_len_from_header(&header).expect("length"), 258);
    let large = vec![1u8, 2, 3, 4];
    assert_eq!(body_len_from_header(&large).expect("length"), 0x0102_0304);
}

#[test]
fn header_of_wrong_size_rejected() {
    match body_len_from_header(&vec![0u8, 0, 0]) {
        Err(e) => assert_eq!(e, ChatError::ProtocolFailure),
        Ok(_) => panic!("accepted a 3-byte header"),
    }
    match body_len_from_header(&vec![0u8, 0, 0, 42, 0]) {
        Err(e) => assert_eq!(e, ChatError::ProtocolFailure),
        Ok(_) => panic!("accepted a 5-byte header"),
    }
}

#[test]
fn length_without_room_for_nonce_and_tag_rejected() {
    // 27 bytes cannot hold a 12-byte nonce and a 16-byte tag.
    match body_len_from_header(&vec![0u8, 0, 0, 27]) {
        Err(e) => assert_eq!(e, ChatError::ProtocolFailure),
        Ok(_) => panic!("accepted a length below the minimum"),
    }
    assert_eq!(body_len_from_header(&vec![0u8, 0, 0, 28]).expect("minimum length"), 28);
}

#[test]
fn truncated_body_rejected() {
    match decode_body(&vec![1u8; 27]) {
        Err(e) => assert_eq!(e, ChatError::ProtocolFailure),
        Ok(_) => panic!("accepted a truncated body"),
    }
}

#[test]
fn minimal_body_splits_into_nonce_and_tag() {
    let body: Vec<u8> = (0u8..28u8).collect();
    let frame = decode_body(&body).expect("decode");
    assert_eq!(frame.nonce, (0u8..12u8).collect::<Vec<u8>>());
    assert_eq!(frame.ciphertext, (12u8..28u8).collect::<Vec<u8>>());
}
