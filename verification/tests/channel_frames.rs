use securechat::channel::{Frame, SecureChannel};
use securechat::error::ChatError;
use securechat::kdf::SessionKeys;

/// A channel whose send and receive keys agree, so frames it seals can be
/// opened on the same instance.
fn loopback_channel(key_byte: u8) -> SecureChannel {
    SecureChannel::new(SessionKeys { send_key: vec![key_byte; 32], recv_key: vec![key_byte; 32] })
}

#[test]
fn seal_open_round_trip_empty() {
    let mut ch = loopback_channel(3);
    let plaintext: Vec<u8> = Vec::new();
    let frame = ch.seal(&plaintext).expect("seal");
    let opened = ch.open(&frame).expect("open");
    assert_eq!(opened, plaintext);
}

#[test]
fn seal_open_round_trip_small() {
    let mut ch = loopback_channel(4);
    let plaintext = b"attack at dawn".to_vec();
    let frame = ch.seal(&plaintext).expect("seal");
    let opened = ch.open(&frame).expect("open");
    assert_eq!(opened, plaintext);
}

#[test]
fn seal_open_round_trip_large() {
    // Payloads above 64 KiB must round-trip too.
    let mut ch = loopback_channel(5);
    let plaintext: Vec<u8> = (0..70_000u32).map(|i| (i % 251) as u8).collect();
    let frame = ch.seal(&plaintext).expect("seal");
    let opened = ch.open(&frame).expect("open");
    assert_eq!(opened, plaintext);
}

#[test]
fn sealed_frame_has_tag_overhead() {
    let mut ch = loopback_channel(6);
    let plaintext = vec![1u8, 2, 3];
    let frame = ch.seal(&plaintext).expect("seal");
    assert_eq!(frame.nonce.len(), 12);
    assert_eq!(frame.ciphertext.len(), plaintext.len() + 16);
    assert_ne!(frame.ciphertext[..3], plaintext[..]);
}

#[test]
fn nonce_counts_up_from_zero() {
    let mut ch = loopback_channel(7);
    let first = ch.seal(&vec![0u8]).expect("seal");
    let second = ch.seal(&vec![0u8]).expect("seal");
    assert_eq!(first.nonce, vec![0u8; 12]);
    let mut expected_second = vec![0u8; 12];
    expected_second[11] = 1;
    assert_eq!(second.nonce, expected_second);
}

#[test]
fn tampering_any_single_bit_fails() {
    // Flipping any one bit of the nonce or of the ciphertext (tag included)
    // must make `open` fail with AuthenticationFailure, and the genuine
    // frame must still open afterwards.
    let mut sender = loopback_channel(8);
    let plaintext = b"msg".to_vec();
    let frame = sender.seal(&plaintext).expect("seal");
    let mut receiver = loopback_channel(8);
    for byte_index in 0..frame.nonce.len() {
        for bit in 0..8 {
            let mut nonce = frame.nonce.clone();
            nonce[byte_index] ^= 1u8 << bit;
            let tampered = Frame { nonce, ciphertext: frame.ciphertext.clone() };
            match receiver.open(&tampered) {
                Err(e) => assert_eq!(e, ChatError::AuthenticationFailure),
                Ok(_) => panic!("opened a frame with a tampered nonce"),
            }
        }
    }
    for byte_index in 0..frame.ciphertext.len() {
        for bit in 0..8 {
            let mut ciphertext = frame.ciphertext.clone();
            ciphertext[byte_index] ^= 1u8 << bit;
            let tampered = Frame { nonce: frame.nonce.clone(), ciphertext };
            match receiver.open(&tampered) {
                Err(e) => assert_eq!(e, ChatError::AuthenticationFailure),
                Ok(_) => panic!("opened a frame with a tampered ciphertext"),
            }
        }
    }
    let opened = receiver.open(&frame).expect("genuine frame still opens");
    assert_eq!(opened, plaintext);
}

#[test]
fn cross_key_rejected() {
    // A frame sealed under one key must fail to open under another.
    let mut sender = loopback_channel(9);
    let frame = sender.seal(&b"secret".to_vec()).expect("seal");
    let mut other = loopback_channel(10);
    match other.open(&frame) {
        Err(e) => assert_eq!(e, ChatError::AuthenticationFailure),
        Ok(_) => panic!("opened a frame under the wrong key"),
    }
}

#[test]
fn ten_thousand_messages_in_order_then_replay_rejected() {
    let mut sender = loopback_channel(11);
    let mut receiver = loopback_channel(11);
    let mut third_frame: Option<Frame> = None;
    for i in 0..10_000u32 {
        let payload = i.to_be_bytes().to_vec();
        let frame = sender.seal(&payload).expect("seal");
        if i == 3 {
            third_frame = Some(Frame {
                nonce: frame.nonce.clone(),
                ciphertext: frame.ciphertext.clone(),
            });
        }
        let opened = receiver.open(&frame).expect("open in order");
        assert_eq!(opened, payload);
    }
    // Replaying an already-opened frame fails: its counter nonce is
    // consumed.
    let replay = third_frame.expect("frame kept for replay");
    match receiver.open(&replay) {
        Err(e) => assert_eq!(e, ChatError::AuthenticationFailure),
        Ok(_) => panic!("replayed frame was accepted"),
    }
}

#[test]
fn out_of_order_frame_rejected_without_losing_the_channel() {
    let mut sender = loopback_channel(12);
    let mut receiver = loopback_channel(12);
    let first = sender.seal(&b"one".to_vec()).expect("seal");
    let second = sender.seal(&b"two".to_vec()).expect("seal");
    match receiver.open(&second) {
        Err(e) => assert_eq!(e, ChatError::AuthenticationFailure),
        Ok(_) => panic!("accepted a frame ahead of the expected sequence"),
    }
    // The failed open did not advance the counter: the in-order frame still
    // opens.
    assert_eq!(receiver.open(&first).expect("open first"), b"one".to_vec());
    assert_eq!(receiver.open(&second).expect("open second"), b"two".to_vec());
}
