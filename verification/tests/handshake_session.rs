use securechat::channel::Frame;
use securechat::crypto::Crypto;
use securechat::error::ChatError;
use securechat::handshake::{Handshake, HandshakePhase};
use securechat::kdf::Role;
use securechat::registry::{PeerAddr, SessionRegistry, SessionState};

#[test]
fn handshake_symmetry_two_nodes_exchange_messages() {
    // Node X connects to node Y: X is Initiator, Y is Responder. After the
    // handshake completes on both ends, messages decrypt in both
    // directions.
    let crypto = Crypto::new();
    let x_pair = crypto.generate_key_pair().expect("X key pair");
    let y_pair = crypto.generate_key_pair().expect("Y key pair");

    let (mut x_hs, x_key_msg) = Handshake::start(Role::Initiator, x_pair);
    let (mut y_hs, y_key_msg) = Handshake::start(Role::Responder, y_pair);
    assert_eq!(x_key_msg.len(), 32);
    assert_eq!(y_key_msg.len(), 32);

    x_hs.key_sent();
    x_hs.awaiting_peer_key();
    y_hs.key_sent();
    y_hs.awaiting_peer_key();

    let (x_hs, x_result) = x_hs.on_peer_key(&y_key_msg);
    let (y_hs, y_result) = y_hs.on_peer_key(&x_key_msg);
    assert_eq!(x_hs.phase(), HandshakePhase::Established);
    assert_eq!(y_hs.phase(), HandshakePhase::Established);
    let mut x_channel = x_result.expect("X channel");
    let mut y_channel = y_result.expect("Y channel");

    let from_x = b"hello from X".to_vec();
    let frame = x_channel.seal(&from_x).expect("X seal");
    assert_eq!(y_channel.open(&frame).expect("Y open"), from_x);

    let from_y = b"hello from Y".to_vec();
    let frame = y_channel.seal(&from_y).expect("Y seal");
    assert_eq!(x_channel.open(&frame).expect("X open"), from_y);
}

#[test]
fn handshake_fails_on_short_peer_key() {
    let crypto = Crypto::new();
    let pair = crypto.generate_key_pair().expect("key pair");
    let (mut hs, _) = Handshake::start(Role::Initiator, pair);
    hs.key_sent();
    hs.awaiting_peer_key();
    let short = vec![1u8; 31];
    let (hs, result) = hs.on_peer_key(&short);
    assert_eq!(hs.phase(), HandshakePhase::Failed);
    match result {
        Err(e) => assert_eq!(e, ChatError::CryptoFailure),
        Ok(_) => panic!("handshake accepted a short peer key"),
    }
}

fn established_registry(addr: PeerAddr, key_byte: u8) -> SessionRegistry {
    let mut registry = SessionRegistry::new();
    registry.begin_session(addr).expect("begin");
    registry.set_state(addr, SessionState::AwaitingPeerKey).expect("state");
    let keys = securechat::kdf::SessionKeys {
        send_key: vec![key_byte; 32],
        recv_key: vec![key_byte; 32],
    };
    let channel = securechat::channel::SecureChannel::new(keys);
    registry.install_channel(addr, channel).expect("install");
    registry
}

#[test]
fn second_connection_from_established_address_rejected() {
    // The new attempt is rejected and the existing session's keys and
    // counters are untouched: the counter nonce keeps counting from where
    // it stood.
    let addr = PeerAddr { ip: 0x0A00_0001, port: 54546 };
    let mut registry = established_registry(addr, 21);
    let first = registry.send_message(addr, &b"before".to_vec()).expect("send");
    assert_eq!(first.nonce, vec![0u8; 12]);

    match registry.begin_session(addr) {
        Err(e) => assert_eq!(e, ChatError::ProtocolFailure),
        Ok(_) => panic!("second connection was admitted"),
    }
    assert_eq!(registry.peer_count(), 1);

    let second = registry.send_message(addr, &b"after".to_vec()).expect("send");
    let mut expected_nonce = vec![0u8; 12];
    expected_nonce[11] = 1;
    assert_eq!(second.nonce, expected_nonce);
}

#[test]
fn send_message_to_unknown_peer_fails() {
    let mut registry = SessionRegistry::new();
    let addr = PeerAddr { ip: 1, port: 2 };
    match registry.send_message(addr, &b"hi".to_vec()) {
        Err(e) => assert_eq!(e, ChatError::UnknownPeer),
        Ok(_) => panic!("sent to a peer with no session"),
    }
}

#[test]
fn send_message_before_establishment_fails() {
    let mut registry = SessionRegistry::new();
    let addr = PeerAddr { ip: 3, port: 4 };
    registry.begin_session(addr).expect("begin");
    match registry.send_message(addr, &b"hi".to_vec()) {
        Err(e) => assert_eq!(e, ChatError::UnknownPeer),
        Ok(_) => panic!("sent on a session still handshaking"),
    }
}

#[test]
fn registry_round_trip_between_two_peers() {
    let x_addr = PeerAddr { ip: 10, port: 1000 };
    let y_addr = PeerAddr { ip: 20, port: 2000 };
    let mut x_registry = established_registry(y_addr, 33);
    let mut y_registry = established_registry(x_addr, 33);
    let message = b"registry carried".to_vec();
    let frame = x_registry.send_message(y_addr, &message).expect("seal");
    let delivered = y_registry.on_frame_received(x_addr, &frame).expect("open");
    assert_eq!(delivered, message);
}

#[test]
fn tampered_frame_tears_down_the_session() {
    let addr = PeerAddr { ip: 5, port: 6 };
    let mut sender = established_registry(addr, 44);
    let mut receiver = established_registry(addr, 44);
    let frame = sender.send_message(addr, &b"x".to_vec()).expect("seal");
    let mut ciphertext = frame.ciphertext.clone();
    ciphertext[0] ^= 1;
    let tampered = Frame { nonce: frame.nonce.clone(), ciphertext };
    match receiver.on_frame_received(addr, &tampered) {
        Err(e) => assert_eq!(e, ChatError::AuthenticationFailure),
        Ok(_) => panic!("accepted a tampered frame"),
    }
    // The session is gone: the peer is now unknown.
    assert_eq!(receiver.peer_count(), 0);
    match receiver.on_frame_received(addr, &frame) {
        Err(e) => assert_eq!(e, ChatError::UnknownPeer),
        Ok(_) => panic!("session survived an authentication failure"),
    }
}

#[test]
fn close_session_removes_only_that_peer() {
    let a = PeerAddr { ip: 1, port: 1 };
    let b = PeerAddr { ip: 2, port: 2 };
    let mut registry = SessionRegistry::new();
    registry.begin_session(a).expect("begin a");
    registry.begin_session(b).expect("begin b");
    assert!(registry.close_session(a));
    assert!(!registry.close_session(a));
    assert_eq!(registry.peer_count(), 1);
    let peers = registry.peers();
    assert_eq!(peers.len(), 1);
    assert_eq!(peers[0].0, b);
    assert_eq!(peers[0].1, SessionState::Connecting);
}

#[test]
fn peers_projection_reports_addresses_and_states() {
    let a = PeerAddr { ip: 7, port: 70 };
    let b = PeerAddr { ip: 8, port: 80 };
    let mut registry = established_registry(a, 55);
    registry.begin_session(b).expect("begin b");
    let peers = registry.peers();
    assert_eq!(peers.len(), 2);
    assert_eq!(peers[0], (a, SessionState::Established));
    assert_eq!(peers[1], (b, SessionState::Connecting));
}

#[test]
fn set_state_refuses_unknown_or_established_sessions() {
    let addr = PeerAddr { ip: 9, port: 90 };
    let mut registry = SessionRegistry::new();
    match registry.set_state(addr, SessionState::AwaitingPeerKey) {
        Err(e) => assert_eq!(e, ChatError::ProtocolFailure),
        Ok(_) => panic!("set a state on a missing session"),
    }
    let mut registry = established_registry(addr, 66);
    match registry.set_state(addr, SessionState::Closed) {
        Err(e) => assert_eq!(e, ChatError::ProtocolFailure),
        Ok(_) => panic!("demoted an established session in place"),
    }
}
