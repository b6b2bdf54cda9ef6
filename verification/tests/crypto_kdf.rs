use securechat::crypto::{compute_shared_secret, Crypto};
use securechat::error::ChatError;
use securechat::kdf::{Role, SessionKeys};

fn fresh_pair(crypto: &Crypto) -> securechat::crypto::KeyPair {
    crypto.generate_key_pair().expect("key generation")
}

#[test]
fn keypair_public_is_32_bytes() {
    let crypto = Crypto::new();
    let kp = fresh_pair(&crypto);
    assert_eq!(kp.public_key().len(), 32);
}

#[test]
fn fresh_keypairs_differ() {
    let crypto = Crypto::new();
    let a = fresh_pair(&crypto);
    let b = fresh_pair(&crypto);
    assert_ne!(a.public_key(), b.public_key());
}

#[test]
fn dh_agreement_symmetric() {
    // Both directions of the agreement derive the same session keys, so the
    // underlying shared secrets are equal; and the keys are not either
    // side's public key, so the agreement actually computed something.
    let crypto = Crypto::new();
    let a = fresh_pair(&crypto);
    let b = fresh_pair(&crypto);
    let a_pub = a.public_key();
    let b_pub = b.public_key();
    let from_a: SessionKeys = crypto
        .perform_key_exchange(a, &b_pub, Role::Initiator)
        .expect("agreement from A");
    let from_b: SessionKeys = crypto
        .perform_key_exchange(b, &a_pub, Role::Initiator)
        .expect("agreement from B");
    assert_eq!(from_a.send_key, from_b.send_key);
    assert_eq!(from_a.recv_key, from_b.recv_key);
    assert_ne!(from_a.send_key, a_pub);
    assert_ne!(from_a.send_key, b_pub);
}

#[test]
fn dh_rejects_wrong_length_key() {
    let crypto = Crypto::new();
    let a = fresh_pair(&crypto);
    let short = vec![7u8; 31];
    match compute_shared_secret(a, &short) {
        Err(e) => assert_eq!(e, ChatError::CryptoFailure),
        Ok(_) => panic!("agreement accepted a 31-byte key"),
    }
}

#[test]
fn dh_rejects_low_order_point() {
    // The all-zero public key is a small-order point: its agreed value is
    // all zero and the agreement must refuse it.
    let crypto = Crypto::new();
    let a = fresh_pair(&crypto);
    let zero = vec![0u8; 32];
    match compute_shared_secret(a, &zero) {
        Err(e) => assert_eq!(e, ChatError::CryptoFailure),
        Ok(_) => panic!("agreement accepted a small-order point"),
    }
}

#[test]
fn derive_directional_symmetry() {
    let secret_bytes: Vec<u8> = (0u8..32u8).collect();
    let s1 = securechat::crypto::SharedSecret::from_bytes(secret_bytes.clone());
    let s2 = securechat::crypto::SharedSecret::from_bytes(secret_bytes);
    let initiator = securechat::kdf::derive(&s1, Role::Initiator);
    let responder = securechat::kdf::derive(&s2, Role::Responder);
    assert_eq!(initiator.send_key, responder.recv_key);
    assert_eq!(initiator.recv_key, responder.send_key);
}

#[test]
fn derive_keys_are_directionally_distinct() {
    let secret = securechat::crypto::SharedSecret::from_bytes(vec![9u8; 32]);
    let keys = securechat::kdf::derive(&secret, Role::Initiator);
    assert_eq!(keys.send_key.len(), 32);
    assert_eq!(keys.recv_key.len(), 32);
    assert_ne!(keys.send_key, keys.recv_key);
    assert_ne!(keys.send_key, vec![9u8; 32]);
    assert_ne!(keys.recv_key, vec![9u8; 32]);
}

#[test]
fn derive_is_deterministic_and_secret_dependent() {
    let s1 = securechat::crypto::SharedSecret::from_bytes(vec![1u8; 32]);
    let s2 = securechat::crypto::SharedSecret::from_bytes(vec![1u8; 32]);
    let s3 = securechat::crypto::SharedSecret::from_bytes(vec![2u8; 32]);
    let k1 = securechat::kdf::derive(&s1, Role::Initiator);
    let k2 = securechat::kdf::derive(&s2, Role::Initiator);
    let k3 = securechat::kdf::derive(&s3, Role::Initiator);
    assert_eq!(k1.send_key, k2.send_key);
    assert_eq!(k1.recv_key, k2.recv_key);
    assert_ne!(k1.send_key, k3.send_key);
}
