//! Key derivation: turns one shared secret into two directionally distinct
//! symmetric keys, swapped by role so that the two peers' send and receive
//! keys line up.

use vstd::prelude::*;

verus! {

/// Which side of the connection this node is: the side that actively opened
/// it is the `Initiator`, the side that accepted it is the `Responder`.
/// The role, not any runtime race, decides key-direction assignment.
#[derive(Clone, Copy, Debug, PartialEq, Eq, Structural)]
pub enum Role {
    Initiator,
    Responder,
}

/// The fixed, non-secret context label for the initiator-to-responder
/// direction: the bytes of `"A->B"`.
pub open spec fn spec_label_ab() -> Seq<u8> {
    seq![65u8, 45u8, 62u8, 66u8]
}

/// The fixed, non-secret context label for the responder-to-initiator
/// direction: the bytes of `"B->A"`.
pub open spec fn spec_label_ba() -> Seq<u8> {
    seq![66u8, 45u8, 62u8, 65u8]
}

/// The 32-byte output of the extract-then-expand derivation (HKDF with
/// SHA-256, empty salt) on a secret and a context label: a function of the
/// two arguments alone.
pub uninterp spec fn hkdf_okm(secret: Seq<u8>, label: Seq<u8>) -> Seq<u8>;

/// Relies on `ring::hkdf` with `HKDF_SHA256`: extract with an empty salt,
/// then expand with the single `label` info slice into 32 bytes, determined
/// by the secret and the label alone. Expansion cannot fail at this length.
#[verifier::external_body]
fn hkdf_expand32(secret: &Vec<u8>, label: &[u8]) -> (r: Vec<u8>)
    ensures
        r@ == hkdf_okm(secret@, label@),
        r@.len() == 32,
{
    let salt = ring::hkdf::Salt::new(ring::hkdf::HKDF_SHA256, &[]);
    let prk = salt.extract(secret.as_slice());
    let info = [label];
    let okm = prk.expand(&info, ring::hkdf::HKDF_SHA256).unwrap();
    let mut out = vec![0u8; 32];
    okm.fill(&mut out).unwrap();
    out
}

fn label_ab() -> (r: Vec<u8>)
    ensures
        r@ == spec_label_ab(),
{
    let mut v: Vec<u8> = Vec::new();
    v.push(65);
    v.push(45);
    v.push(62);
    v.push(66);
    proof {
        assert(v@ =~= spec_label_ab());
    }
    v
}

fn label_ba() -> (r: Vec<u8>)
    ensures
        r@ == spec_label_ba(),
{
    let mut v: Vec<u8> = Vec::new();
    v.push(66);
    v.push(45);
    v.push(62);
    v.push(65);
    proof {
        assert(v@ =~= spec_label_ba());
    }
    v
}

/// One side's directional AEAD keys.
pub struct SessionKeys {
    pub send_key: Vec<u8>,
    pub recv_key: Vec<u8>,
}

impl SessionKeys {
    pub open spec fn wf(&self) -> bool {
        &&& self.send_key@.len() == 32
        &&& self.recv_key@.len() == 32
    }
}

/// The two directional keys a role derives from a secret, as (send, recv):
/// the initiator sends under the `"A->B"` expansion and receives under
/// `"B->A"`; the responder swaps them.
pub open spec fn spec_session_keys(secret: Seq<u8>, role: Role) -> (Seq<u8>, Seq<u8>) {
    match role {
        Role::Initiator => (hkdf_okm(secret, spec_label_ab()), hkdf_okm(secret, spec_label_ba())),
        Role::Responder => (hkdf_okm(secret, spec_label_ba()), hkdf_okm(secret, spec_label_ab())),
    }
}

impl SessionKeys {
    pub open spec fn matches(&self, secret: Seq<u8>, role: Role) -> bool {
        &&& self.send_key@ == spec_session_keys(secret, role).0
        &&& self.recv_key@ == spec_session_keys(secret, role).1
    }
}

/// Derives the directional session keys for one role from a shared secret.
pub fn derive(secret: &crate::crypto::SharedSecret, role: Role) -> (r: SessionKeys)
    ensures
        r.matches(secret@, role),
        r.wf(),
{
    let ab = label_ab();
    let ba = label_ba();
    let first = hkdf_expand32(secret.borrow_bytes(), ab.as_slice());
    let second = hkdf_expand32(secret.borrow_bytes(), ba.as_slice());
    match role {
        Role::Initiator => SessionKeys { send_key: first, recv_key: second },
        Role::Responder => SessionKeys { send_key: second, recv_key: first },
    }
}

/// Directional symmetry law: for every shared secret, the keys the
/// initiator derives are the responder's keys with send and receive
/// swapped, so what one side seals the other side's receive key opens.
pub proof fn lemma_directional_key_symmetry(secret: Seq<u8>)
    ensures
        spec_session_keys(secret, Role::Initiator).0 == spec_session_keys(
            secret,
            Role::Responder,
        ).1,
        spec_session_keys(secret, Role::Initiator).1 == spec_session_keys(
            secret,
            Role::Responder,
        ).0,
{
}

} // verus!
