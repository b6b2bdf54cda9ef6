//! Handshake state machine. Each side sends its freshly generated ephemeral
//! public key as the first bytes on the stream, reads exactly the peer's
//! public-key-length bytes, computes the shared secret, and derives the
//! directional session keys for its role. The driver around it performs the
//! writes and reads; the machine decides.

use vstd::prelude::*;

use crate::channel::SecureChannel;
use crate::crypto::{compute_shared_secret, dh_shared, KeyPair, KEY_LEN};
use crate::error::ChatError;
use crate::kdf::{spec_session_keys, Role};

verus! {

/// Where a handshake stands. It moves only forward: from `Start` through
/// `SentLocalKey` and `AwaitingPeerKey` to `Established` or `Failed`.
#[derive(Clone, Copy, Debug, PartialEq, Eq, Structural)]
pub enum HandshakePhase {
    Start,
    SentLocalKey,
    AwaitingPeerKey,
    Established,
    Failed,
}

/// One side's handshake: its role, the phase reached, and — until the
/// exchange completes — the local ephemeral key pair.
pub struct Handshake {
    role: Role,
    phase: HandshakePhase,
    local: Option<KeyPair>,
}

impl Handshake {
    pub closed spec fn spec_role(&self) -> Role {
        self.role
    }

    pub closed spec fn spec_phase(&self) -> HandshakePhase {
        self.phase
    }

    /// The local ephemeral public key, meaningful until the handshake
    /// resolves.
    pub closed spec fn spec_local_public(&self) -> Seq<u8> {
        self.local->0.spec_public()
    }

    pub open spec fn wf(&self) -> bool {
        match self.spec_phase() {
            HandshakePhase::Start => self.has_local_key(),
            HandshakePhase::SentLocalKey => self.has_local_key(),
            HandshakePhase::AwaitingPeerKey => self.has_local_key(),
            HandshakePhase::Established => true,
            HandshakePhase::Failed => true,
        }
    }

    pub closed spec fn has_local_key(&self) -> bool {
        self.local is Some && self.local->0.wf()
    }

    pub fn phase(&self) -> (r: HandshakePhase)
        ensures
            r == self.spec_phase(),
    {
        self.phase
    }

    pub fn role(&self) -> (r: Role)
        ensures
            r == self.spec_role(),
    {
        self.role
    }

    /// Begins a handshake for one side: takes the freshly generated local
    /// key pair and the role that the connection direction assigned, and
    /// hands back the public-key bytes that must be the first thing written
    /// to the stream.
    pub fn start(role: Role, local: KeyPair) -> (r: (Handshake, Vec<u8>))
        requires
            local.wf(),
        ensures
            r.0.wf(),
            r.0.spec_role() == role,
            r.0.spec_phase() == HandshakePhase::Start,
            r.0.spec_local_public() == local.spec_public(),
            r.1@ == local.spec_public(),
            r.1@.len() == KEY_LEN,
    {
        let message = local.public_key();
        (Handshake { role, phase: HandshakePhase::Start, local: Some(local) }, message)
    }

    /// Records that the local public key went out on the stream.
    pub fn key_sent(&mut self)
        requires
            old(self).wf(),
            old(self).spec_phase() == HandshakePhase::Start,
        ensures
            final(self).wf(),
            final(self).spec_phase() == HandshakePhase::SentLocalKey,
            final(self).spec_role() == old(self).spec_role(),
            final(self).spec_local_public() == old(self).spec_local_public(),
    {
        self.phase = HandshakePhase::SentLocalKey;
    }

    /// Records that the machine now blocks on the peer's key.
    pub fn awaiting_peer_key(&mut self)
        requires
            old(self).wf(),
            old(self).spec_phase() == HandshakePhase::SentLocalKey,
        ensures
            final(self).wf(),
            final(self).spec_phase() == HandshakePhase::AwaitingPeerKey,
            final(self).spec_role() == old(self).spec_role(),
            final(self).spec_local_public() == old(self).spec_local_public(),
    {
        self.phase = HandshakePhase::AwaitingPeerKey;
    }

    /// Resolves the handshake on the peer's public key: computes the shared
    /// secret, derives the session keys for this side's role, and installs
    /// them in a fresh channel with both counters at zero. Succeeds exactly
    /// when the agreement accepts the peer key; any failure is final, and
    /// no channel exists for a failed handshake.
    pub fn on_peer_key(self, peer_public: &Vec<u8>) -> (r: (Handshake, Result<
        SecureChannel,
        ChatError,
    >))
        requires
            self.wf(),
            self.spec_phase() == HandshakePhase::AwaitingPeerKey,
        ensures
            r.0.wf(),
            r.0.spec_role() == self.spec_role(),
            r.1 is Ok <==> r.0.spec_phase() == HandshakePhase::Established,
            r.1 is Err <==> r.0.spec_phase() == HandshakePhase::Failed,
            peer_public@.len() == KEY_LEN ==> (r.1 is Ok <==> dh_shared(
                self.spec_local_public(),
                peer_public@,
            ) is Some),
            peer_public@.len() != KEY_LEN ==> r.1 is Err,
            r.1 is Ok ==> {
                &&& r.1->Ok_0.wf()
                &&& r.1->Ok_0.spec_send_seq() == 0
                &&& r.1->Ok_0.spec_recv_seq() == 0
                &&& r.1->Ok_0.spec_send_key() == spec_session_keys(
                    dh_shared(self.spec_local_public(), peer_public@)->0,
                    self.spec_role(),
                ).0
                &&& r.1->Ok_0.spec_recv_key() == spec_session_keys(
                    dh_shared(self.spec_local_public(), peer_public@)->0,
                    self.spec_role(),
                ).1
                &&& dh_shared(self.spec_local_public(), peer_public@) == dh_shared(
                    peer_public@,
                    self.spec_local_public(),
                )
            },
            r.1 is Err ==> r.1->Err_0 == ChatError::CryptoFailure,
    {
        let Handshake { role, phase: _, local } = self;
        let local_key = match local {
            Some(k) => k,
            None => {
                return (
                    Handshake { role, phase: HandshakePhase::Failed, local: None },
                    Err(ChatError::CryptoFailure),
                );
            },
        };
        match compute_shared_secret(local_key, peer_public) {
            Ok(secret) => {
                let keys = crate::kdf::derive(&secret, role);
                let channel = SecureChannel::new(keys);
                (Handshake { role, phase: HandshakePhase::Established, local: None }, Ok(channel))
            },
            Err(e) => (Handshake { role, phase: HandshakePhase::Failed, local: None }, Err(e)),
        }
    }
}

/// Handshake symmetry law: when the initiator's agreement on `(x, y)` and
/// the responder's agreement on `(y, x)` yield the same secret — which the
/// key exchange guarantees of every completed pair of handshakes — the two
/// channels the handshakes install mirror each other: each side's send key
/// is the other side's receive key, so what one seals the other opens.
pub proof fn lemma_handshake_key_agreement(x_public: Seq<u8>, y_public: Seq<u8>)
    requires
        dh_shared(x_public, y_public) == dh_shared(y_public, x_public),
        dh_shared(x_public, y_public) is Some,
    ensures
        spec_session_keys(dh_shared(x_public, y_public)->0, Role::Initiator).0
            == spec_session_keys(dh_shared(y_public, x_public)->0, Role::Responder).1,
        spec_session_keys(dh_shared(x_public, y_public)->0, Role::Initiator).1
            == spec_session_keys(dh_shared(y_public, x_public)->0, Role::Responder).0,
{
    crate::kdf::lemma_directional_key_symmetry(dh_shared(x_public, y_public)->0);
}

} // verus!
