//! Key exchange engine: ephemeral X25519 key pairs and shared-secret
//! computation, backed by `ring`.

use vstd::prelude::*;

use crate::error::ChatError;
use crate::kdf::Role;
use crate::kdf::SessionKeys;

verus! {

/// Length in bytes of an X25519 public key, and of the shared secret.
pub const KEY_LEN: usize = 32;

#[verifier::external_type_specification]
#[verifier::external_body]
pub struct ExSystemRandom(ring::rand::SystemRandom);

#[verifier::external_type_specification]
#[verifier::external_body]
pub struct ExEphemeralPrivateKey(ring::agreement::EphemeralPrivateKey);

/// The X25519 Diffie-Hellman agreement, as a function of the two public
/// keys: `None` where the agreement is refused (a peer key of the wrong
/// length, or one of the curve's small-order points, whose agreed value
/// would be all zero). For honestly generated key pairs the private scalar
/// is determined by the public key, so the agreed secret is a function of
/// the pair of public keys, and symmetric in them.
pub uninterp spec fn dh_shared(local_public: Seq<u8>, peer_public: Seq<u8>) -> Option<Seq<u8>>;

/// An ephemeral X25519 key pair. Generated fresh per session; the private
/// half is opaque and zeroized on drop, and is consumed by the one
/// agreement it takes part in.
pub struct KeyPair {
    public: Vec<u8>,
    private: ring::agreement::EphemeralPrivateKey,
}

impl KeyPair {
    /// The public half, as it is sent on the wire.
    pub closed spec fn spec_public(&self) -> Seq<u8> {
        self.public@
    }

    pub open spec fn wf(&self) -> bool {
        self.spec_public().len() == KEY_LEN
    }

    /// A copy of the public key bytes.
    pub fn public_key(&self) -> (r: Vec<u8>)
        ensures
            r@ == self.spec_public(),
    {
        let mut out: Vec<u8> = Vec::new();
        let mut i: usize = 0;
        while i < self.public.len()
            invariant
                i <= self.public.len(),
                out@ == self.public@.take(i as int),
            decreases self.public.len() - i,
        {
            out.push(self.public[i]);
            i = i + 1;
        }
        proof {
            assert(out@ =~= self.public@);
        }
        out
    }
}

/// A transient shared secret: owned by the key exchange engine for the
/// duration of one derivation call and discarded after it.
pub struct SharedSecret {
    bytes: Vec<u8>,
}

impl View for SharedSecret {
    type V = Seq<u8>;

    closed spec fn view(&self) -> Seq<u8> {
        self.bytes@
    }
}

impl SharedSecret {
    pub open spec fn wf(&self) -> bool {
        self@.len() == KEY_LEN
    }

    /// Builds a shared secret from raw bytes, for derivations that start
    /// from an externally agreed value.
    pub fn from_bytes(bytes: Vec<u8>) -> (r: SharedSecret)
        requires
            bytes@.len() == KEY_LEN,
        ensures
            r@ == bytes@,
            r.wf(),
    {
        SharedSecret { bytes }
    }

    pub(crate) fn borrow_bytes(&self) -> (r: &Vec<u8>)
        ensures
            r@ == self@,
    {
        &self.bytes
    }
}

/// Computes the X25519 agreement between a local ephemeral private key and
/// a peer's public key, consuming the private key.
///
/// Relies on `ring::agreement::agree_ephemeral` with `X25519`: it refuses a
/// peer key that is not exactly 32 bytes or whose agreed value is all zero
/// (a small-order point), and otherwise yields the 32-byte Diffie-Hellman
/// value, which is determined by (and symmetric in) the two public keys.
#[verifier::external_body]
fn agree(local: KeyPair, peer_public: &Vec<u8>) -> (r: Option<Vec<u8>>)
    requires
        local.wf(),
    ensures
        peer_public@.len() == KEY_LEN ==> (r is Some <==> dh_shared(
            local.spec_public(),
            peer_public@,
        ) is Some),
        peer_public@.len() != KEY_LEN ==> r is None,
        r is Some ==> {
            &&& dh_shared(local.spec_public(), peer_public@) == Some(r->0@)
            &&& dh_shared(local.spec_public(), peer_public@) == dh_shared(
                peer_public@,
                local.spec_public(),
            )
            &&& r->0@.len() == KEY_LEN
        },
{
    let peer = ring::agreement::UnparsedPublicKey::new(
        &ring::agreement::X25519,
        peer_public.as_slice(),
    );
    ring::agreement::agree_ephemeral(local.private, &peer, |material: &[u8]| material.to_vec())
        .ok()
}

/// Key exchange engine. Holds the system entropy source that key-pair
/// generation draws from.
pub struct Crypto {
    rng: ring::rand::SystemRandom,
}

impl Crypto {
    /// Relies on `ring::rand::SystemRandom::new`, which only records that
    /// the system entropy source will be used.
    #[verifier::external_body]
    pub fn new() -> (r: Crypto) {
        Crypto { rng: ring::rand::SystemRandom::new() }
    }

    /// Generates a fresh ephemeral X25519 key pair.
    ///
    /// Relies on `ring::agreement::EphemeralPrivateKey::generate` and
    /// `compute_public_key` with `X25519`: the public key is 32 bytes, and
    /// generation fails only when the system entropy source does.
    #[verifier::external_body]
    pub fn generate_key_pair(&self) -> (r: Result<KeyPair, ChatError>)
        ensures
            r is Ok ==> r->Ok_0.wf(),
            r is Err ==> r->Err_0 == ChatError::CryptoFailure,
    {
        let private = ring::agreement::EphemeralPrivateKey::generate(
            &ring::agreement::X25519,
            &self.rng,
        ).map_err(|_| ChatError::CryptoFailure)?;
        let public = private.compute_public_key().map_err(|_| ChatError::CryptoFailure)?;
        Ok(KeyPair { public: public.as_ref().to_vec(), private })
    }

    /// Runs one side's key agreement and key derivation: computes the
    /// shared secret with the peer and derives the directional session
    /// keys for the given role.
    pub fn perform_key_exchange(
        &self,
        local: KeyPair,
        peer_public: &Vec<u8>,
        role: Role,
    ) -> (r: Result<SessionKeys, ChatError>)
        requires
            local.wf(),
        ensures
            peer_public@.len() == KEY_LEN ==> (r is Ok <==> dh_shared(
                local.spec_public(),
                peer_public@,
            ) is Some),
            peer_public@.len() != KEY_LEN ==> r is Err,
            r is Ok ==> {
                &&& dh_shared(local.spec_public(), peer_public@) is Some
                &&& r->Ok_0.matches(dh_shared(local.spec_public(), peer_public@)->0, role)
                &&& r->Ok_0.wf()
                &&& dh_shared(local.spec_public(), peer_public@) == dh_shared(
                    peer_public@,
                    local.spec_public(),
                )
            },
            r is Err ==> r->Err_0 == ChatError::CryptoFailure,
    {
        let secret = compute_shared_secret(local, peer_public)?;
        Ok(crate::kdf::derive(&secret, role))
    }
}

/// Computes the shared secret from a local private key and a peer's public
/// key. Fails with `CryptoFailure` if the peer key is not a valid point on
/// the curve (wrong length, or a small-order point).
pub fn compute_shared_secret(local: KeyPair, peer_public: &Vec<u8>) -> (r: Result<
    SharedSecret,
    ChatError,
>)
    requires
        local.wf(),
    ensures
        peer_public@.len() == KEY_LEN ==> (r is Ok <==> dh_shared(
            local.spec_public(),
            peer_public@,
        ) is Some),
        peer_public@.len() != KEY_LEN ==> r is Err,
        r is Ok ==> {
            &&& dh_shared(local.spec_public(), peer_public@) == Some(r->Ok_0@)
            &&& dh_shared(local.spec_public(), peer_public@) == dh_shared(
                peer_public@,
                local.spec_public(),
            )
            &&& r->Ok_0.wf()
        },
        r is Err ==> r->Err_0 == ChatError::CryptoFailure,
{
    match agree(local, peer_public) {
        Some(bytes) => Ok(SharedSecret { bytes }),
        None => Err(ChatError::CryptoFailure),
    }
}

} // verus!
