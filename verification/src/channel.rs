//! Secure channel: one send key, one receive key, and two independent
//! monotonically increasing sequence counters. `seal` authenticates and
//! encrypts a payload into a frame; `open` verifies and decrypts one.
//!
//! Nonces are counter-based: the 96-bit nonce of a frame is the big-endian
//! encoding of the sending side's sequence number, so uniqueness per key is
//! structural, a receiver knows exactly which nonce the next frame must
//! carry, and an exact replay is rejected because its nonce is already
//! consumed.

use vstd::prelude::*;

use crate::error::ChatError;
use crate::kdf::SessionKeys;

verus! {

/// Length in bytes of an AEAD nonce.
pub const NONCE_LEN: usize = 12;

/// Length in bytes of an AEAD authentication tag.
pub const TAG_LEN: usize = 16;

/// The largest payload `seal` accepts: a sealed frame's length field is four
/// bytes and covers the nonce and the ciphertext with its tag.
pub const MAX_PLAINTEXT_LEN: usize = 0xFFFF_FFFF - 28;

/// The wire unit carrying one sealed message: the nonce it was sealed with
/// and the ciphertext with its 16-byte authentication tag appended.
pub struct Frame {
    pub nonce: Vec<u8>,
    pub ciphertext: Vec<u8>,
}

impl Frame {
    pub open spec fn wf(&self) -> bool {
        &&& self.nonce@.len() == NONCE_LEN
        &&& self.ciphertext@.len() >= TAG_LEN
        &&& self.nonce@.len() + self.ciphertext@.len() <= u32::MAX
    }
}

/// The ChaCha20-Poly1305 sealing of a plaintext under a key and nonce: the
/// ciphertext with its tag appended, a function of the three arguments
/// alone.
pub uninterp spec fn aead_ct(key: Seq<u8>, nonce: Seq<u8>, plaintext: Seq<u8>) -> Seq<u8>;

/// Relies on ring's ChaCha20-Poly1305 `seal_in_place_append_tag`: the
/// ciphertext with its 16-byte tag is determined by key, nonce and
/// plaintext alone, is 16 bytes longer than the plaintext, and sealing
/// cannot fail at these lengths.
#[verifier::external_body]
fn aead_seal(key: &Vec<u8>, nonce: &Vec<u8>, plaintext: &Vec<u8>) -> (r: Vec<u8>)
    requires
        key@.len() == 32,
        nonce@.len() == NONCE_LEN,
        plaintext@.len() <= MAX_PLAINTEXT_LEN,
    ensures
        r@ == aead_ct(key@, nonce@, plaintext@),
        r@.len() == plaintext@.len() + TAG_LEN,
{
    let unbound = ring::aead::UnboundKey::new(&ring::aead::CHACHA20_POLY1305, key).unwrap();
    let sealing = ring::aead::LessSafeKey::new(unbound);
    let n = ring::aead::Nonce::try_assume_unique_for_key(nonce).unwrap();
    let mut in_out = plaintext.clone();
    sealing.seal_in_place_append_tag(n, ring::aead::Aad::empty(), &mut in_out).unwrap();
    in_out
}

/// Relies on ring's ChaCha20-Poly1305 `open_in_place`: it recomputes the
/// tag and succeeds exactly on the ciphertexts that sealing under the same
/// key and nonce produces, returning the plaintext that sealing started
/// from (16 bytes shorter than the ciphertext).
#[verifier::external_body]
fn aead_open(key: &Vec<u8>, nonce: &Vec<u8>, ciphertext: &Vec<u8>) -> (r: Option<Vec<u8>>)
    requires
        key@.len() == 32,
        nonce@.len() == NONCE_LEN,
    ensures
        r is Some <==> exists|pt: Seq<u8>| ciphertext@ == aead_ct(key@, nonce@, pt),
        forall|pt: Seq<u8>| ciphertext@ == aead_ct(key@, nonce@, pt) ==> r is Some && r->0@ == pt,
        r is Some ==> r->0@.len() + TAG_LEN == ciphertext@.len(),
{
    let unbound = ring::aead::UnboundKey::new(&ring::aead::CHACHA20_POLY1305, key).ok()?;
    let opening = ring::aead::LessSafeKey::new(unbound);
    let n = ring::aead::Nonce::try_assume_unique_for_key(nonce).ok()?;
    let mut in_out = ciphertext.clone();
    let len = opening.open_in_place(n, ring::aead::Aad::empty(), &mut in_out).ok()?.len();
    in_out.truncate(len);
    Some(in_out)
}

/// The 12-byte big-endian nonce that carries sequence number `n`: four zero
/// bytes, then the eight bytes of `n`, most significant first.
pub open spec fn be12(n: u64) -> Seq<u8> {
    seq![
        0u8,
        0u8,
        0u8,
        0u8,
        (n >> 56) as u8,
        (n >> 48) as u8,
        (n >> 40) as u8,
        (n >> 32) as u8,
        (n >> 24) as u8,
        (n >> 16) as u8,
        (n >> 8) as u8,
        n as u8,
    ]
}

/// Distinct sequence numbers get distinct nonces.
pub proof fn lemma_be12_injective(a: u64, b: u64)
    requires
        be12(a) == be12(b),
    ensures
        a == b,
{
    assert(be12(a)[4] == be12(b)[4]);
    assert(be12(a)[5] == be12(b)[5]);
    assert(be12(a)[6] == be12(b)[6]);
    assert(be12(a)[7] == be12(b)[7]);
    assert(be12(a)[8] == be12(b)[8]);
    assert(be12(a)[9] == be12(b)[9]);
    assert(be12(a)[10] == be12(b)[10]);
    assert(be12(a)[11] == be12(b)[11]);
    assert(a == b) by (bit_vector)
        requires
            (a >> 56) as u8 == (b >> 56) as u8,
            (a >> 48) as u8 == (b >> 48) as u8,
            (a >> 40) as u8 == (b >> 40) as u8,
            (a >> 32) as u8 == (b >> 32) as u8,
            (a >> 24) as u8 == (b >> 24) as u8,
            (a >> 16) as u8 == (b >> 16) as u8,
            (a >> 8) as u8 == (b >> 8) as u8,
            a as u8 == b as u8,
    ;
}

fn nonce_for_seq(n: u64) -> (r: Vec<u8>)
    ensures
        r@ == be12(n),
        r@.len() == NONCE_LEN,
{
    let mut v: Vec<u8> = Vec::new();
    v.push(0);
    v.push(0);
    v.push(0);
    v.push(0);
    v.push((n >> 56) as u8);
    v.push((n >> 48) as u8);
    v.push((n >> 40) as u8);
    v.push((n >> 32) as u8);
    v.push((n >> 24) as u8);
    v.push((n >> 16) as u8);
    v.push((n >> 8) as u8);
    v.push(n as u8);
    proof {
        assert(v@ =~= be12(n));
    }
    v
}

/// The nonce a frame sealed at sequence number `seq` carries.
pub open spec fn seal_frame_nonce(seq: u64) -> Seq<u8> {
    be12(seq)
}

/// The ciphertext of a frame sealed under `key` at sequence number `seq`.
pub open spec fn seal_frame_ct(key: Seq<u8>, seq: u64, plaintext: Seq<u8>) -> Seq<u8> {
    aead_ct(key, be12(seq), plaintext)
}

/// When a receiver whose key is `recv_key` and whose next expected sequence
/// number is `recv_seq` accepts a frame `(nonce, ct)` as carrying plaintext
/// `pt`: the nonce must be exactly the encoding of `recv_seq`, the
/// ciphertext must be the sealing of `pt` under that nonce, and the counter
/// must still have room to advance.
pub open spec fn open_accepts(
    recv_key: Seq<u8>,
    recv_seq: u64,
    nonce: Seq<u8>,
    ct: Seq<u8>,
    pt: Seq<u8>,
) -> bool {
    &&& recv_seq < u64::MAX
    &&& nonce == be12(recv_seq)
    &&& ct == aead_ct(recv_key, nonce, pt)
}

/// An established secure channel: directional keys and the two sequence
/// counters, both starting at zero.
pub struct SecureChannel {
    send_key: Vec<u8>,
    recv_key: Vec<u8>,
    send_seq: u64,
    recv_seq: u64,
}

impl SecureChannel {
    pub closed spec fn spec_send_key(&self) -> Seq<u8> {
        self.send_key@
    }

    pub closed spec fn spec_recv_key(&self) -> Seq<u8> {
        self.recv_key@
    }

    pub closed spec fn spec_send_seq(&self) -> u64 {
        self.send_seq
    }

    pub closed spec fn spec_recv_seq(&self) -> u64 {
        self.recv_seq
    }

    pub open spec fn wf(&self) -> bool {
        &&& self.spec_send_key().len() == 32
        &&& self.spec_recv_key().len() == 32
    }

    /// Both counters advance monotonically and the keys never change: the
    /// relation between a channel and any later state of it.
    pub open spec fn same_keys(&self, other: &SecureChannel) -> bool {
        &&& self.spec_send_key() == other.spec_send_key()
        &&& self.spec_recv_key() == other.spec_recv_key()
    }

    /// The relation `seal` establishes between the channel before the call,
    /// the channel after it, the frame produced, and the payload sealed.
    pub open spec fn spec_seal_ok(
        &self,
        after: SecureChannel,
        frame: Frame,
        plaintext: Seq<u8>,
    ) -> bool {
        &&& self.spec_send_seq() < u64::MAX
        &&& frame.nonce@ == seal_frame_nonce(self.spec_send_seq())
        &&& frame.ciphertext@ == seal_frame_ct(
            self.spec_send_key(),
            self.spec_send_seq(),
            plaintext,
        )
        &&& self.same_keys(&after)
        &&& after.spec_send_seq() == self.spec_send_seq() + 1
        &&& after.spec_recv_seq() == self.spec_recv_seq()
    }

    /// The relation `open` establishes between the channel before the call,
    /// the channel after it, the frame consumed, and the payload returned.
    pub open spec fn spec_open_ok(
        &self,
        after: SecureChannel,
        frame: Frame,
        plaintext: Seq<u8>,
    ) -> bool {
        &&& open_accepts(
            self.spec_recv_key(),
            self.spec_recv_seq(),
            frame.nonce@,
            frame.ciphertext@,
            plaintext,
        )
        &&& self.same_keys(&after)
        &&& after.spec_recv_seq() == self.spec_recv_seq() + 1
        &&& after.spec_send_seq() == self.spec_send_seq()
    }

    /// Installs a fresh channel over derived session keys, with both
    /// sequence counters at zero.
    pub fn new(keys: SessionKeys) -> (r: SecureChannel)
        requires
            keys.wf(),
        ensures
            r.wf(),
            r.spec_send_key() == keys.send_key@,
            r.spec_recv_key() == keys.recv_key@,
            r.spec_send_seq() == 0,
            r.spec_recv_seq() == 0,
    {
        SecureChannel {
            send_key: keys.send_key,
            recv_key: keys.recv_key,
            send_seq: 0,
            recv_seq: 0,
        }
    }

    /// Authenticates and encrypts `plaintext` under the send key, stamping
    /// the frame with the nonce of the current send sequence number and
    /// advancing it. Fails only when the counter would overflow, which is
    /// fatal: the channel must be torn down, since key reuse beyond that
    /// bound is unsafe.
    pub fn seal(&mut self, plaintext: &Vec<u8>) -> (r: Result<Frame, ChatError>)
        requires
            old(self).wf(),
            plaintext@.len() <= MAX_PLAINTEXT_LEN,
        ensures
            final(self).wf(),
            old(self).same_keys(final(self)),
            final(self).spec_recv_seq() == old(self).spec_recv_seq(),
            r is Ok <==> old(self).spec_send_seq() < u64::MAX,
            r is Ok ==> {
                &&& r->Ok_0.nonce@ == seal_frame_nonce(old(self).spec_send_seq())
                &&& r->Ok_0.ciphertext@ == seal_frame_ct(
                    old(self).spec_send_key(),
                    old(self).spec_send_seq(),
                    plaintext@,
                )
                &&& r->Ok_0.ciphertext@.len() == plaintext@.len() + TAG_LEN
                &&& r->Ok_0.wf()
                &&& final(self).spec_send_seq() == old(self).spec_send_seq() + 1
            },
            r is Err ==> {
                &&& r->Err_0 == ChatError::CryptoFailure
                &&& final(self).spec_send_seq() == old(self).spec_send_seq()
            },
    {
        if self.send_seq == u64::MAX {
            return Err(ChatError::CryptoFailure);
        }
        let nonce = nonce_for_seq(self.send_seq);
        let ciphertext = aead_seal(&self.send_key, &nonce, plaintext);
        self.send_seq = self.send_seq + 1;
        Ok(Frame { nonce, ciphertext })
    }

    /// Verifies and decrypts a frame under the receive key. The frame is
    /// accepted exactly when its nonce is the encoding of the next expected
    /// receive sequence number and its ciphertext is a sealing under the
    /// receive key and that nonce; then the counter advances and the
    /// plaintext that was sealed comes back. Anything else — a tampered
    /// nonce or ciphertext, a frame sealed under another key, a replay of
    /// an already opened frame — fails with `AuthenticationFailure` and
    /// leaves the channel unchanged.
    pub fn open(&mut self, frame: &Frame) -> (r: Result<Vec<u8>, ChatError>)
        requires
            old(self).wf(),
        ensures
            final(self).wf(),
            old(self).same_keys(final(self)),
            final(self).spec_send_seq() == old(self).spec_send_seq(),
            r is Ok <==> exists|pt: Seq<u8>|
                open_accepts(
                    old(self).spec_recv_key(),
                    old(self).spec_recv_seq(),
                    frame.nonce@,
                    frame.ciphertext@,
                    pt,
                ),
            forall|pt: Seq<u8>|
                open_accepts(
                    old(self).spec_recv_key(),
                    old(self).spec_recv_seq(),
                    frame.nonce@,
                    frame.ciphertext@,
                    pt,
                ) ==> r is Ok && r->Ok_0@ == pt,
            r is Ok ==> final(self).spec_recv_seq() == old(self).spec_recv_seq() + 1,
            r is Err ==> {
                &&& r->Err_0 == ChatError::AuthenticationFailure
                &&& final(self).spec_recv_seq() == old(self).spec_recv_seq()
            },
    {
        if self.recv_seq == u64::MAX {
            return Err(ChatError::AuthenticationFailure);
        }
        let expected = nonce_for_seq(self.recv_seq);
        if frame.nonce.len() != expected.len() {
            proof {
                assert(forall|pt: Seq<u8>|
                    !(#[trigger] open_accepts(
                        self.spec_recv_key(),
                        self.spec_recv_seq(),
                        frame.nonce@,
                        frame.ciphertext@,
                        pt,
                    )));
            }
            return Err(ChatError::AuthenticationFailure);
        }
        let mut i: usize = 0;
        while i < expected.len()
            invariant
                self == old(self),
                old(self).wf(),
                old(self).spec_recv_seq() < u64::MAX,
                expected@ == be12(old(self).spec_recv_seq()),
                i <= expected.len(),
                frame.nonce@.len() == expected@.len(),
                forall|j: int| 0 <= j < i ==> frame.nonce@[j] == expected@[j],
            decreases expected.len() - i,
        {
            if frame.nonce[i] != expected[i] {
                proof {
                    assert(frame.nonce@ != expected@);
                    assert(forall|pt: Seq<u8>|
                        !(#[trigger] open_accepts(
                            old(self).spec_recv_key(),
                            old(self).spec_recv_seq(),
                            frame.nonce@,
                            frame.ciphertext@,
                            pt,
                        )));
                }
                return Err(ChatError::AuthenticationFailure);
            }
            i = i + 1;
        }
        proof {
            assert(frame.nonce@ =~= expected@);
        }
        match aead_open(&self.recv_key, &frame.nonce, &frame.ciphertext) {
            Some(plaintext) => {
                proof {
                    let pt = choose|pt: Seq<u8>|
                        frame.ciphertext@ == aead_ct(self.spec_recv_key(), frame.nonce@, pt);
                    assert(open_accepts(
                        self.spec_recv_key(),
                        self.spec_recv_seq(),
                        frame.nonce@,
                        frame.ciphertext@,
                        pt,
                    ));
                }
                self.recv_seq = self.recv_seq + 1;
                Ok(plaintext)
            },
            None => {
                proof {
                    assert forall|pt: Seq<u8>|
                        !(#[trigger] open_accepts(
                            self.spec_recv_key(),
                            self.spec_recv_seq(),
                            frame.nonce@,
                            frame.ciphertext@,
                            pt,
                        )) by {
                        if open_accepts(
                            self.spec_recv_key(),
                            self.spec_recv_seq(),
                            frame.nonce@,
                            frame.ciphertext@,
                            pt,
                        ) {
                            assert(frame.ciphertext@ == aead_ct(
                                self.spec_recv_key(),
                                frame.nonce@,
                                pt,
                            ));
                        }
                    }
                }
                Err(ChatError::AuthenticationFailure)
            },
        }
    }
}

/// Round-trip law: a frame sealed under a key at some sequence number is
/// accepted, as carrying exactly the sealed plaintext, by a receiver that
/// holds the same key and expects that sequence number. In particular, on
/// one channel whose send and receive keys and counters agree, `open`
/// returns what `seal` was given.
pub proof fn lemma_seal_open_round_trip(key: Seq<u8>, seq: u64, plaintext: Seq<u8>)
    requires
        seq < u64::MAX,
    ensures
        open_accepts(key, seq, seal_frame_nonce(seq), seal_frame_ct(key, seq, plaintext), plaintext),
{
}

/// What is provable of tamper detection beyond the nonce: a frame is
/// accepted as carrying plaintext `pt` only when it is byte-for-byte the
/// frame that sealing `pt` under the receiver's key and expected sequence
/// number produces — `open` never succeeds with an altered plaintext.
/// That an altered ciphertext never verifies at all is the AEAD scheme's
/// cryptographic guarantee, outside what these contracts state.
pub proof fn lemma_accepted_frame_is_exact_seal(
    key: Seq<u8>,
    seq: u64,
    nonce: Seq<u8>,
    ct: Seq<u8>,
    pt: Seq<u8>,
)
    requires
        open_accepts(key, seq, nonce, ct, pt),
    ensures
        nonce == seal_frame_nonce(seq),
        ct == seal_frame_ct(key, seq, pt),
{
}

/// Nonce-tamper law: a frame whose nonce differs at all from the one it was
/// sealed with is accepted as no plaintext whatsoever by the receiver that
/// expects that sequence number.
pub proof fn lemma_nonce_tamper_rejected(
    key: Seq<u8>,
    seq: u64,
    tampered_nonce: Seq<u8>,
    ct: Seq<u8>,
)
    requires
        tampered_nonce != seal_frame_nonce(seq),
    ensures
        forall|pt: Seq<u8>| !(#[trigger] open_accepts(key, seq, tampered_nonce, ct, pt)),
{
}

/// Replay law: once a frame has been accepted and the receive counter has
/// advanced, the same frame is accepted as no plaintext whatsoever — its
/// nonce is already consumed.
pub proof fn lemma_replay_rejected(
    key: Seq<u8>,
    seq: u64,
    nonce: Seq<u8>,
    ct: Seq<u8>,
    pt: Seq<u8>,
)
    requires
        open_accepts(key, seq, nonce, ct, pt),
    ensures
        forall|q: Seq<u8>| !(#[trigger] open_accepts(key, (seq + 1) as u64, nonce, ct, q)),
{
    if seq + 1 <= u64::MAX && be12(seq) == be12((seq + 1) as u64) {
        lemma_be12_injective(seq, (seq + 1) as u64);
    }
}

} // verus!
