//! Frame wire format, over an already-established ordered byte stream:
//!
//! ```text
//! [4 bytes: big-endian length L of (nonce || ciphertext+tag)]
//! [12 bytes: nonce]
//! [L-12 bytes: ciphertext with 16-byte authentication tag appended]
//! ```
//!
//! A reader takes the four header bytes first, learns `L` from them, reads
//! exactly `L` more bytes, and decodes those into a frame.

use vstd::prelude::*;

use crate::channel::{Frame, NONCE_LEN, TAG_LEN};
use crate::error::ChatError;

verus! {

/// Length in bytes of the frame header.
pub const HEADER_LEN: usize = 4;

/// The four-byte big-endian encoding of a length.
pub open spec fn be32(n: u32) -> Seq<u8> {
    seq![(n >> 24) as u8, (n >> 16) as u8, (n >> 8) as u8, n as u8]
}

/// The value a four-byte big-endian header carries.
pub open spec fn u32_of_be(s: Seq<u8>) -> u32
    recommends
        s.len() == 4,
{
    (((s[0] as u32) << 24) | ((s[1] as u32) << 16) | ((s[2] as u32) << 8) | (s[3] as u32)) as u32
}

/// Reading back a big-endian header yields the length that was written.
pub proof fn lemma_be32_round_trip(n: u32)
    ensures
        u32_of_be(be32(n)) == n,
{
    assert(((((n >> 24) as u8 as u32) << 24) | (((n >> 16) as u8 as u32) << 16) | (((n >> 8) as u8
        as u32) << 8) | (n as u8 as u32)) as u32 == n) by (bit_vector);
}

/// The full wire encoding of a frame: the length of `nonce || ct` as a
/// four-byte big-endian header, then the nonce, then the ciphertext.
pub open spec fn spec_encode_frame(nonce: Seq<u8>, ct: Seq<u8>) -> Seq<u8> {
    be32((nonce.len() + ct.len()) as u32) + nonce + ct
}

/// Encodes a frame for the wire.
pub fn encode_frame(frame: &Frame) -> (r: Vec<u8>)
    requires
        frame.wf(),
    ensures
        r@ == spec_encode_frame(frame.nonce@, frame.ciphertext@),
        r@.len() == HEADER_LEN + frame.nonce@.len() + frame.ciphertext@.len(),
{
    let len: u32 = (frame.nonce.len() + frame.ciphertext.len()) as u32;
    let mut out: Vec<u8> = Vec::new();
    out.push((len >> 24) as u8);
    out.push((len >> 16) as u8);
    out.push((len >> 8) as u8);
    out.push(len as u8);
    proof {
        assert(out@ =~= be32(len));
    }
    let mut i: usize = 0;
    while i < frame.nonce.len()
        invariant
            i <= frame.nonce@.len(),
            out@ == be32(len as u32) + frame.nonce@.take(i as int),
        decreases frame.nonce@.len() - i,
    {
        out.push(frame.nonce[i]);
        proof {
            assert(out@ =~= be32(len as u32) + frame.nonce@.take(i + 1));
        }
        i = i + 1;
    }
    proof {
        assert(frame.nonce@.take(frame.nonce@.len() as int) =~= frame.nonce@);
    }
    let mut j: usize = 0;
    while j < frame.ciphertext.len()
        invariant
            j <= frame.ciphertext@.len(),
            out@ == be32(len as u32) + frame.nonce@ + frame.ciphertext@.take(j as int),
        decreases frame.ciphertext@.len() - j,
    {
        out.push(frame.ciphertext[j]);
        proof {
            assert(out@ =~= be32(len as u32) + frame.nonce@ + frame.ciphertext@.take(j + 1));
        }
        j = j + 1;
    }
    proof {
        assert(frame.ciphertext@.take(frame.ciphertext@.len() as int) =~= frame.ciphertext@);
        assert(out@ =~= spec_encode_frame(frame.nonce@, frame.ciphertext@));
    }
    out
}

/// Reads the body length out of a frame header. Fails with
/// `ProtocolFailure` exactly when the header is not four bytes long or the
/// length it carries has no room for a nonce and an authentication tag.
pub fn body_len_from_header(header: &Vec<u8>) -> (r: Result<u32, ChatError>)
    ensures
        r is Ok <==> header@.len() == HEADER_LEN && u32_of_be(header@) >= NONCE_LEN + TAG_LEN,
        r is Ok ==> r->Ok_0 == u32_of_be(header@),
        r is Err ==> r->Err_0 == ChatError::ProtocolFailure,
{
    if header.len() != HEADER_LEN {
        return Err(ChatError::ProtocolFailure);
    }
    let len: u32 = ((header[0] as u32) << 24) | ((header[1] as u32) << 16) | ((header[2] as u32)
        << 8) | (header[3] as u32);
    if len < (NONCE_LEN + TAG_LEN) as u32 {
        return Err(ChatError::ProtocolFailure);
    }
    Ok(len)
}

/// Splits the body of a frame — the bytes after the header — into nonce and
/// ciphertext. Fails with `ProtocolFailure` exactly when the body is too
/// short to hold a nonce and an authentication tag.
pub fn decode_body(body: &Vec<u8>) -> (r: Result<Frame, ChatError>)
    requires
        body@.len() <= u32::MAX,
    ensures
        r is Ok <==> body@.len() >= NONCE_LEN + TAG_LEN,
        r is Ok ==> {
            &&& r->Ok_0.nonce@ == body@.take(NONCE_LEN as int)
            &&& r->Ok_0.ciphertext@ == body@.skip(NONCE_LEN as int)
            &&& r->Ok_0.wf()
        },
        r is Err ==> r->Err_0 == ChatError::ProtocolFailure,
{
    if body.len() < NONCE_LEN + TAG_LEN {
        return Err(ChatError::ProtocolFailure);
    }
    let mut nonce: Vec<u8> = Vec::new();
    let mut i: usize = 0;
    while i < NONCE_LEN
        invariant
            i <= NONCE_LEN,
            body@.len() >= NONCE_LEN + TAG_LEN,
            nonce@ == body@.take(i as int),
        decreases NONCE_LEN - i,
    {
        nonce.push(body[i]);
        proof {
            assert(nonce@ =~= body@.take(i + 1));
        }
        i = i + 1;
    }
    let mut ciphertext: Vec<u8> = Vec::new();
    let mut j: usize = NONCE_LEN;
    while j < body.len()
        invariant
            NONCE_LEN <= j <= body@.len(),
            body@.len() >= NONCE_LEN + TAG_LEN,
            ciphertext@ == body@.subrange(NONCE_LEN as int, j as int),
        decreases body@.len() - j,
    {
        ciphertext.push(body[j]);
        proof {
            assert(ciphertext@ =~= body@.subrange(NONCE_LEN as int, j + 1));
        }
        j = j + 1;
    }
    proof {
        assert(ciphertext@ =~= body@.skip(NONCE_LEN as int));
    }
    Ok(Frame { nonce, ciphertext })
}

/// Codec round-trip law: decoding the header and body of an encoded frame
/// yields the frame's own nonce and ciphertext. Stated over the wire
/// bytes: the header of the encoding carries the body's length, and the
/// body splits back into the original parts.
pub proof fn lemma_frame_codec_round_trip(nonce: Seq<u8>, ct: Seq<u8>)
    requires
        nonce.len() == NONCE_LEN,
        ct.len() >= TAG_LEN,
        nonce.len() + ct.len() <= u32::MAX,
    ensures
        spec_encode_frame(nonce, ct).take(HEADER_LEN as int) == be32((nonce.len() + ct.len()) as u32),
        u32_of_be(spec_encode_frame(nonce, ct).take(HEADER_LEN as int)) == nonce.len() + ct.len(),
        spec_encode_frame(nonce, ct).skip(HEADER_LEN as int).take(NONCE_LEN as int) == nonce,
        spec_encode_frame(nonce, ct).skip(HEADER_LEN as int).skip(NONCE_LEN as int) == ct,
{
    let encoded = spec_encode_frame(nonce, ct);
    assert(encoded.take(HEADER_LEN as int) =~= be32((nonce.len() + ct.len()) as u32));
    lemma_be32_round_trip((nonce.len() + ct.len()) as u32);
    assert(encoded.skip(HEADER_LEN as int).take(NONCE_LEN as int) =~= nonce);
    assert(encoded.skip(HEADER_LEN as int).skip(NONCE_LEN as int) =~= ct);
}

} // verus!
