use vstd::prelude::*;

verus! {

/// Failure taxonomy of the session core. Every variant is fatal to the
/// session it arose in, except `UnknownPeer`, which is surfaced to the
/// caller and recoverable.
#[derive(Clone, Copy, Debug, PartialEq, Eq, Structural)]
pub enum ChatError {
    /// Entropy exhaustion, invalid peer public key, or an internal
    /// derivation error. Never retried automatically.
    CryptoFailure,
    /// An authentication tag did not verify: the frame was tampered with,
    /// sealed under another key, or replayed.
    AuthenticationFailure,
    /// Malformed frame length, truncated handshake, or an unexpected state
    /// transition.
    ProtocolFailure,
    /// The underlying stream failed.
    IoFailure,
    /// The caller addressed a peer with no live established session.
    UnknownPeer,
}

} // verus!
