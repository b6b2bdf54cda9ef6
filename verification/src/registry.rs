//! Session registry and connection driver decisions: the live set of peer
//! sessions, keyed by peer address with one active session per address, and
//! the rules the per-connection driver follows — reject a second connection
//! from an address with a live session, seal outbound payloads, open inbound
//! frames, and tear a session down on any failure.

use vstd::prelude::*;

use crate::channel::{Frame, SecureChannel, MAX_PLAINTEXT_LEN};
use crate::error::ChatError;

verus! {

/// A peer's transport address: an IPv4 address and a port, as plain values.
#[derive(Clone, Copy, Debug, PartialEq, Eq, Hash, Structural)]
pub struct PeerAddr {
    pub ip: u32,
    pub port: u16,
}

/// Where a peer session stands.
#[derive(Clone, Copy, Debug, PartialEq, Eq, Structural)]
pub enum SessionState {
    Connecting,
    AwaitingPeerKey,
    Established,
    Closed,
    Failed,
}

/// One live peer session: its address, its state, and — once established —
/// its secure channel.
pub struct PeerSession {
    addr: PeerAddr,
    state: SessionState,
    channel: Option<SecureChannel>,
}

impl PeerSession {
    pub closed spec fn spec_addr(&self) -> PeerAddr {
        self.addr
    }

    pub closed spec fn spec_state(&self) -> SessionState {
        self.state
    }

    pub closed spec fn spec_channel(&self) -> Option<SecureChannel> {
        self.channel
    }

    /// A session carries a channel exactly while it is established.
    pub open spec fn wf(&self) -> bool {
        &&& (self.spec_state() == SessionState::Established <==> self.spec_channel() is Some)
        &&& (self.spec_channel() is Some ==> self.spec_channel()->0.wf())
    }

    pub fn addr(&self) -> (r: PeerAddr)
        ensures
            r == self.spec_addr(),
    {
        self.addr
    }

    pub fn state(&self) -> (r: SessionState)
        ensures
            r == self.spec_state(),
    {
        self.state
    }
}

/// No two sessions share an address.
pub open spec fn addrs_unique(s: Seq<PeerSession>) -> bool {
    forall|i: int, j: int|
        0 <= i < j < s.len() ==> (#[trigger] s[i].spec_addr()) != (#[trigger] s[j].spec_addr())
}

/// Every session is well formed.
pub open spec fn all_wf(s: Seq<PeerSession>) -> bool {
    forall|i: int| 0 <= i < s.len() ==> (#[trigger] s[i]).wf()
}

/// The live set of peer sessions, keyed by peer address; insertion order
/// carries no meaning and addresses are unique.
pub struct SessionRegistry {
    sessions: Vec<PeerSession>,
}

impl SessionRegistry {
    pub closed spec fn spec_sessions(&self) -> Seq<PeerSession> {
        self.sessions@
    }

    pub open spec fn wf(&self) -> bool {
        &&& addrs_unique(self.spec_sessions())
        &&& all_wf(self.spec_sessions())
    }

    /// Whether some session, in any state, holds this address.
    pub open spec fn spec_contains(&self, addr: PeerAddr) -> bool {
        exists|i: int|
            0 <= i < self.spec_sessions().len() && (#[trigger] self.spec_sessions()[i]).spec_addr()
                == addr
    }

    /// The index of the session holding this address; meaningful when
    /// `spec_contains` holds, and unique by well-formedness.
    pub open spec fn spec_index_of(&self, addr: PeerAddr) -> int {
        choose|i: int|
            0 <= i < self.spec_sessions().len() && (#[trigger] self.spec_sessions()[i]).spec_addr()
                == addr
    }

    /// Whether an established session holds this address.
    pub open spec fn spec_established(&self, addr: PeerAddr) -> bool {
        &&& self.spec_contains(addr)
        &&& self.spec_sessions()[self.spec_index_of(addr)].spec_state()
            == SessionState::Established
    }

    pub fn new() -> (r: SessionRegistry)
        ensures
            r.wf(),
            r.spec_sessions().len() == 0,
    {
        SessionRegistry { sessions: Vec::new() }
    }

    pub fn peer_count(&self) -> (r: usize)
        ensures
            r == self.spec_sessions().len(),
    {
        self.sessions.len()
    }

    /// The read-only projection the registry exposes for enumeration: each
    /// session's address and state, in registry order.
    pub fn peers(&self) -> (r: Vec<(PeerAddr, SessionState)>)
        ensures
            r@.len() == self.spec_sessions().len(),
            forall|i: int|
                0 <= i < r@.len() ==> (#[trigger] r@[i]).0 == self.spec_sessions()[i].spec_addr()
                    && r@[i].1 == self.spec_sessions()[i].spec_state(),
    {
        let mut out: Vec<(PeerAddr, SessionState)> = Vec::new();
        let mut i: usize = 0;
        while i < self.sessions.len()
            invariant
                i <= self.spec_sessions().len(),
                out@.len() == i,
                forall|j: int|
                    0 <= j < i ==> (#[trigger] out@[j]).0 == self.spec_sessions()[j].spec_addr()
                        && out@[j].1 == self.spec_sessions()[j].spec_state(),
            decreases self.spec_sessions().len() - i,
        {
            let s = &self.sessions[i];
            out.push((s.addr(), s.state()));
            i = i + 1;
        }
        out
    }

    /// Looks the address up, returning the index of its session.
    fn find(&self, addr: PeerAddr) -> (r: Option<usize>)
        requires
            self.wf(),
        ensures
            r is Some <==> self.spec_contains(addr),
            r is Some ==> {
                &&& 0 <= r->0 < self.spec_sessions().len()
                &&& self.spec_sessions()[r->0 as int].spec_addr() == addr
                &&& r->0 == self.spec_index_of(addr)
            },
    {
        let mut i: usize = 0;
        while i < self.sessions.len()
            invariant
                self.wf(),
                i <= self.spec_sessions().len(),
                forall|j: int|
                    0 <= j < i ==> (#[trigger] self.spec_sessions()[j]).spec_addr() != addr,
            decreases self.spec_sessions().len() - i,
        {
            if self.sessions[i].addr == addr {
                proof {
                    let k = self.spec_index_of(addr);
                    assert(0 <= k < self.spec_sessions().len() && self.spec_sessions()[k].spec_addr()
                        == addr);
                    let ii = i as int;
                    if k < ii {
                        assert(self.spec_sessions()[k].spec_addr()
                            != self.spec_sessions()[ii].spec_addr());
                    }
                    if ii < k {
                        assert(self.spec_sessions()[ii].spec_addr()
                            != self.spec_sessions()[k].spec_addr());
                    }
                }
                return Some(i);
            }
            i = i + 1;
        }
        proof {
            if self.spec_contains(addr) {
                let k = self.spec_index_of(addr);
                assert(self.spec_sessions()[k].spec_addr() != addr);
            }
        }
        None
    }

    /// Admits a new connection attempt from an address, creating a session
    /// in the `Connecting` state. An attempt from an address that already
    /// holds a session — established or still in its handshake — is
    /// rejected, and the registry, the existing session, its keys and its
    /// counters are left exactly as they were.
    pub fn begin_session(&mut self, addr: PeerAddr) -> (r: Result<(), ChatError>)
        requires
            old(self).wf(),
        ensures
            final(self).wf(),
            r is Ok <==> !old(self).spec_contains(addr),
            r is Err ==> r->Err_0 == ChatError::ProtocolFailure && *final(self) == *old(self),
            r is Ok ==> {
                &&& final(self).spec_sessions().len() == old(self).spec_sessions().len() + 1
                &&& forall|j: int|
                    0 <= j < old(self).spec_sessions().len() ==> (#[trigger] final(self).spec_sessions()[j]) == old(self).spec_sessions()[j]
                &&& final(self).spec_sessions().last().spec_addr() == addr
                &&& final(self).spec_sessions().last().spec_state() == SessionState::Connecting
                &&& final(self).spec_sessions().last().spec_channel() is None
                &&& final(self).spec_contains(addr)
            },
    {
        if self.find(addr).is_some() {
            return Err(ChatError::ProtocolFailure);
        }
        let session = PeerSession { addr, state: SessionState::Connecting, channel: None };
        self.sessions.push(session);
        proof {
            let s = old(self).spec_sessions();
            let t = self.spec_sessions();
            assert(t =~= s.push(session));
            assert forall|i: int, j: int| 0 <= i < j < t.len() implies (#[trigger] t[i].spec_addr())
                != (#[trigger] t[j].spec_addr()) by {
                if j == s.len() {
                    assert(t[i] == s[i]);
                    assert(t[j].spec_addr() == addr);
                } else {
                    assert(t[i] == s[i] && t[j] == s[j]);
                }
            }
            assert forall|i: int| 0 <= i < t.len() implies (#[trigger] t[i]).wf() by {
                if i < s.len() {
                    assert(t[i] == s[i]);
                }
            }
            assert(t[s.len() as int].spec_addr() == addr);
        }
        Ok(())
    }

    /// Moves a session that is still handshaking to a new non-established
    /// state. Establishment itself goes through `install_channel`.
    pub fn set_state(&mut self, addr: PeerAddr, state: SessionState) -> (r: Result<(), ChatError>)
        requires
            old(self).wf(),
        ensures
            final(self).wf(),
            r is Ok <==> (state != SessionState::Established && old(self).spec_contains(addr)
                && old(self).spec_sessions()[old(self).spec_index_of(addr)].spec_state()
                != SessionState::Established),
            r is Err ==> r->Err_0 == ChatError::ProtocolFailure && *final(self) == *old(self),
            r is Ok ==> ({
                let i = old(self).spec_index_of(addr);
                &&& final(self).spec_sessions().len() == old(self).spec_sessions().len()
                &&& forall|j: int|
                    0 <= j < old(self).spec_sessions().len() && j != i ==> (#[trigger] final(self).spec_sessions()[j]) == old(self).spec_sessions()[j]
                &&& final(self).spec_sessions()[i].spec_addr() == addr
                &&& final(self).spec_sessions()[i].spec_state() == state
                &&& final(self).spec_sessions()[i].spec_channel() is None
            }),
    {
        if state == SessionState::Established {
            return Err(ChatError::ProtocolFailure);
        }
        let idx = match self.find(addr) {
            Some(i) => i,
            None => {
                return Err(ChatError::ProtocolFailure);
            },
        };
        if self.sessions[idx].state == SessionState::Established {
            return Err(ChatError::ProtocolFailure);
        }
        let old_session = self.sessions.remove(idx);
        let updated = PeerSession { addr: old_session.addr, state, channel: None };
        self.sessions.insert(idx, updated);
        proof {
            self.lemma_reinsert_same_addr(*old(self), idx as int, updated);
        }
        Ok(())
    }

    /// Installs the channel a completed handshake produced, establishing
    /// the session. Only a session still in its handshake can be
    /// established.
    pub fn install_channel(&mut self, addr: PeerAddr, channel: SecureChannel) -> (r: Result<
        (),
        ChatError,
    >)
        requires
            old(self).wf(),
            channel.wf(),
        ensures
            final(self).wf(),
            r is Ok <==> (old(self).spec_contains(addr) && old(self).spec_sessions()[old(self).spec_index_of(addr)].spec_state() != SessionState::Established),
            r is Err ==> r->Err_0 == ChatError::ProtocolFailure && *final(self) == *old(self),
            r is Ok ==> ({
                let i = old(self).spec_index_of(addr);
                &&& final(self).spec_sessions().len() == old(self).spec_sessions().len()
                &&& forall|j: int|
                    0 <= j < old(self).spec_sessions().len() && j != i ==> (#[trigger] final(self).spec_sessions()[j]) == old(self).spec_sessions()[j]
                &&& final(self).spec_sessions()[i].spec_addr() == addr
                &&& final(self).spec_sessions()[i].spec_state() == SessionState::Established
                &&& final(self).spec_sessions()[i].spec_channel() == Some(channel)
                &&& final(self).spec_established(addr)
            }),
    {
        let idx = match self.find(addr) {
            Some(i) => i,
            None => {
                return Err(ChatError::ProtocolFailure);
            },
        };
        if self.sessions[idx].state == SessionState::Established {
            return Err(ChatError::ProtocolFailure);
        }
        let old_session = self.sessions.remove(idx);
        let updated = PeerSession {
            addr: old_session.addr,
            state: SessionState::Established,
            channel: Some(channel),
        };
        self.sessions.insert(idx, updated);
        proof {
            self.lemma_reinsert_same_addr(*old(self), idx as int, updated);
            assert(self.spec_sessions()[idx as int].spec_addr() == addr);
            let k = self.spec_index_of(addr);
            assert(0 <= k < self.spec_sessions().len() && self.spec_sessions()[k].spec_addr()
                == addr);
            if k != idx as int {
                let ii = idx as int;
                if k < ii {
                    assert(self.spec_sessions()[k].spec_addr()
                        != self.spec_sessions()[ii].spec_addr());
                } else {
                    assert(self.spec_sessions()[ii].spec_addr()
                        != self.spec_sessions()[k].spec_addr());
                }
            }
        }
        Ok(())
    }

    /// Removes the session holding an address, if any: the teardown path
    /// for a closed connection or a failed handshake or transfer. Every
    /// other session is untouched.
    pub fn close_session(&mut self, addr: PeerAddr) -> (removed: bool)
        requires
            old(self).wf(),
        ensures
            final(self).wf(),
            removed <==> old(self).spec_contains(addr),
            !final(self).spec_contains(addr),
            removed ==> final(self).spec_sessions() == old(self).spec_sessions().remove(
                old(self).spec_index_of(addr),
            ),
            !removed ==> *final(self) == *old(self),
    {
        let idx = match self.find(addr) {
            Some(i) => i,
            None => {
                return false;
            },
        };
        let _ = self.sessions.remove(idx);
        proof {
            lemma_remove_keeps_wf(old(self).spec_sessions(), idx as int);
            lemma_removed_addr_gone(old(self).spec_sessions(), idx as int);
            if self.spec_contains(addr) {
                let k = self.spec_index_of(addr);
                assert(self.spec_sessions()[k].spec_addr() != addr);
            }
        }
        true
    }

    /// Accepts an outbound plaintext for a peer: seals it on that peer's
    /// channel and hands back the frame to write to the stream. Fails with
    /// `UnknownPeer`, changing nothing, when no established session holds
    /// the address. When the channel's send counter is exhausted the
    /// session is torn down — removed from the registry — and the fatal
    /// `CryptoFailure` is surfaced.
    pub fn send_message(&mut self, addr: PeerAddr, plaintext: &Vec<u8>) -> (r: Result<
        Frame,
        ChatError,
    >)
        requires
            old(self).wf(),
            plaintext@.len() <= MAX_PLAINTEXT_LEN,
        ensures
            final(self).wf(),
            (r is Err && r->Err_0 == ChatError::UnknownPeer) <==> !old(self).spec_established(
                addr,
            ),
            (r is Err && r->Err_0 == ChatError::UnknownPeer) ==> *final(self) == *old(self),
            (old(self).spec_established(addr) && old(self).spec_sessions()[old(
                self,
            ).spec_index_of(addr)].spec_channel()->0.spec_send_seq() < u64::MAX) ==> r is Ok,
            r is Ok ==> old(self).spec_established(addr),
            r is Ok ==> ({
                let i = old(self).spec_index_of(addr);
                let before = old(self).spec_sessions()[i].spec_channel()->0;
                let after = final(self).spec_sessions()[i].spec_channel()->0;
                &&& final(self).spec_sessions().len() == old(self).spec_sessions().len()
                &&& forall|j: int|
                    0 <= j < old(self).spec_sessions().len() && j != i ==> (#[trigger] final(self).spec_sessions()[j]) == old(self).spec_sessions()[j]
                &&& final(self).spec_sessions()[i].spec_addr() == addr
                &&& final(self).spec_sessions()[i].spec_state() == SessionState::Established
                &&& final(self).spec_sessions()[i].spec_channel() is Some
                &&& before.spec_seal_ok(after, r->Ok_0, plaintext@)
                &&& r->Ok_0.wf()
            }),
            (r is Err && r->Err_0 == ChatError::CryptoFailure) ==> ({
                let i = old(self).spec_index_of(addr);
                &&& old(self).spec_established(addr)
                &&& old(self).spec_sessions()[i].spec_channel()->0.spec_send_seq() == u64::MAX
                &&& final(self).spec_sessions() == old(self).spec_sessions().remove(i)
                &&& !final(self).spec_contains(addr)
            }),
            r is Err ==> (r->Err_0 == ChatError::UnknownPeer || r->Err_0
                == ChatError::CryptoFailure),
    {
        let idx = match self.find(addr) {
            Some(i) => i,
            None => {
                return Err(ChatError::UnknownPeer);
            },
        };
        if self.sessions[idx].state != SessionState::Established {
            return Err(ChatError::UnknownPeer);
        }
        let old_session = self.sessions.remove(idx);
        let PeerSession { addr: session_addr, state: session_state, channel } = old_session;
        let mut ch = match channel {
            Some(c) => c,
            None => {
                proof {
                    assert(false);
                }
                return Err(ChatError::UnknownPeer);
            },
        };
        match ch.seal(plaintext) {
            Ok(frame) => {
                let updated = PeerSession {
                    addr: session_addr,
                    state: session_state,
                    channel: Some(ch),
                };
                self.sessions.insert(idx, updated);
                proof {
                    self.lemma_reinsert_same_addr(*old(self), idx as int, updated);
                }
                Ok(frame)
            },
            Err(e) => {
                proof {
                    lemma_remove_keeps_wf(old(self).spec_sessions(), idx as int);
                    lemma_removed_addr_gone(old(self).spec_sessions(), idx as int);
                    if self.spec_contains(addr) {
                        let k = self.spec_index_of(addr);
                        assert(self.spec_sessions()[k].spec_addr() != addr);
                    }
                }
                Err(e)
            },
        }
    }

    /// Consumes one inbound frame for a peer: opens it on that peer's
    /// channel and hands back the plaintext to deliver upward. Fails with
    /// `UnknownPeer`, changing nothing, when no established session holds
    /// the address. A frame that does not verify is treated as an attack:
    /// the session is torn down — removed from the registry — and
    /// `AuthenticationFailure` is surfaced.
    pub fn on_frame_received(&mut self, addr: PeerAddr, frame: &Frame) -> (r: Result<
        Vec<u8>,
        ChatError,
    >)
        requires
            old(self).wf(),
        ensures
            final(self).wf(),
            (r is Err && r->Err_0 == ChatError::UnknownPeer) <==> !old(self).spec_established(
                addr,
            ),
            (r is Err && r->Err_0 == ChatError::UnknownPeer) ==> *final(self) == *old(self),
            (old(self).spec_established(addr) && (exists|pt: Seq<u8>|
                crate::channel::open_accepts(
                    old(self).spec_sessions()[old(self).spec_index_of(addr)].spec_channel()->0.spec_recv_key(),
                    old(self).spec_sessions()[old(self).spec_index_of(addr)].spec_channel()->0.spec_recv_seq(),
                    frame.nonce@,
                    frame.ciphertext@,
                    pt,
                ))) ==> r is Ok,
            r is Ok ==> old(self).spec_established(addr),
            r is Ok ==> ({
                let i = old(self).spec_index_of(addr);
                let before = old(self).spec_sessions()[i].spec_channel()->0;
                let after = final(self).spec_sessions()[i].spec_channel()->0;
                &&& final(self).spec_sessions().len() == old(self).spec_sessions().len()
                &&& forall|j: int|
                    0 <= j < old(self).spec_sessions().len() && j != i ==> (#[trigger] final(self).spec_sessions()[j]) == old(self).spec_sessions()[j]
                &&& final(self).spec_sessions()[i].spec_addr() == addr
                &&& final(self).spec_sessions()[i].spec_state() == SessionState::Established
                &&& final(self).spec_sessions()[i].spec_channel() is Some
                &&& before.spec_open_ok(after, *frame, r->Ok_0@)
            }),
            (r is Err && r->Err_0 == ChatError::AuthenticationFailure) ==> ({
                let i = old(self).spec_index_of(addr);
                &&& old(self).spec_established(addr)
                &&& final(self).spec_sessions() == old(self).spec_sessions().remove(i)
                &&& !final(self).spec_contains(addr)
            }),
            r is Err ==> (r->Err_0 == ChatError::UnknownPeer || r->Err_0
                == ChatError::AuthenticationFailure),
    {
        let idx = match self.find(addr) {
            Some(i) => i,
            None => {
                return Err(ChatError::UnknownPeer);
            },
        };
        if self.sessions[idx].state != SessionState::Established {
            return Err(ChatError::UnknownPeer);
        }
        let old_session = self.sessions.remove(idx);
        let PeerSession { addr: session_addr, state: session_state, channel } = old_session;
        let mut ch = match channel {
            Some(c) => c,
            None => {
                proof {
                    assert(false);
                }
                return Err(ChatError::UnknownPeer);
            },
        };
        match ch.open(frame) {
            Ok(plaintext) => {
                let updated = PeerSession {
                    addr: session_addr,
                    state: session_state,
                    channel: Some(ch),
                };
                self.sessions.insert(idx, updated);
                proof {
                    self.lemma_reinsert_same_addr(*old(self), idx as int, updated);
                }
                Ok(plaintext)
            },
            Err(e) => {
                proof {
                    lemma_remove_keeps_wf(old(self).spec_sessions(), idx as int);
                    lemma_removed_addr_gone(old(self).spec_sessions(), idx as int);
                    if self.spec_contains(addr) {
                        let k = self.spec_index_of(addr);
                        assert(self.spec_sessions()[k].spec_addr() != addr);
                    }
                }
                Err(e)
            },
        }
    }

    /// After removing the session at index `i` of `before` and inserting
    /// `updated` — a well-formed session with the same address — back at
    /// `i`, the registry is the old sequence with index `i` replaced, and
    /// still well formed.
    proof fn lemma_reinsert_same_addr(&self, before: SessionRegistry, i: int, updated: PeerSession)
        requires
            before.wf(),
            0 <= i < before.spec_sessions().len(),
            updated.wf(),
            updated.spec_addr() == before.spec_sessions()[i].spec_addr(),
            self.spec_sessions() == before.spec_sessions().remove(i).insert(i, updated),
        ensures
            self.wf(),
            self.spec_sessions() == before.spec_sessions().update(i, updated),
            self.spec_sessions().len() == before.spec_sessions().len(),
            forall|j: int|
                0 <= j < before.spec_sessions().len() && j != i ==> (#[trigger] self.spec_sessions()[j])
                    == before.spec_sessions()[j],
    {
        let s = before.spec_sessions();
        let t = self.spec_sessions();
        assert(t =~= s.update(i, updated));
        assert forall|p: int, q: int| 0 <= p < q < t.len() implies (#[trigger] t[p].spec_addr())
            != (#[trigger] t[q].spec_addr()) by {
            assert(s[p].spec_addr() != s[q].spec_addr());
        }
        assert forall|p: int| 0 <= p < t.len() implies (#[trigger] t[p]).wf() by {
            if p != i {
                assert(t[p] == s[p]);
            }
        }
    }
}

/// Removing an element keeps uniqueness and well-formedness of the rest.
proof fn lemma_remove_keeps_wf(s: Seq<PeerSession>, i: int)
    requires
        addrs_unique(s),
        all_wf(s),
        0 <= i < s.len(),
    ensures
        addrs_unique(s.remove(i)),
        all_wf(s.remove(i)),
{
    let t = s.remove(i);
    s.remove_ensures(i);
    assert forall|p: int, q: int| 0 <= p < q < t.len() implies (#[trigger] t[p].spec_addr())
        != (#[trigger] t[q].spec_addr()) by {
        let p0: int = if p < i {
            p
        } else {
            p + 1
        };
        let q0: int = if q < i {
            q
        } else {
            q + 1
        };
        assert(t[p] == s[p0]);
        assert(t[q] == s[q0]);
        assert(s[p0].spec_addr() != s[q0].spec_addr());
    }
    assert forall|p: int| 0 <= p < t.len() implies (#[trigger] t[p]).wf() by {
        let p0: int = if p < i {
            p
        } else {
            p + 1
        };
        assert(t[p] == s[p0]);
    }
}

/// After removing the one session that holds an address, no session holds
/// it.
proof fn lemma_removed_addr_gone(s: Seq<PeerSession>, i: int)
    requires
        addrs_unique(s),
        0 <= i < s.len(),
    ensures
        forall|j: int|
            0 <= j < s.remove(i).len() ==> (#[trigger] s.remove(i)[j].spec_addr())
                != s[i].spec_addr(),
{
    let t = s.remove(i);
    s.remove_ensures(i);
    assert forall|j: int| 0 <= j < t.len() implies (#[trigger] t[j].spec_addr())
        != s[i].spec_addr() by {
        let j0: int = if j < i {
            j
        } else {
            j + 1
        };
        assert(t[j] == s[j0]);
        if j0 < i {
            assert(s[j0].spec_addr() != s[i].spec_addr());
        } else {
            assert(s[i].spec_addr() != s[j0].spec_addr());
        }
    }
}

} // verus!
