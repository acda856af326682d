//! The transport/session layer's bookkeeping: live peers, id assignment,
//! liveness stamps and timeout detection.
//!
//! The table owns peer identity: a peer gets exactly one id at connect and
//! keeps it until it disconnects or times out.  Anything that would touch a
//! vanished peer answers `UnknownPeer` instead of failing the caller.

use vstd::prelude::*;

verus! {

/// A session-level failure: recovered locally, never fatal.
#[derive(Clone, Copy, PartialEq, Eq, Structural, Debug)]
pub enum SessionError {
    /// The peer addressed is not (or no longer) part of the session.
    UnknownPeer,
}

/// One live network endpoint: its session id and the time it was last
/// heard from, in milliseconds of the server clock.
#[derive(Clone, Copy, PartialEq, Eq, Structural, Debug)]
pub struct Peer {
    pub id: u32,
    pub last_seen_ms: u64,
}

/// The live peer table.  Ids count up from one and are never reused
/// within a session, so a removed peer's id stays dead.
#[derive(Debug)]
pub struct PeerTable {
    pub peers: Vec<Peer>,
    pub next_id: u32,
}

/// Whether a peer with the given id is live in the sequence.
pub open spec fn has_peer_id(peers: Seq<Peer>, id: u32) -> bool {
    exists|i: int| 0 <= i < peers.len() && peers[i].id == id
}

/// Whether the peer at index `i` has exceeded the idle window at `now_ms`.
pub open spec fn peer_expired(p: Peer, now_ms: u64, idle_ms: u64) -> bool {
    p.last_seen_ms + idle_ms <= now_ms
}

impl PeerTable {
    /// Table invariant: ids are unique and all below the next id to hand
    /// out.
    pub open spec fn wf(self) -> bool {
        &&& forall|i: int, j: int|
            0 <= i < j < self.peers@.len() ==> (#[trigger] self.peers@[i]).id != (
            #[trigger] self.peers@[j]).id
        &&& forall|i: int| 0 <= i < self.peers@.len() ==> (#[trigger] self.peers@[i]).id < self.next_id
    }

    pub open spec fn spec_has_peer(self, id: u32) -> bool {
        has_peer_id(self.peers@, id)
    }

    /// An empty session: no peers, ids start at one.
    pub fn new() -> (t: PeerTable)
        ensures
            t.wf(),
            t.peers@.len() == 0,
            t.next_id == 1,
    {
        PeerTable { peers: Vec::new(), next_id: 1 }
    }

    /// Whether the peer is live: every send asks this first, so a send
    /// to a removed peer fails with `UnknownPeer` instead of panicking
    /// the caller.
    pub fn has_peer(&self, id: u32) -> (r: bool)
        ensures
            r == self.spec_has_peer(id),
    {
        let n = self.peers.len();
        let mut i: usize = 0;
        while i < n
            invariant
                i <= n,
                n == self.peers@.len(),
                forall|k: int| 0 <= k < i ==> (#[trigger] self.peers@[k]).id != id,
            decreases n - i,
        {
            if self.peers[i].id == id {
                return true;
            }
            i += 1;
        }
        false
    }

    /// Registers a new peer and hands out its id for the rest of its
    /// session.  The id is fresh: it never named a live peer before.
    pub fn connect(&mut self, now_ms: u64) -> (id: u32)
        requires
            old(self).wf(),
            old(self).next_id < u32::MAX,
        ensures
            final(self).wf(),
            id == old(self).next_id,
            !old(self).spec_has_peer(id),
            final(self).peers@ == old(self).peers@.push(Peer { id, last_seen_ms: now_ms }),
            final(self).next_id == old(self).next_id + 1,
    {
        let id = self.next_id;
        self.peers.push(Peer { id, last_seen_ms: now_ms });
        self.next_id = id + 1;
        id
    }

    /// Stamps a keep-alive from the peer: its idle window restarts at
    /// `now_ms`.  Fails with `UnknownPeer` exactly when the peer is gone.
    pub fn keep_alive(&mut self, id: u32, now_ms: u64) -> (r: Result<(), SessionError>)
        requires
            old(self).wf(),
        ensures
            final(self).wf(),
            r is Ok <==> old(self).spec_has_peer(id),
            r is Err ==> *final(self) == *old(self),
            r is Ok ==> exists|i: int|
                0 <= i < old(self).peers@.len() && old(self).peers@[i].id == id
                    && final(self).peers@ == old(self).peers@.update(
                    i,
                    Peer { id, last_seen_ms: now_ms },
                ),
            final(self).next_id == old(self).next_id,
    {
        let n = self.peers.len();
        let mut i: usize = 0;
        while i < n
            invariant
                i <= n,
                n == self.peers@.len(),
                *self == *old(self),
                old(self).wf(),
                forall|k: int| 0 <= k < i ==> (#[trigger] self.peers@[k]).id != id,
            decreases n - i,
        {
            if self.peers[i].id == id {
                self.peers[i] = Peer { id, last_seen_ms: now_ms };
                return Ok(());
            }
            i += 1;
        }
        Err(SessionError::UnknownPeer)
    }

    /// Removes the peer, graceful or not.  Fails with `UnknownPeer`
    /// exactly when it already was gone.
    pub fn disconnect(&mut self, id: u32) -> (r: Result<(), SessionError>)
        requires
            old(self).wf(),
        ensures
            final(self).wf(),
            r is Ok <==> old(self).spec_has_peer(id),
            r is Err ==> *final(self) == *old(self),
            r is Ok ==> exists|i: int|
                0 <= i < old(self).peers@.len() && old(self).peers@[i].id == id
                    && final(self).peers@ == old(self).peers@.remove(i),
            !final(self).spec_has_peer(id),
            final(self).next_id == old(self).next_id,
    {
        let n = self.peers.len();
        let mut i: usize = 0;
        while i < n
            invariant
                i <= n,
                n == self.peers@.len(),
                *self == *old(self),
                old(self).wf(),
                forall|k: int| 0 <= k < i ==> (#[trigger] self.peers@[k]).id != id,
            decreases n - i,
        {
            if self.peers[i].id == id {
                self.peers.remove(i);
                return Ok(());
            }
            i += 1;
        }
        Err(SessionError::UnknownPeer)
    }

    /// The peers whose idle window has run out at `now_ms`: absence of
    /// keep-alives for the window is treated as a disconnect.
    pub fn timed_out(&self, now_ms: u64, idle_ms: u64) -> (r: Vec<u32>)
        requires
            self.wf(),
        ensures
            forall|id: u32|
                #[trigger] r@.contains(id) <==> exists|i: int|
                    0 <= i < self.peers@.len() && (#[trigger] self.peers@[i]).id == id
                        && peer_expired(self.peers@[i], now_ms, idle_ms),
            forall|a: int, b: int| 0 <= a < b < r@.len() ==> r@[a] != r@[b],
    {
        let n = self.peers.len();
        let mut out: Vec<u32> = Vec::new();
        let mut i: usize = 0;
        while i < n
            invariant
                i <= n,
                n == self.peers@.len(),
                self.wf(),
                forall|id: u32|
                    #[trigger] out@.contains(id) <==> exists|k: int|
                        0 <= k < i && (#[trigger] self.peers@[k]).id == id && peer_expired(
                            self.peers@[k],
                            now_ms,
                            idle_ms,
                        ),
                forall|a: int, b: int| 0 <= a < b < out@.len() ==> out@[a] != out@[b],
            decreases n - i,
        {
            let p = self.peers[i];
            let ghost prev = out@;
            if idle_ms <= u64::MAX - p.last_seen_ms && p.last_seen_ms + idle_ms <= now_ms {
                proof {
                    assert forall|a: int| 0 <= a < prev.len() implies prev[a] != p.id by {
                        if prev[a] == p.id {
                            assert(prev.contains(p.id));
                            let k = choose|k: int|
                                0 <= k < i && (#[trigger] self.peers@[k]).id == p.id
                                    && peer_expired(self.peers@[k], now_ms, idle_ms);
                            assert(self.peers@[k].id == self.peers@[i as int].id);
                        }
                    }
                }
                out.push(p.id);
            }
            proof {
                assert forall|id: u32| #[trigger] out@.contains(id) implies exists|k: int|
                    0 <= k < i + 1 && (#[trigger] self.peers@[k]).id == id && peer_expired(
                        self.peers@[k],
                        now_ms,
                        idle_ms,
                    ) by {
                    if prev.contains(id) {
                        let k = choose|k: int|
                            0 <= k < i && (#[trigger] self.peers@[k]).id == id && peer_expired(
                                self.peers@[k],
                                now_ms,
                                idle_ms,
                            );
                        assert(self.peers@[k].id == id && peer_expired(
                            self.peers@[k],
                            now_ms,
                            idle_ms,
                        ));
                    } else {
                        assert(out@ == prev.push(p.id));
                        let j = choose|j: int| 0 <= j < out@.len() && out@[j] == id;
                        assert(j == prev.len());
                        assert(id == p.id);
                        assert(self.peers@[i as int].id == id && peer_expired(
                            self.peers@[i as int],
                            now_ms,
                            idle_ms,
                        ));
                    }
                }
                assert forall|id: u32|
                    (exists|k: int|
                        0 <= k < i + 1 && (#[trigger] self.peers@[k]).id == id && peer_expired(
                            self.peers@[k],
                            now_ms,
                            idle_ms,
                        )) implies #[trigger] out@.contains(id) by {
                    let k = choose|k: int|
                        0 <= k < i + 1 && (#[trigger] self.peers@[k]).id == id && peer_expired(
                            self.peers@[k],
                            now_ms,
                            idle_ms,
                        );
                    if k < i {
                        assert(prev.contains(id));
                        let j = choose|j: int| 0 <= j < prev.len() && prev[j] == id;
                        assert(out@[j] == id);
                    } else {
                        assert(out@[out@.len() - 1] == p.id);
                    }
                }
            }
            i += 1;
        }
        out
    }
}

/// The server's startup configuration.
#[derive(PartialEq, Eq, Debug)]
pub struct ServerInfo {
    pub server_addr: String,
    pub want_num_clients: u32,
}

/// A client's startup configuration.
#[derive(PartialEq, Eq, Debug)]
pub struct ClientInfo {
    pub client_addr: String,
    pub server_addr: String,
}

/// The id the server assigned to this client, once the connect ack
/// arrived.
#[derive(Clone, Copy, PartialEq, Eq, Structural, Debug)]
pub struct ClientId {
    pub id: u32,
    pub set: bool,
}

} // verus!
