//! The explicit session context a server threads through its tick: the
//! live peer table and the actor table, and what one tick does to them.
//! There is no ambient global state; every step takes the context and
//! the read-only zone graph as arguments.

use vstd::prelude::*;

use crate::geometry::{Direction, COORD_LIMIT};
use crate::movement::{
    spawn_actor, spec_spawn_actor, tick_actor, tick_rel, wf_manifold, Actor, ContactManifold,
};
use crate::protocol::{ChangeLevel, ConnectAck};
use crate::session::{Peer, PeerTable, SessionError};
use crate::world::World;

verus! {

/// What the collision capability reports for one actor this tick: the
/// downward ground probe's verdict and the contact manifolds.
pub struct TickProbe {
    pub grounded: bool,
    pub manifolds: Vec<ContactManifold>,
}

pub open spec fn wf_probe(p: TickProbe) -> bool {
    forall|i: int| 0 <= i < p.manifolds@.len() ==> wf_manifold(#[trigger] p.manifolds@[i])
}

/// Whether some actor carries the id.
pub open spec fn has_actor_id(actors: Seq<Actor>, id: u32) -> bool {
    exists|i: int| 0 <= i < actors.len() && actors[i].id == id
}

/// The server's live tables: peers and the actors they drive.
pub struct SessionContext {
    pub peers: PeerTable,
    pub actors: Vec<Actor>,
}

impl SessionContext {
    /// Identity bookkeeping: the peer table is sound, actor ids are
    /// pairwise distinct and all stem from the peer table's id counter.
    pub open spec fn ids_ok(self) -> bool {
        &&& self.peers.wf()
        &&& forall|i: int, j: int|
            0 <= i < j < self.actors@.len() ==> (#[trigger] self.actors@[i]).id != (
            #[trigger] self.actors@[j]).id
        &&& forall|i: int|
            0 <= i < self.actors@.len() ==> (#[trigger] self.actors@[i]).id < self.peers.next_id
    }

    /// The whole context invariant against a world.
    pub open spec fn wf(self, w: World) -> bool {
        &&& self.ids_ok()
        &&& forall|i: int| 0 <= i < self.actors@.len() ==> (#[trigger] self.actors@[i]).wf(w)
    }

    /// An empty session: no peers, no actors.
    pub fn new() -> (s: SessionContext)
        ensures
            s.peers.peers@.len() == 0,
            s.peers.next_id == 1,
            s.actors@.len() == 0,
            s.ids_ok(),
            forall|w: World| s.wf(w),
    {
        SessionContext { peers: PeerTable::new(), actors: Vec::new() }
    }

    /// Completes a connect handshake: registers the peer, spawns its
    /// actor at the given zone's spawn anchor, and returns the assigned
    /// id together with the acknowledgement to send back.
    pub fn handle_connect(&mut self, now_ms: u64, world: &World, zone_id: u32, scale: i64) -> (r: (
        u32,
        ConnectAck,
    ))
        requires
            world.wf(),
            old(self).wf(*world),
            old(self).peers.next_id < u32::MAX,
            (zone_id as int) < world.zones@.len(),
            0 <= scale <= COORD_LIMIT,
        ensures
            final(self).wf(*world),
            r.0 == old(self).peers.next_id,
            r.1 == (ConnectAck { id: r.0 }),
            !old(self).peers.spec_has_peer(r.0),
            final(self).peers.peers@ == old(self).peers.peers@.push(
                Peer { id: r.0, last_seen_ms: now_ms },
            ),
            final(self).peers.next_id == old(self).peers.next_id + 1,
            final(self).actors@ == old(self).actors@.push(
                spec_spawn_actor(r.0, zone_id, *world, scale),
            ),
    {
        let id = self.peers.connect(now_ms);
        let a = spawn_actor(id, zone_id, world, scale);
        self.actors.push(a);
        (id, ConnectAck { id })
    }

    /// Removes a peer and the actor it drove, graceful disconnect and
    /// idle timeout alike.  `UnknownPeer` exactly when the peer already
    /// was gone; the actor sweep happens either way, so a session error
    /// never strands an actor.
    pub fn handle_disconnect(&mut self, id: u32) -> (r: Result<(), SessionError>)
        requires
            old(self).ids_ok(),
        ensures
            final(self).ids_ok(),
            r is Ok <==> old(self).peers.spec_has_peer(id),
            !final(self).peers.spec_has_peer(id),
            !has_actor_id(final(self).actors@, id),
            final(self).peers.next_id == old(self).peers.next_id,
            (exists|i: int|
                0 <= i < old(self).actors@.len() && old(self).actors@[i].id == id
                    && final(self).actors@ == old(self).actors@.remove(i)) || (!has_actor_id(
                old(self).actors@,
                id,
            ) && final(self).actors@ == old(self).actors@),
            forall|w: World| old(self).wf(w) ==> final(self).wf(w),
    {
        remove_actor_by_id(&mut self.actors, id);
        let r = self.peers.disconnect(id);
        proof {
            lemma_remove_keeps_actors(old(self).actors@, self.actors@);
            assert forall|k: int|
                0 <= k < self.actors@.len() implies (#[trigger] self.actors@[k]).id
                < self.peers.next_id by {
                assert(old(self).actors@.contains(self.actors@[k]));
                let j = choose|j: int|
                    0 <= j < old(self).actors@.len() && old(self).actors@[j] == self.actors@[
                        k as int
                    ];
                assert(old(self).actors@[j].id < old(self).peers.next_id);
            }
            assert forall|w: World| old(self).wf(w) implies self.wf(w) by {
                assert forall|k: int|
                    0 <= k < self.actors@.len() implies (#[trigger] self.actors@[k]).wf(w) by {
                    assert(old(self).actors@.contains(self.actors@[k]));
                    let j = choose|j: int|
                        0 <= j < old(self).actors@.len() && old(self).actors@[j] == self.actors@[
                            k as int
                        ];
                    assert(old(self).actors@[j].wf(w));
                }
            }
        }
        r
    }

    /// Stamps the peer's liveness; absence of these for the idle window
    /// counts as a disconnect.
    pub fn handle_keep_alive(&mut self, id: u32, now_ms: u64) -> (r: Result<(), SessionError>)
        requires
            old(self).ids_ok(),
        ensures
            final(self).ids_ok(),
            r is Ok <==> old(self).peers.spec_has_peer(id),
            final(self).actors@ == old(self).actors@,
            final(self).peers.next_id == old(self).peers.next_id,
            forall|w: World| old(self).wf(w) ==> final(self).wf(w),
    {
        self.peers.keep_alive(id, now_ms)
    }

    /// Routes a movement intent to the actor of the peer that sent it.
    /// Most-recent-wins: the intent overwrites whatever was pending.  A
    /// message from a vanished peer answers `UnknownPeer` and changes
    /// nothing — it is logged and dropped, never an abort.
    pub fn handle_move(&mut self, id: u32, dir: Direction) -> (r: Result<(), SessionError>)
        requires
            old(self).ids_ok(),
        ensures
            final(self).ids_ok(),
            final(self).peers == old(self).peers,
            r is Ok <==> has_actor_id(old(self).actors@, id),
            r is Err ==> final(self).actors@ == old(self).actors@,
            r is Ok ==> exists|i: int|
                0 <= i < old(self).actors@.len() && old(self).actors@[i].id == id
                    && final(self).actors@ == old(self).actors@.update(
                    i,
                    Actor { intent: Some(dir), ..old(self).actors@[i] },
                ),
            forall|w: World| old(self).wf(w) ==> final(self).wf(w),
    {
        let n = self.actors.len();
        let mut i: usize = 0;
        while i < n
            invariant
                i <= n,
                n == self.actors@.len(),
                *self == *old(self),
                old(self).ids_ok(),
                forall|k: int| 0 <= k < i ==> (#[trigger] self.actors@[k]).id != id,
            decreases n - i,
        {
            if self.actors[i].id == id {
                let mut a = self.actors[i];
                a.intent = Some(dir);
                self.actors[i] = a;
                return Ok(());
            }
            i += 1;
        }
        Err(SessionError::UnknownPeer)
    }

    /// One simulation tick over the whole actor table.  Slot `i` of the
    /// probe list belongs to actor `i`; slot `i` of the result carries
    /// the zone-change notification to forward to that actor's peer, if
    /// its portal fired.
    pub fn tick_all(&mut self, world: &World, probes: &Vec<TickProbe>) -> (notes: Vec<
        Option<ChangeLevel>,
    >)
        requires
            world.wf(),
            old(self).wf(*world),
            probes@.len() == old(self).actors@.len(),
            forall|i: int| 0 <= i < probes@.len() ==> wf_probe(#[trigger] probes@[i]),
        ensures
            final(self).wf(*world),
            final(self).peers == old(self).peers,
            final(self).actors@.len() == old(self).actors@.len(),
            notes@.len() == old(self).actors@.len(),
            forall|i: int|
                0 <= i < notes@.len() ==> tick_rel(
                    old(self).actors@[i],
                    *world,
                    probes@[i].grounded,
                    (#[trigger] probes@[i]).manifolds@,
                    final(self).actors@[i],
                    notes@[i],
                ),
            forall|i: int|
                0 <= i < notes@.len() ==> (#[trigger] final(self).actors@[i]).id
                    == old(self).actors@[i].id,
    {
        let n = self.actors.len();
        let mut notes: Vec<Option<ChangeLevel>> = Vec::new();
        let mut i: usize = 0;
        while i < n
            invariant
                i <= n,
                world.wf(),
                n == self.actors@.len(),
                n == old(self).actors@.len(),
                n == probes@.len(),
                notes@.len() == i,
                self.peers == old(self).peers,
                old(self).ids_ok(),
                forall|k: int| 0 <= k < probes@.len() ==> wf_probe(#[trigger] probes@[k]),
                forall|k: int| i <= k < n ==> (#[trigger] self.actors@[k]) == old(self).actors@[k],
                forall|k: int| 0 <= k < n ==> (#[trigger] old(self).actors@[k]).wf(*world),
                forall|k: int|
                    0 <= k < i ==> tick_rel(
                        old(self).actors@[k],
                        *world,
                        probes@[k].grounded,
                        (#[trigger] probes@[k]).manifolds@,
                        self.actors@[k],
                        notes@[k],
                    ),
                forall|k: int|
                    0 <= k < i ==> (#[trigger] self.actors@[k]).wf(*world) && self.actors@[k].id
                        == old(self).actors@[k].id,
            decreases n - i,
        {
            let mut a = self.actors[i];
            let probe = &probes[i];
            let note = tick_actor(&mut a, world, probe.grounded, &probe.manifolds);
            self.actors[i] = a;
            notes.push(note);
            i += 1;
        }
        proof {
            assert forall|a: int, b: int|
                0 <= a < b < self.actors@.len() implies (#[trigger] self.actors@[a]).id != (
            #[trigger] self.actors@[b]).id by {
                assert(old(self).actors@[a].id != old(self).actors@[b].id);
            }
        }
        notes
    }
}

/// Removes the actor carrying the id, if there is one.
fn remove_actor_by_id(actors: &mut Vec<Actor>, id: u32)
    requires
        forall|i: int, j: int|
            0 <= i < j < old(actors)@.len() ==> (#[trigger] old(actors)@[i]).id != (
            #[trigger] old(actors)@[j]).id,
    ensures
        (exists|i: int|
            0 <= i < old(actors)@.len() && old(actors)@[i].id == id
                && final(actors)@ == old(actors)@.remove(i)) || (!has_actor_id(old(actors)@, id)
            && final(actors)@ == old(actors)@),
        !has_actor_id(final(actors)@, id),
{
    let n = actors.len();
    let mut i: usize = 0;
    while i < n
        invariant
            i <= n,
            n == actors@.len(),
            *actors == *old(actors),
            forall|a: int, b: int|
                0 <= a < b < old(actors)@.len() ==> (#[trigger] old(actors)@[a]).id != (
                #[trigger] old(actors)@[b]).id,
            forall|k: int| 0 <= k < i ==> (#[trigger] actors@[k]).id != id,
        decreases n - i,
    {
        if actors[i].id == id {
            let ghost pre = actors@;
            actors.remove(i);
            proof {
                assert(actors@ == pre.remove(i as int));
                assert(forall|k: int|
                    0 <= k < actors@.len() ==> (#[trigger] actors@[k]) == if k < i {
                        pre[k]
                    } else {
                        pre[k + 1]
                    });
                assert forall|pid: u32| has_actor_id(actors@, pid) implies pid != id by {
                    let k = choose|k: int|
                        0 <= k < actors@.len() && (#[trigger] actors@[k]).id == pid;
                    if k < i {
                        assert(pre[k].id == pid);
                        if pid == id {
                            assert(pre[k].id == pre[i as int].id);
                        }
                    } else {
                        assert(pre[k + 1].id == pid);
                        if pid == id {
                            assert(pre[i as int].id == pre[k + 1].id);
                        }
                    }
                }
            }
            return ;
        }
        i += 1;
    }
}

/// Dropping one actor from a table keeps every remaining record, their
/// pairwise distinct ids and any per-actor fact.
pub proof fn lemma_remove_keeps_actors(a0: Seq<Actor>, a1: Seq<Actor>)
    requires
        (exists|i: int| 0 <= i < a0.len() && a1 == a0.remove(i)) || a1 == a0,
    ensures
        forall|k: int| 0 <= k < a1.len() ==> a0.contains(#[trigger] a1[k]),
        (forall|i: int, j: int|
            0 <= i < j < a0.len() ==> (#[trigger] a0[i]).id != (#[trigger] a0[j]).id) ==> (forall|
            i: int,
            j: int,
        |
            0 <= i < j < a1.len() ==> (#[trigger] a1[i]).id != (#[trigger] a1[j]).id),
{
    if exists|i: int| 0 <= i < a0.len() && a1 == a0.remove(i) {
        let i = choose|i: int| 0 <= i < a0.len() && a1 == a0.remove(i);
        assert(forall|k: int|
            0 <= k < a1.len() ==> (#[trigger] a1[k]) == if k < i {
                a0[k]
            } else {
                a0[k + 1]
            });
        assert forall|k: int| 0 <= k < a1.len() implies a0.contains(#[trigger] a1[k]) by {
            if k < i {
                assert(a1[k] == a0[k]);
            } else {
                assert(a1[k] == a0[k + 1]);
            }
        }
    } else {
        assert forall|k: int| 0 <= k < a1.len() implies a0.contains(#[trigger] a1[k]) by {
            assert(a1[k] == a0[k]);
        }
    }
}

/// Whether the id list contains the id.
fn ids_contain(ids: &Vec<u32>, id: u32) -> (r: bool)
    ensures
        r == ids@.contains(id),
{
    let n = ids.len();
    let mut i: usize = 0;
    while i < n
        invariant
            i <= n,
            n == ids@.len(),
            forall|k: int| 0 <= k < i ==> ids@[k] != id,
        decreases n - i,
    {
        if ids[i] == id {
            assert(ids@[i as int] == id);
            return true;
        }
        i += 1;
    }
    false
}

/// Whether some actor of the table carries the id.
fn actors_contain(actors: &Vec<Actor>, id: u32) -> (r: bool)
    ensures
        r == has_actor_id(actors@, id),
{
    let n = actors.len();
    let mut i: usize = 0;
    while i < n
        invariant
            i <= n,
            n == actors@.len(),
            forall|k: int| 0 <= k < i ==> (#[trigger] actors@[k]).id != id,
        decreases n - i,
    {
        if actors[i].id == id {
            return true;
        }
        i += 1;
    }
    false
}

/// The self-healing sweep of the actor table against the transport's
/// current connection list: which connected peers still lack an actor,
/// and which actors lost their peer and must despawn.
pub fn diff_actor_ids(client_ids: &Vec<u32>, actors: &Vec<Actor>) -> (r: (Vec<u32>, Vec<u32>))
    ensures
        forall|id: u32|
            #[trigger] r.0@.contains(id) <==> client_ids@.contains(id) && !has_actor_id(
                actors@,
                id,
            ),
        forall|id: u32|
            #[trigger] r.1@.contains(id) <==> has_actor_id(actors@, id) && !client_ids@.contains(
                id,
            ),
        forall|a: int, b: int| 0 <= a < b < r.0@.len() ==> r.0@[a] != r.0@[b],
        forall|a: int, b: int| 0 <= a < b < r.1@.len() ==> r.1@[a] != r.1@[b],
{
    let mut missing: Vec<u32> = Vec::new();
    let n = client_ids.len();
    let mut i: usize = 0;
    while i < n
        invariant
            i <= n,
            n == client_ids@.len(),
            forall|id: u32|
                #[trigger] missing@.contains(id) <==> (exists|k: int|
                    0 <= k < i && client_ids@[k] == id) && !has_actor_id(actors@, id),
            forall|a: int, b: int| 0 <= a < b < missing@.len() ==> missing@[a] != missing@[b],
        decreases n - i,
    {
        let ghost prev = missing@;
        let cid = client_ids[i];
        if !actors_contain(actors, cid) && !ids_contain(&missing, cid) {
            proof {
                assert forall|a: int| 0 <= a < prev.len() implies prev[a] != cid by {
                    if prev[a] == cid {
                        assert(prev.contains(cid));
                    }
                }
            }
            missing.push(cid);
        }
        proof {
            assert forall|id: u32| #[trigger] missing@.contains(id) implies (exists|k: int|
                0 <= k < i + 1 && client_ids@[k] == id) && !has_actor_id(actors@, id) by {
                if prev.contains(id) {
                    let k = choose|k: int| 0 <= k < i && client_ids@[k] == id;
                    assert(client_ids@[k] == id);
                } else {
                    assert(missing@ == prev.push(cid));
                    let j = choose|j: int| 0 <= j < missing@.len() && missing@[j] == id;
                    assert(j == prev.len());
                    assert(id == cid);
                    assert(client_ids@[i as int] == id);
                }
            }
            assert forall|id: u32|
                (exists|k: int| 0 <= k < i + 1 && client_ids@[k] == id) && !has_actor_id(
                    actors@,
                    id,
                ) implies #[trigger] missing@.contains(id) by {
                let k = choose|k: int| 0 <= k < i + 1 && client_ids@[k] == id;
                if k < i {
                    assert(prev.contains(id));
                    let j = choose|j: int| 0 <= j < prev.len() && prev[j] == id;
                    assert(missing@[j] == id);
                } else {
                    if prev.contains(id) {
                        let j = choose|j: int| 0 <= j < prev.len() && prev[j] == id;
                        assert(missing@[j] == id);
                    } else {
                        assert(missing@[missing@.len() - 1] == cid);
                    }
                }
            }
        }
        i += 1;
    }
    let mut stale: Vec<u32> = Vec::new();
    let m = actors.len();
    let mut i: usize = 0;
    while i < m
        invariant
            i <= m,
            m == actors@.len(),
            forall|id: u32|
                #[trigger] stale@.contains(id) <==> (exists|k: int|
                    0 <= k < i && (#[trigger] actors@[k]).id == id) && !client_ids@.contains(id),
            forall|a: int, b: int| 0 <= a < b < stale@.len() ==> stale@[a] != stale@[b],
        decreases m - i,
    {
        let ghost prev = stale@;
        let aid = actors[i].id;
        if !ids_contain(client_ids, aid) && !ids_contain(&stale, aid) {
            proof {
                assert forall|a: int| 0 <= a < prev.len() implies prev[a] != aid by {
                    if prev[a] == aid {
                        assert(prev.contains(aid));
                    }
                }
            }
            stale.push(aid);
        }
        proof {
            assert forall|id: u32| #[trigger] stale@.contains(id) implies (exists|k: int|
                0 <= k < i + 1 && (#[trigger] actors@[k]).id == id) && !client_ids@.contains(
                id,
            ) by {
                if prev.contains(id) {
                    let k = choose|k: int| 0 <= k < i && (#[trigger] actors@[k]).id == id;
                    assert(actors@[k].id == id);
                } else {
                    assert(stale@ == prev.push(aid));
                    let j = choose|j: int| 0 <= j < stale@.len() && stale@[j] == id;
                    assert(j == prev.len());
                    assert(id == aid);
                    assert(actors@[i as int].id == id);
                }
            }
            assert forall|id: u32|
                (exists|k: int| 0 <= k < i + 1 && (#[trigger] actors@[k]).id == id)
                    && !client_ids@.contains(id) implies #[trigger] stale@.contains(id) by {
                let k = choose|k: int| 0 <= k < i + 1 && (#[trigger] actors@[k]).id == id;
                if k < i {
                    assert(prev.contains(id));
                    let j = choose|j: int| 0 <= j < prev.len() && prev[j] == id;
                    assert(stale@[j] == id);
                } else {
                    if prev.contains(id) {
                        let j = choose|j: int| 0 <= j < prev.len() && prev[j] == id;
                        assert(stale@[j] == id);
                    } else {
                        assert(stale@[stale@.len() - 1] == aid);
                    }
                }
            }
        }
        i += 1;
    }
    (missing, stale)
}

} // verus!

