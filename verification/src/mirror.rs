//! The client-side mirror: the local cache of remote actors, reconciled
//! against each incoming snapshot by diffing id sets.
//!
//! Ids in both snapshot and mirror are updated in place, ids only in the
//! snapshot spawn a fresh entry (and visual handle), ids only in the
//! mirror are dropped.  Because each snapshot is a full authoritative
//! picture, a lost one merely delays convergence by a tick; the next
//! snapshot heals the mirror completely.

use vstd::prelude::*;

use crate::geometry::Position;
use crate::protocol::{PlayerInfo, UpdatePlayerPositions};

verus! {

/// Marks a mirror-driven visual entity with the actor id it presents.
#[derive(Clone, Copy, PartialEq, Eq, Structural, Debug)]
pub struct ClientPlayer {
    pub id: u32,
}

/// Marks the visual entity of the client's own actor, for camera and UI
/// to track.
#[derive(Clone, Copy, PartialEq, Eq, Structural, Debug)]
pub struct Me;

/// One mirrored actor: its last known zone-local placement, the handle
/// of the visual entity presenting it, and whether it is the client's
/// own.
#[derive(Clone, Copy, PartialEq, Eq, Structural, Debug)]
pub struct MirrorEntry {
    pub id: u32,
    pub pos: Position,
    pub scale: i64,
    pub handle: u64,
    pub is_self: bool,
}

/// The local mirror, keyed by actor id.  Visual handles are allocated
/// from a counter and never reused.
#[derive(Debug)]
pub struct Mirror {
    pub entries: Vec<MirrorEntry>,
    pub next_handle: u64,
    pub my_id: u32,
}

/// The first entry carrying the id, if any.
pub open spec fn spec_lookup(entries: Seq<MirrorEntry>, id: u32) -> Option<MirrorEntry>
    decreases entries.len(),
{
    if entries.len() == 0 {
        None
    } else if entries.first().id == id {
        Some(entries.first())
    } else {
        spec_lookup(entries.drop_first(), id)
    }
}

/// The ids present in a sequence of entries.
pub open spec fn id_set(entries: Seq<MirrorEntry>) -> Set<u32>
    decreases entries.len(),
{
    if entries.len() == 0 {
        Set::<u32>::empty()
    } else {
        id_set(entries.drop_last()).insert(entries.last().id)
    }
}

/// Membership in `id_set` is exactly "some entry carries the id".
pub proof fn lemma_id_set_contains(entries: Seq<MirrorEntry>, id: u32)
    ensures
        id_set(entries).contains(id) <==> exists|k: int|
            0 <= k < entries.len() && (#[trigger] entries[k]).id == id,
    decreases entries.len(),
{
    if entries.len() > 0 {
        lemma_id_set_contains(entries.drop_last(), id);
        if entries.last().id == id {
            assert(entries[entries.len() - 1].id == id);
        } else if exists|k: int| 0 <= k < entries.len() && (#[trigger] entries[k]).id == id {
            let k = choose|k: int| 0 <= k < entries.len() && (#[trigger] entries[k]).id == id;
            if k < entries.len() - 1 {
                assert(entries.drop_last()[k].id == id);
            }
        }
    }
}

/// The mirror contents after a snapshot lands, and the handle counter
/// after it: one entry per distinct snapshot id in order of first
/// appearance, position and scale taken from the snapshot, the self flag
/// recomputed, and the visual handle carried over when the old mirror
/// already showed the id, freshly allocated otherwise.  `seen` holds the
/// ids already emitted by the surrounding computation.
pub open spec fn spec_apply(
    old_entries: Seq<MirrorEntry>,
    my_id: u32,
    players: Seq<PlayerInfo>,
    next_handle: int,
    seen: Set<u32>,
) -> (Seq<MirrorEntry>, int)
    decreases players.len(),
{
    if players.len() == 0 {
        (Seq::<MirrorEntry>::empty(), next_handle)
    } else {
        let p = players.first();
        if seen.contains(p.id) {
            spec_apply(old_entries, my_id, players.drop_first(), next_handle, seen)
        } else {
            let looked = spec_lookup(old_entries, p.id);
            let e = if looked is Some {
                MirrorEntry {
                    id: p.id,
                    pos: p.local_pos,
                    scale: p.scale,
                    handle: looked->Some_0.handle,
                    is_self: p.id == my_id,
                }
            } else {
                MirrorEntry {
                    id: p.id,
                    pos: p.local_pos,
                    scale: p.scale,
                    handle: next_handle as u64,
                    is_self: p.id == my_id,
                }
            };
            let nh = if looked is Some {
                next_handle
            } else {
                next_handle + 1
            };
            let rest = spec_apply(old_entries, my_id, players.drop_first(), nh, seen.insert(p.id));
            (seq![e] + rest.0, rest.1)
        }
    }
}

/// Whether some entry carries the id.
fn contains_id(entries: &Vec<MirrorEntry>, id: u32) -> (r: bool)
    ensures
        r == id_set(entries@).contains(id),
{
    let n = entries.len();
    let mut i: usize = 0;
    while i < n
        invariant
            i <= n,
            n == entries@.len(),
            forall|k: int| 0 <= k < i ==> (#[trigger] entries@[k]).id != id,
        decreases n - i,
    {
        if entries[i].id == id {
            proof {
                lemma_id_set_contains(entries@, id);
                assert(entries@[i as int].id == id);
            }
            return true;
        }
        i += 1;
    }
    proof {
        lemma_id_set_contains(entries@, id);
    }
    false
}

/// The visual handle of the first entry carrying the id, if any.
fn lookup_handle(entries: &Vec<MirrorEntry>, id: u32) -> (r: Option<u64>)
    ensures
        match spec_lookup(entries@, id) {
            Some(e) => r == Some(e.handle),
            None => r is None,
        },
{
    let n = entries.len();
    proof {
        assert(entries@.skip(0) =~= entries@);
    }
    let mut i: usize = 0;
    while i < n
        invariant
            i <= n,
            n == entries@.len(),
            spec_lookup(entries@, id) == spec_lookup(entries@.skip(i as int), id),
        decreases n - i,
    {
        proof {
            assert(entries@.skip(i as int).first() == entries@[i as int]);
            assert(entries@.skip(i as int).drop_first() =~= entries@.skip(i as int + 1));
        }
        if entries[i].id == id {
            return Some(entries[i].handle);
        }
        i += 1;
    }
    proof {
        assert(entries@.skip(n as int) =~= Seq::<MirrorEntry>::empty());
    }
    None
}

impl Mirror {
    /// An empty mirror for the client with the given id.
    pub fn new(my_id: u32) -> (m: Mirror)
        ensures
            m.entries@.len() == 0,
            m.next_handle == 0,
            m.my_id == my_id,
    {
        Mirror { entries: Vec::new(), next_handle: 0, my_id }
    }

    /// Reconciles the mirror against one snapshot: the symmetric
    /// difference of the id sets decides what is updated, spawned and
    /// dropped, as [`spec_apply`] states.
    pub fn apply_snapshot(&mut self, snap: &UpdatePlayerPositions)
        requires
            old(self).next_handle as int + snap.players@.len() <= u64::MAX as int,
        ensures
            final(self).entries@ == spec_apply(
                old(self).entries@,
                old(self).my_id,
                snap.players@,
                old(self).next_handle as int,
                Set::<u32>::empty(),
            ).0,
            final(self).next_handle as int == spec_apply(
                old(self).entries@,
                old(self).my_id,
                snap.players@,
                old(self).next_handle as int,
                Set::<u32>::empty(),
            ).1,
            final(self).my_id == old(self).my_id,
    {
        let ghost goal = spec_apply(
            self.entries@,
            self.my_id,
            snap.players@,
            self.next_handle as int,
            Set::<u32>::empty(),
        );
        let n = snap.players.len();
        let mut out: Vec<MirrorEntry> = Vec::new();
        let mut nh: u64 = self.next_handle;
        proof {
            assert(snap.players@.skip(0) =~= snap.players@);
            assert(id_set(out@) =~= Set::<u32>::empty());
            assert(Seq::<MirrorEntry>::empty() + spec_apply(
                self.entries@,
                self.my_id,
                snap.players@,
                self.next_handle as int,
                Set::<u32>::empty(),
            ).0 =~= goal.0);
        }
        let mut i: usize = 0;
        while i < n
            invariant
                i <= n,
                n == snap.players@.len(),
                *self == *old(self),
                nh as int + (snap.players@.len() - i) <= u64::MAX as int,
                self.next_handle <= nh,
                goal == spec_apply(
                    self.entries@,
                    self.my_id,
                    snap.players@,
                    self.next_handle as int,
                    Set::<u32>::empty(),
                ),
                goal.0 == out@ + spec_apply(
                    self.entries@,
                    self.my_id,
                    snap.players@.skip(i as int),
                    nh as int,
                    id_set(out@),
                ).0,
                goal.1 == spec_apply(
                    self.entries@,
                    self.my_id,
                    snap.players@.skip(i as int),
                    nh as int,
                    id_set(out@),
                ).1,
            decreases n - i,
        {
            let ghost prev_out = out@;
            let ghost prev_nh = nh as int;
            proof {
                assert(snap.players@.skip(i as int).first() == snap.players@[i as int]);
                assert(snap.players@.skip(i as int).drop_first() =~= snap.players@.skip(
                    i as int + 1,
                ));
            }
            let p = snap.players[i];
            if !contains_id(&out, p.id) {
                let e = match lookup_handle(&self.entries, p.id) {
                    Some(h) => MirrorEntry {
                        id: p.id,
                        pos: p.local_pos,
                        scale: p.scale,
                        handle: h,
                        is_self: p.id == self.my_id,
                    },
                    None => {
                        let e = MirrorEntry {
                            id: p.id,
                            pos: p.local_pos,
                            scale: p.scale,
                            handle: nh,
                            is_self: p.id == self.my_id,
                        };
                        nh = nh + 1;
                        e
                    },
                };
                out.push(e);
                proof {
                    assert(out@ =~= prev_out.push(e));
                    assert(id_set(out@) =~= id_set(prev_out).insert(p.id)) by {
                        assert(out@.drop_last() =~= prev_out);
                    }
                    assert(prev_out + (seq![e] + spec_apply(
                        self.entries@,
                        self.my_id,
                        snap.players@.skip(i as int + 1),
                        nh as int,
                        id_set(prev_out).insert(p.id),
                    ).0) =~= out@ + spec_apply(
                        self.entries@,
                        self.my_id,
                        snap.players@.skip(i as int + 1),
                        nh as int,
                        id_set(prev_out).insert(p.id),
                    ).0);
                }
            }
            i += 1;
        }
        proof {
            assert(snap.players@.skip(n as int) =~= Seq::<PlayerInfo>::empty());
            assert(goal.0 =~= out@ + Seq::<MirrorEntry>::empty());
            assert(goal.0 =~= out@);
        }
        self.entries = out;
        self.next_handle = nh;
    }

    /// Applies a drained batch of snapshots.  Each snapshot is a full
    /// authoritative picture, so only the newest one counts; the ones it
    /// superseded are discarded unapplied.
    pub fn update_players(&mut self, snaps: &Vec<UpdatePlayerPositions>)
        requires
            snaps@.len() > 0 ==> old(self).next_handle as int + snaps@.last().players@.len()
                <= u64::MAX as int,
        ensures
            snaps@.len() == 0 ==> *final(self) == *old(self),
            snaps@.len() > 0 ==> final(self).entries@ == spec_apply(
                old(self).entries@,
                old(self).my_id,
                snaps@.last().players@,
                old(self).next_handle as int,
                Set::<u32>::empty(),
            ).0 && final(self).next_handle as int == spec_apply(
                old(self).entries@,
                old(self).my_id,
                snaps@.last().players@,
                old(self).next_handle as int,
                Set::<u32>::empty(),
            ).1 && final(self).my_id == old(self).my_id,
    {
        let n = snaps.len();
        if n > 0 {
            let newest = &snaps[n - 1];
            self.apply_snapshot(newest);
        }
    }
}

/// The entries one snapshot produces carry pairwise distinct ids, none
/// of them already emitted by the surrounding computation.
pub proof fn lemma_apply_ids_unique(
    old_entries: Seq<MirrorEntry>,
    my_id: u32,
    players: Seq<PlayerInfo>,
    nh: int,
    seen: Set<u32>,
)
    ensures
        ({
            let out = spec_apply(old_entries, my_id, players, nh, seen).0;
            &&& forall|j: int| 0 <= j < out.len() ==> !seen.contains((#[trigger] out[j]).id)
            &&& forall|j1: int, j2: int|
                0 <= j1 < j2 < out.len() ==> out[j1].id != out[j2].id
        }),
    decreases players.len(),
{
    if players.len() == 0 {
        assert(spec_apply(old_entries, my_id, players, nh, seen).0.len() == 0);
    } else {
        let p = players.first();
        if seen.contains(p.id) {
            lemma_apply_ids_unique(old_entries, my_id, players.drop_first(), nh, seen);
            assert(spec_apply(old_entries, my_id, players, nh, seen) == spec_apply(
                old_entries,
                my_id,
                players.drop_first(),
                nh,
                seen,
            ));
        } else {
            let nh2 = if spec_lookup(old_entries, p.id) is Some {
                nh
            } else {
                nh + 1
            };
            lemma_apply_ids_unique(
                old_entries,
                my_id,
                players.drop_first(),
                nh2,
                seen.insert(p.id),
            );
            let out = spec_apply(old_entries, my_id, players, nh, seen).0;
            let rest = spec_apply(old_entries, my_id, players.drop_first(), nh2, seen.insert(p.id)).0;
            assert(out[0].id == p.id);
            assert(forall|j: int| 1 <= j < out.len() ==> (#[trigger] out[j]) == rest[j - 1]);
            assert forall|j: int| 0 <= j < out.len() implies !seen.contains(
                (#[trigger] out[j]).id,
            ) by {
                if j > 0 {
                    assert(out[j] == rest[j - 1]);
                    assert(!seen.insert(p.id).contains(rest[j - 1].id));
                }
            }
            assert forall|j1: int, j2: int| 0 <= j1 < j2 < out.len() implies out[j1].id
                != out[j2].id by {
                assert(out[j2] == rest[j2 - 1]);
                assert(!seen.insert(p.id).contains(rest[j2 - 1].id));
                if j1 > 0 {
                    assert(out[j1] == rest[j1 - 1]);
                }
            }
        }
    }
}

/// In a mirror whose ids are pairwise distinct, looking an entry's id up
/// finds exactly that entry.
pub proof fn lemma_lookup_self(entries: Seq<MirrorEntry>, j: int)
    requires
        forall|a: int, b: int|
            0 <= a < b < entries.len() ==> (#[trigger] entries[a]).id != (#[trigger] entries[b]).id,
        0 <= j < entries.len(),
    ensures
        spec_lookup(entries, entries[j].id) == Some(entries[j]),
    decreases entries.len(),
{
    if j > 0 {
        assert(entries[0].id != entries[j].id);
        assert(forall|a: int, b: int|
            0 <= a < b < entries.drop_first().len() ==> (#[trigger] entries.drop_first()[a]).id
                != (#[trigger] entries.drop_first()[b]).id) by {
            assert(forall|a: int|
                0 <= a < entries.drop_first().len() ==> (#[trigger] entries.drop_first()[a])
                    == entries[a + 1]);
        }
        lemma_lookup_self(entries.drop_first(), j - 1);
        assert(entries.drop_first()[j - 1] == entries[j]);
    }
}

/// Applying a snapshot to any mirror that already shows each produced
/// entry verbatim reproduces those entries and allocates nothing.
pub proof fn lemma_apply_stable(
    shown: Seq<MirrorEntry>,
    my_id: u32,
    players: Seq<PlayerInfo>,
    old_entries: Seq<MirrorEntry>,
    nh0: int,
    nh1: int,
    seen: Set<u32>,
)
    requires
        forall|j: int|
            0 <= j < spec_apply(old_entries, my_id, players, nh0, seen).0.len() ==> spec_lookup(
                shown,
                (#[trigger] spec_apply(old_entries, my_id, players, nh0, seen).0[j]).id,
            ) == Some(spec_apply(old_entries, my_id, players, nh0, seen).0[j]),
    ensures
        spec_apply(shown, my_id, players, nh1, seen).0 == spec_apply(
            old_entries,
            my_id,
            players,
            nh0,
            seen,
        ).0,
        spec_apply(shown, my_id, players, nh1, seen).1 == nh1,
    decreases players.len(),
{
    if players.len() > 0 {
        let p = players.first();
        let out0 = spec_apply(old_entries, my_id, players, nh0, seen).0;
        if seen.contains(p.id) {
            lemma_apply_stable(shown, my_id, players.drop_first(), old_entries, nh0, nh1, seen);
        } else {
            let nh0b = if spec_lookup(old_entries, p.id) is Some {
                nh0
            } else {
                nh0 + 1
            };
            let rest0 = spec_apply(
                old_entries,
                my_id,
                players.drop_first(),
                nh0b,
                seen.insert(p.id),
            ).0;
            let e0 = out0[0];
            assert(spec_lookup(shown, e0.id) == Some(e0));
            assert(e0.id == p.id);
            assert(forall|j: int| 0 <= j < rest0.len() ==> (#[trigger] rest0[j]) == out0[j + 1]);
            lemma_apply_stable(
                shown,
                my_id,
                players.drop_first(),
                old_entries,
                nh0b,
                nh1,
                seen.insert(p.id),
            );
            assert(spec_apply(shown, my_id, players, nh1, seen).0 =~= out0);
        }
    }
}

/// Idempotent reconciliation: applying the same snapshot to a mirror a
/// second time changes nothing — the entries, their visual handles and
/// the handle counter all stay as the first application left them.
pub proof fn lemma_reconcile_idempotent(
    entries: Seq<MirrorEntry>,
    my_id: u32,
    players: Seq<PlayerInfo>,
    nh: int,
)
    ensures
        ({
            let once = spec_apply(entries, my_id, players, nh, Set::<u32>::empty());
            spec_apply(once.0, my_id, players, once.1, Set::<u32>::empty()) == once
        }),
{
    let once = spec_apply(entries, my_id, players, nh, Set::<u32>::empty());
    lemma_apply_ids_unique(entries, my_id, players, nh, Set::<u32>::empty());
    assert forall|j: int| 0 <= j < once.0.len() implies spec_lookup(
        once.0,
        (#[trigger] once.0[j]).id,
    ) == Some(once.0[j]) by {
        lemma_lookup_self(once.0, j);
    }
    lemma_apply_stable(once.0, my_id, players, entries, nh, once.1, Set::<u32>::empty());
}

/// What a mirror entry shows on screen: everything but the private
/// visual handle.
pub open spec fn observed_entry(e: MirrorEntry) -> (u32, Position, i64, bool) {
    (e.id, e.pos, e.scale, e.is_self)
}

/// What a whole mirror shows on screen.
pub open spec fn observed(entries: Seq<MirrorEntry>) -> Seq<(u32, Position, i64, bool)> {
    entries.map_values(|e: MirrorEntry| observed_entry(e))
}

/// A snapshot alone determines what the mirror shows afterwards: two
/// mirrors in any two states show the same ids, placements and self
/// flags once the same snapshot lands on both.
pub proof fn lemma_snapshot_determines_observation(
    entries_a: Seq<MirrorEntry>,
    entries_b: Seq<MirrorEntry>,
    my_id: u32,
    players: Seq<PlayerInfo>,
    nh_a: int,
    nh_b: int,
    seen: Set<u32>,
)
    ensures
        observed(spec_apply(entries_a, my_id, players, nh_a, seen).0) == observed(
            spec_apply(entries_b, my_id, players, nh_b, seen).0,
        ),
    decreases players.len(),
{
    let out_a = spec_apply(entries_a, my_id, players, nh_a, seen).0;
    let out_b = spec_apply(entries_b, my_id, players, nh_b, seen).0;
    if players.len() == 0 {
        assert(observed(out_a) =~= observed(out_b));
    } else {
        let p = players.first();
        if seen.contains(p.id) {
            lemma_snapshot_determines_observation(
                entries_a,
                entries_b,
                my_id,
                players.drop_first(),
                nh_a,
                nh_b,
                seen,
            );
        } else {
            let nh_a2 = if spec_lookup(entries_a, p.id) is Some {
                nh_a
            } else {
                nh_a + 1
            };
            let nh_b2 = if spec_lookup(entries_b, p.id) is Some {
                nh_b
            } else {
                nh_b + 1
            };
            lemma_snapshot_determines_observation(
                entries_a,
                entries_b,
                my_id,
                players.drop_first(),
                nh_a2,
                nh_b2,
                seen.insert(p.id),
            );
            let rest_a = spec_apply(entries_a, my_id, players.drop_first(), nh_a2, seen.insert(p.id)).0;
            let rest_b = spec_apply(entries_b, my_id, players.drop_first(), nh_b2, seen.insert(p.id)).0;
            assert(observed_entry(out_a[0]) == observed_entry(out_b[0]));
            assert(forall|j: int| 0 <= j < rest_a.len() ==> (#[trigger] rest_a[j]) == out_a[j + 1]);
            assert(forall|j: int| 0 <= j < rest_b.len() ==> (#[trigger] rest_b[j]) == out_b[j + 1]);
            assert(observed(rest_a) == observed(rest_b));
            assert(rest_a.len() == rest_b.len()) by {
                assert(observed(rest_a).len() == rest_a.len());
                assert(observed(rest_b).len() == rest_b.len());
            }
            assert forall|j: int| 0 <= j < observed(out_a).len() implies (#[trigger] observed(
                out_a,
            )[j]) == observed(out_b)[j] by {
                assert(observed(out_a)[j] == observed_entry(out_a[j]));
                assert(observed(out_b)[j] == observed_entry(out_b[j]));
                if j > 0 {
                    assert(out_a[j] == rest_a[j - 1]);
                    assert(out_b[j] == rest_b[j - 1]);
                    assert(observed(rest_a)[j - 1] == observed_entry(rest_a[j - 1]));
                    assert(observed(rest_b)[j - 1] == observed_entry(rest_b[j - 1]));
                    assert(observed(rest_a)[j - 1] == observed(rest_b)[j - 1]);
                }
            }
            assert(observed(out_a) =~= observed(out_b));
        }
    }
}

/// Self-healing under loss: when a snapshot is dropped, the next one
/// restores the mirror completely — it then shows exactly what it would
/// have shown had nothing been lost.  Only the private visual handles
/// may differ.
pub proof fn lemma_self_healing(
    entries: Seq<MirrorEntry>,
    my_id: u32,
    lost: Seq<PlayerInfo>,
    next: Seq<PlayerInfo>,
    nh: int,
)
    ensures
        ({
            let delivered = spec_apply(entries, my_id, lost, nh, Set::<u32>::empty());
            let healed = spec_apply(delivered.0, my_id, next, delivered.1, Set::<u32>::empty());
            let skipped = spec_apply(entries, my_id, next, nh, Set::<u32>::empty());
            observed(healed.0) == observed(skipped.0)
        }),
{
    let delivered = spec_apply(entries, my_id, lost, nh, Set::<u32>::empty());
    lemma_snapshot_determines_observation(
        delivered.0,
        entries,
        my_id,
        next,
        delivered.1,
        nh,
        Set::<u32>::empty(),
    );
}

} // verus!
