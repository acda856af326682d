//! The snapshot broadcaster: once per tick, every peer receives the full
//! authoritative state of its own zone's actors, in zone-local
//! coordinates.  Clients never see cross-zone positions, which bounds
//! message size and isolates zones from each other.

use vstd::prelude::*;

use crate::geometry::Position;
use crate::movement::{actor_zone, Actor};
use crate::protocol::{PlayerInfo, UpdatePlayerPositions};
use crate::world::World;

verus! {

/// The snapshot entry an actor contributes: its placement in its zone's
/// local frame.
pub open spec fn spec_entry_of(a: Actor, w: World) -> PlayerInfo {
    PlayerInfo {
        id: a.id,
        local_pos: Position {
            x: (a.pos.x - actor_zone(a, w).origin_x) as i64,
            y: (a.pos.y - actor_zone(a, w).origin_y) as i64,
            z: a.pos.z,
        },
        scale: a.scale,
    }
}

/// The full snapshot of one zone: exactly the actors resident in it, in
/// table order, in zone-local coordinates.
pub open spec fn spec_zone_snapshot(actors: Seq<Actor>, zone_id: u32, w: World) -> Seq<PlayerInfo>
    decreases actors.len(),
{
    if actors.len() == 0 {
        Seq::<PlayerInfo>::empty()
    } else {
        let rest = spec_zone_snapshot(actors.drop_first(), zone_id, w);
        if actors.first().zone_id == zone_id {
            seq![spec_entry_of(actors.first(), w)] + rest
        } else {
            rest
        }
    }
}

/// Builds the snapshot of one zone.
pub fn zone_snapshot(actors: &Vec<Actor>, zone_id: u32, world: &World) -> (s:
    UpdatePlayerPositions)
    requires
        world.wf(),
        forall|i: int| 0 <= i < actors@.len() ==> (#[trigger] actors@[i]).wf(*world),
    ensures
        s.players@ == spec_zone_snapshot(actors@, zone_id, *world),
{
    let n = actors.len();
    let mut out: Vec<PlayerInfo> = Vec::new();
    proof {
        assert(actors@.skip(0) =~= actors@);
        assert(Seq::<PlayerInfo>::empty() + spec_zone_snapshot(actors@, zone_id, *world)
            =~= spec_zone_snapshot(actors@, zone_id, *world));
    }
    let mut i: usize = 0;
    while i < n
        invariant
            i <= n,
            n == actors@.len(),
            world.wf(),
            forall|k: int| 0 <= k < n ==> (#[trigger] actors@[k]).wf(*world),
            spec_zone_snapshot(actors@, zone_id, *world) == out@ + spec_zone_snapshot(
                actors@.skip(i as int),
                zone_id,
                *world,
            ),
        decreases n - i,
    {
        proof {
            assert(actors@.skip(i as int).first() == actors@[i as int]);
            assert(actors@.skip(i as int).drop_first() =~= actors@.skip(i as int + 1));
        }
        let a = &actors[i];
        if a.zone_id == zone_id {
            let z = &world.zones[a.zone_id as usize];
            let e = PlayerInfo {
                id: a.id,
                local_pos: Position { x: a.pos.x - z.origin_x, y: a.pos.y - z.origin_y, z: a.pos.z },
                scale: a.scale,
            };
            proof {
                assert(e == spec_entry_of(actors@[i as int], *world));
                assert(out@ + spec_zone_snapshot(actors@.skip(i as int), zone_id, *world) == (out@
                    + seq![e]) + spec_zone_snapshot(actors@.skip(i as int + 1), zone_id, *world)) by {
                    assert(out@ + (seq![e] + spec_zone_snapshot(
                        actors@.skip(i as int + 1),
                        zone_id,
                        *world,
                    )) =~= (out@ + seq![e]) + spec_zone_snapshot(
                        actors@.skip(i as int + 1),
                        zone_id,
                        *world,
                    ));
                }
                assert(out@.push(e) =~= out@ + seq![e]);
            }
            out.push(e);
        }
        i += 1;
    }
    proof {
        assert(actors@.skip(n as int) =~= Seq::<Actor>::empty());
    }
    UpdatePlayerPositions { players: out }
}

/// Prepares one broadcast tick: for every live actor, the snapshot its
/// peer receives — the actors of that peer's own zone and no other.
pub fn broadcast_players(actors: &Vec<Actor>, world: &World) -> (r: Vec<
    (u32, UpdatePlayerPositions),
>)
    requires
        world.wf(),
        forall|i: int| 0 <= i < actors@.len() ==> (#[trigger] actors@[i]).wf(*world),
    ensures
        r@.len() == actors@.len(),
        forall|i: int|
            0 <= i < r@.len() ==> (#[trigger] r@[i]).0 == actors@[i].id && r@[i].1.players@
                == spec_zone_snapshot(actors@, actors@[i].zone_id, *world),
{
    let n = actors.len();
    let mut out: Vec<(u32, UpdatePlayerPositions)> = Vec::new();
    let mut i: usize = 0;
    while i < n
        invariant
            i <= n,
            n == actors@.len(),
            world.wf(),
            forall|k: int| 0 <= k < n ==> (#[trigger] actors@[k]).wf(*world),
            out@.len() == i,
            forall|k: int|
                0 <= k < i ==> (#[trigger] out@[k]).0 == actors@[k].id && out@[k].1.players@
                    == spec_zone_snapshot(actors@, actors@[k].zone_id, *world),
        decreases n - i,
    {
        let snap = zone_snapshot(actors, actors[i].zone_id, world);
        out.push((actors[i].id, snap));
        i += 1;
    }
    out
}

/// Zone isolation: when every actor carrying an id sits outside a zone,
/// that zone's snapshot never lists the id.  A peer resident only in
/// another zone therefore never receives this actor.
pub proof fn lemma_zone_isolation(actors: Seq<Actor>, zone_id: u32, w: World, aid: u32)
    requires
        forall|i: int|
            0 <= i < actors.len() && (#[trigger] actors[i]).id == aid ==> actors[i].zone_id
                != zone_id,
    ensures
        forall|k: int|
            0 <= k < spec_zone_snapshot(actors, zone_id, w).len() ==> (
            #[trigger] spec_zone_snapshot(actors, zone_id, w)[k]).id != aid,
    decreases actors.len(),
{
    if actors.len() > 0 {
        let snap = spec_zone_snapshot(actors, zone_id, w);
        let rest = spec_zone_snapshot(actors.drop_first(), zone_id, w);
        assert(forall|i: int|
            0 <= i < actors.drop_first().len() && (#[trigger] actors.drop_first()[i]).id == aid
                ==> actors.drop_first()[i].zone_id != zone_id) by {
            assert(forall|i: int|
                0 <= i < actors.drop_first().len() ==> (#[trigger] actors.drop_first()[i])
                    == actors[i + 1]);
        }
        lemma_zone_isolation(actors.drop_first(), zone_id, w, aid);
        if actors.first().zone_id == zone_id {
            assert(snap == seq![spec_entry_of(actors.first(), w)] + rest);
            assert forall|k: int| 0 <= k < snap.len() implies (#[trigger] snap[k]).id != aid by {
                if k == 0 {
                    assert(actors[0].zone_id == zone_id);
                    assert(snap[0] == spec_entry_of(actors.first(), w));
                } else {
                    assert(snap[k] == rest[k - 1]);
                }
            }
        } else {
            assert(snap == rest);
            assert forall|k: int| 0 <= k < snap.len() implies (#[trigger] snap[k]).id != aid by {
                assert(snap[k] == rest[k]);
            }
        }
    }
}

} // verus!
