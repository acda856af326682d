//! The authoritative movement engine: one tick of one actor.
//!
//! A tick applies the newest movement intent, evaluates the portal check
//! edge-triggered, probes the ground, resolves penetrations against the
//! contact manifolds the collision query reported, and commits the result.
//! The collision query itself is an outside capability; its findings enter
//! here as plain values, and the whole decision the engine takes on them is
//! captured by [`tick_rel`].

use vstd::prelude::*;

use crate::geometry::{Direction, Position, Rect, COORD_LIMIT, SPEED_LIMIT};
use crate::protocol::ChangeLevel;
use crate::world::{
    find_counterpart, find_portal, has_link, in_some_portal, zone_links_ok, PortalInfo, World,
    Zone,
};

verus! {

/// Horizontal speed of a steered actor, world units per tick.
pub const PLAYER_MOVE_SPEED: i64 = 1000;

/// Downward free-fall step while airborne, world units per tick.
pub const GRAVITY_STEP: i64 = 1000;

/// Upper bound on the magnitude of a contact normal component.
pub const NORMAL_LIMIT: i64 = 1_000_000;

/// Upper bound on the magnitude of a single penetration correction:
/// penetration and normal components are each bounded by a million.
pub const CORRECTION_LIMIT: i64 = 1_000_000_000_000;

/// The server-side record tying an actor to the transport address of the
/// peer that drives it.
#[derive(PartialEq, Eq, Debug)]
pub struct ServerPlayer {
    pub addr: String,
}

/// Identity of a player entity: its session id and which model it
/// presents as.
#[derive(Clone, Copy, PartialEq, Eq, Structural, Debug)]
pub struct PlayerData {
    pub id: u32,
    pub handle_id: u8,
}

/// A server-owned movable participant.  Exclusively mutated by the
/// movement engine; the snapshot broadcaster only reads it.
#[derive(Clone, Copy, PartialEq, Eq, Structural, Debug)]
pub struct Actor {
    /// Equal to the id of the peer that owns this actor.
    pub id: u32,
    /// World-space position.
    pub pos: Position,
    /// Horizontal velocity, world units per tick.
    pub vel_x: i64,
    pub vel_y: i64,
    /// Whether the last ground probe found support.
    pub grounded: bool,
    /// The zone the actor is resident in.
    pub zone_id: u32,
    /// Edge trigger: set while the actor stands inside a portal volume,
    /// so a portal fires once per pass, not once per tick.
    pub was_in_portal: bool,
    /// The newest movement intent received since the last tick, if any.
    /// A newer intent overwrites an older one; none are queued.
    pub intent: Option<Direction>,
    /// Presentation scale, carried into snapshots.
    pub scale: i64,
}

/// One contact manifold from the collision query, reduced to what the
/// resolution step reads: a penetration depth and the contact normal,
/// split into its horizontal magnitude and its vertical component.
#[derive(Clone, Copy, PartialEq, Eq, Structural, Debug)]
pub struct ContactManifold {
    /// Whether the query resolved this contact to a usable depth.
    pub resolved: bool,
    /// Penetration depth, nonnegative, world units.
    pub penetration: i64,
    /// Horizontal magnitude of the contact normal, nonnegative.
    pub normal_horiz: i64,
    /// Vertical component of the contact normal; negative means the
    /// contact presses down from above.
    pub normal_z: i64,
}

/// Ranges under which the correction arithmetic stays in `i64`.
pub open spec fn wf_manifold(m: ContactManifold) -> bool {
    &&& 0 <= m.penetration <= SPEED_LIMIT
    &&& 0 <= m.normal_horiz <= NORMAL_LIMIT
    &&& -NORMAL_LIMIT <= m.normal_z <= NORMAL_LIMIT
}

impl Actor {
    /// The actor's machine-limit sanity against a world: position and
    /// velocity in range, zone id resolvable.
    pub open spec fn wf(self, w: World) -> bool {
        &&& self.pos.in_bounds()
        &&& -SPEED_LIMIT <= self.vel_x <= SPEED_LIMIT
        &&& -SPEED_LIMIT <= self.vel_y <= SPEED_LIMIT
        &&& (self.zone_id as int) < w.zones@.len()
        &&& 0 <= self.scale <= COORD_LIMIT
    }

    /// Records a movement intent.  Most-recent-wins: the new intent
    /// replaces whatever was pending; nothing is queued.
    pub fn receive_input(&mut self, d: Direction)
        ensures
            *final(self) == (Actor { intent: Some(d), ..*old(self) }),
    {
        self.intent = Some(d);
    }
}

/// The velocity a directional intent asks for.
pub open spec fn spec_intent_velocity(d: Direction) -> (i64, i64) {
    match d {
        Direction::Left => (((-PLAYER_MOVE_SPEED) as i64), 0i64),
        Direction::Right => (PLAYER_MOVE_SPEED, 0i64),
        Direction::Up => (0i64, PLAYER_MOVE_SPEED),
        Direction::Down => (0i64, ((-PLAYER_MOVE_SPEED) as i64)),
    }
}

/// Step one of a tick: the pending intent, if any, becomes the actor's
/// velocity and is consumed.
pub open spec fn spec_applied(a: Actor) -> Actor {
    match a.intent {
        Some(d) => Actor {
            vel_x: spec_intent_velocity(d).0,
            vel_y: spec_intent_velocity(d).1,
            intent: None,
            ..a
        },
        None => Actor { intent: None, ..a },
    }
}

/// The zone an actor is resident in.
pub open spec fn actor_zone(a: Actor, w: World) -> Zone {
    w.zones@[a.zone_id as int]
}

/// The actor's position in its zone's local frame.
pub open spec fn actor_local_x(a: Actor, w: World) -> int {
    a.pos.x - actor_zone(a, w).origin_x
}

pub open spec fn actor_local_y(a: Actor, w: World) -> int {
    a.pos.y - actor_zone(a, w).origin_y
}

/// Whether the actor stands inside some portal volume of its zone.
pub open spec fn spec_in_portal(a: Actor, w: World) -> bool {
    in_some_portal(actor_zone(a, w), actor_local_x(a, w), actor_local_y(a, w))
}

/// Whether this tick teleports the actor: inside a portal volume with the
/// edge trigger still clear.
pub open spec fn spec_teleports(a: Actor, w: World) -> bool {
    spec_in_portal(a, w) && !a.was_in_portal
}

/// A coordinate clamped into the world's coordinate range.
pub open spec fn clamp_coord(v: int) -> int {
    if v < -COORD_LIMIT {
        -COORD_LIMIT as int
    } else if v > COORD_LIMIT {
        COORD_LIMIT as int
    } else {
        v
    }
}

/// Center of a rectangle along x, rounded down.
pub open spec fn rect_center_x(b: Rect) -> int {
    b.x1 + (b.x2 - b.x1) / 2
}

pub open spec fn rect_center_y(b: Rect) -> int {
    b.y1 + (b.y2 - b.y1) / 2
}

/// The index `j` names the first portal of the zone containing the local
/// point.
pub open spec fn is_first_containing(z: Zone, j: int, x: int, y: int) -> bool {
    &&& 0 <= j < z.portals@.len()
    &&& z.portals@[j].bounds.spec_contains(x, y)
    &&& forall|k: int| 0 <= k < j ==> !(#[trigger] z.portals@[k]).bounds.spec_contains(x, y)
}

/// The actor after a teleport through portal `p` of its zone to the
/// counterpart portal `q` in the destination zone: placed at `q`'s
/// center, velocity zeroed, zone switched, edge trigger armed.
pub open spec fn teleported_actor(a: Actor, w: World, p: PortalInfo, q: PortalInfo) -> Actor {
    let dest = w.zones@[p.destination as int];
    Actor {
        pos: Position {
            x: clamp_coord(dest.origin_x + rect_center_x(q.bounds)) as i64,
            y: clamp_coord(dest.origin_y + rect_center_y(q.bounds)) as i64,
            z: a.pos.z,
        },
        vel_x: 0,
        vel_y: 0,
        zone_id: p.destination,
        was_in_portal: true,
        intent: None,
        ..a
    }
}

/// The vertical correction a single resolved contact asks for.  A
/// near-vertical normal (a floor or ceiling) pops the actor out by the
/// raw penetration; a slanted one is treated as a step or slope, scaling
/// the penetration by the tangent of the normal's angle to the up axis,
/// with the raw penetration kept as fallback where the tangent would be
/// unstable.  A normal pressing down from above pushes the actor down.
pub open spec fn manifold_correction(m: ContactManifold) -> int {
    let az = vstd::math::abs(m.normal_z as int) as int;
    let mag = if m.normal_horiz > az && m.normal_z != 0 {
        m.penetration * m.normal_horiz / az
    } else {
        m.penetration as int
    };
    if m.normal_z < 0 {
        -mag
    } else {
        mag
    }
}

/// Sum of the corrections of the resolved manifolds.
pub open spec fn resolved_correction_sum(ms: Seq<ContactManifold>) -> int
    decreases ms.len(),
{
    if ms.len() == 0 {
        0
    } else {
        resolved_correction_sum(ms.drop_last()) + if ms.last().resolved {
            manifold_correction(ms.last())
        } else {
            0
        }
    }
}

/// How many manifolds were resolved.
pub open spec fn resolved_count(ms: Seq<ContactManifold>) -> int
    decreases ms.len(),
{
    if ms.len() == 0 {
        0
    } else {
        resolved_count(ms.drop_last()) + if ms.last().resolved {
            1int
        } else {
            0int
        }
    }
}

/// Integer division rounding toward zero.
pub open spec fn div_toward_zero(a: int, b: int) -> int {
    if a >= 0 {
        a / b
    } else {
        -((-a) / b)
    }
}

/// The vertical correction of the whole contact set: the average of the
/// resolved corrections, so disagreeing simultaneous contacts do not
/// overshoot; zero when nothing resolved.
pub open spec fn average_correction(ms: Seq<ContactManifold>) -> int {
    if resolved_count(ms) == 0 {
        0
    } else {
        div_toward_zero(resolved_correction_sum(ms), resolved_count(ms))
    }
}

/// The actor after the ground, penetration and commit steps of a tick
/// that did not teleport: position moved by the velocity plus the
/// vertical step (free fall while airborne, the averaged correction when
/// grounded), every coordinate clamped into world range, the grounded
/// flag refreshed and the portal edge trigger tracking whether the actor
/// still stands inside a portal volume.
pub open spec fn moved_actor(a: Actor, w: World, grounded_hit: bool, ms: Seq<ContactManifold>) -> Actor {
    let dz = if grounded_hit {
        average_correction(ms)
    } else {
        -GRAVITY_STEP as int
    };
    Actor {
        pos: Position {
            x: clamp_coord(a.pos.x + a.vel_x) as i64,
            y: clamp_coord(a.pos.y + a.vel_y) as i64,
            z: clamp_coord(a.pos.z + dz) as i64,
        },
        grounded: grounded_hit,
        was_in_portal: spec_in_portal(a, w),
        intent: None,
        ..a
    }
}

/// The outcome of a teleport through the zone's portal `j` to the
/// counterpart portal `k` of the destination zone: `j` is the first
/// portal volume containing the actor, `k` carries the matching link (on
/// a valid graph there is exactly one), and state and notification are
/// the teleport's.
pub open spec fn teleport_outcome(
    pre: Actor,
    w: World,
    j: int,
    k: int,
    post: Actor,
    note: Option<ChangeLevel>,
) -> bool {
    let z = actor_zone(pre, w);
    let p = z.portals@[j];
    let dest = w.zones@[p.destination as int];
    &&& is_first_containing(z, j, actor_local_x(pre, w), actor_local_y(pre, w))
    &&& 0 <= k < dest.portals@.len()
    &&& dest.portals@[k].link == p.link
    &&& post == teleported_actor(spec_applied(pre), w, p, dest.portals@[k])
    &&& note == Some(ChangeLevel { zone_id: p.destination })
}

/// Everything one tick decides for one actor, as a relation between the
/// state before, the collision findings, and the state and notification
/// after.  [`tick_actor`] realizes exactly this relation.
pub open spec fn tick_rel(
    pre: Actor,
    w: World,
    grounded_hit: bool,
    ms: Seq<ContactManifold>,
    post: Actor,
    note: Option<ChangeLevel>,
) -> bool {
    if spec_teleports(pre, w) {
        exists|j: int, k: int| teleport_outcome(pre, w, j, k, post, note)
    } else {
        post == moved_actor(spec_applied(pre), w, grounded_hit, ms) && note is None
    }
}

/// The velocity a directional intent asks for, as a value.
pub fn intent_velocity(d: Direction) -> (v: (i64, i64))
    ensures
        v == spec_intent_velocity(d),
{
    match d {
        Direction::Left => (-PLAYER_MOVE_SPEED, 0),
        Direction::Right => (PLAYER_MOVE_SPEED, 0),
        Direction::Up => (0, PLAYER_MOVE_SPEED),
        Direction::Down => (0, -PLAYER_MOVE_SPEED),
    }
}

/// Clamps the sum of two coordinates into the world's coordinate range.
fn clamp_add(a: i64, b: i64) -> (r: i64)
    requires
        -2 * COORD_LIMIT <= a + b <= 2 * COORD_LIMIT,
    ensures
        r as int == clamp_coord(a + b),
{
    let s = a + b;
    if s < -COORD_LIMIT {
        -COORD_LIMIT
    } else if s > COORD_LIMIT {
        COORD_LIMIT
    } else {
        s
    }
}

/// The correction a single manifold asks for.
fn correction_of(m: &ContactManifold) -> (c: i64)
    requires
        wf_manifold(*m),
    ensures
        c as int == manifold_correction(*m),
        -CORRECTION_LIMIT <= c <= CORRECTION_LIMIT,
{
    let az = if m.normal_z < 0 {
        -m.normal_z
    } else {
        m.normal_z
    };
    let mag = if m.normal_horiz > az && m.normal_z != 0 {
        proof {
            assert(0 <= m.penetration * m.normal_horiz <= CORRECTION_LIMIT) by (nonlinear_arith)
                requires
                    0 <= m.penetration <= SPEED_LIMIT,
                    0 <= m.normal_horiz <= NORMAL_LIMIT,
            ;
            vstd::arithmetic::div_mod::lemma_div_nonincreasing(
                m.penetration * m.normal_horiz,
                az as int,
            );
            vstd::arithmetic::div_mod::lemma_div_pos_is_pos(
                m.penetration * m.normal_horiz,
                az as int,
            );
        }
        (m.penetration * m.normal_horiz) / az
    } else {
        m.penetration
    };
    if m.normal_z < 0 {
        -mag
    } else {
        mag
    }
}

/// Averages the corrections of the resolved manifolds.
pub fn resolve_penetration(manifolds: &Vec<ContactManifold>) -> (dz: i64)
    requires
        forall|i: int| 0 <= i < manifolds@.len() ==> wf_manifold(#[trigger] manifolds@[i]),
    ensures
        dz as int == average_correction(manifolds@),
        -CORRECTION_LIMIT <= dz <= CORRECTION_LIMIT,
{
    let n = manifolds.len();
    let mut total: i128 = 0;
    let mut cnt: usize = 0;
    let mut i: usize = 0;
    while i < n
        invariant
            i <= n,
            n == manifolds@.len(),
            forall|k: int| 0 <= k < n ==> wf_manifold(#[trigger] manifolds@[k]),
            total as int == resolved_correction_sum(manifolds@.take(i as int)),
            cnt as int == resolved_count(manifolds@.take(i as int)),
            cnt <= i,
            -(cnt as int) * (CORRECTION_LIMIT as int) <= total as int <= (cnt as int) * (
            CORRECTION_LIMIT as int),
        decreases n - i,
    {
        let m = &manifolds[i];
        proof {
            assert(manifolds@.take(i as int + 1).drop_last() =~= manifolds@.take(i as int));
            assert(manifolds@.take(i as int + 1).last() == manifolds@[i as int]);
        }
        if m.resolved {
            let c = correction_of(m);
            total = total + c as i128;
            cnt = cnt + 1;
        }
        i += 1;
    }
    proof {
        assert(manifolds@.take(n as int) =~= manifolds@);
    }
    if cnt == 0 {
        0
    } else {
        let cn = cnt as i128;
        let q: i128 = if total >= 0 {
            total / cn
        } else {
            -((-total) / cn)
        };
        proof {
            let s = total as int;
            let c = cnt as int;
            let lim = CORRECTION_LIMIT as int;
            if s >= 0 {
                vstd::arithmetic::div_mod::lemma_div_is_ordered(s, c * lim, c);
                vstd::arithmetic::div_mod::lemma_div_multiples_vanish(lim, c);
                assert(s / c <= lim);
                vstd::arithmetic::div_mod::lemma_div_pos_is_pos(s, c);
            } else {
                vstd::arithmetic::div_mod::lemma_div_is_ordered(-s, c * lim, c);
                vstd::arithmetic::div_mod::lemma_div_multiples_vanish(lim, c);
                assert((-s) / c <= lim);
                vstd::arithmetic::div_mod::lemma_div_pos_is_pos(-s, c);
            }
        }
        q as i64
    }
}

/// One tick of one actor: intent application, edge-triggered portal
/// check, ground probe, penetration resolution, commit.  Returns the
/// zone-change notification to forward to the actor's peer when a portal
/// fired.  The outcome is exactly [`tick_rel`].
#[verifier::rlimit(60)]
pub fn tick_actor(
    actor: &mut Actor,
    world: &World,
    grounded_hit: bool,
    manifolds: &Vec<ContactManifold>,
) -> (r: Option<ChangeLevel>)
    requires
        world.wf(),
        old(actor).wf(*world),
        forall|i: int| 0 <= i < manifolds@.len() ==> wf_manifold(#[trigger] manifolds@[i]),
    ensures
        tick_rel(*old(actor), *world, grounded_hit, manifolds@, *final(actor), r),
        final(actor).wf(*world),
        final(actor).id == old(actor).id,
{
    // Step 1: the newest intent becomes the velocity and is consumed.
    match actor.intent {
        Some(d) => {
            let v = intent_velocity(d);
            actor.vel_x = v.0;
            actor.vel_y = v.1;
        },
        None => {},
    }
    actor.intent = None;
    assert(*actor == spec_applied(*old(actor)));
    // Step 2: edge-triggered portal check on the pre-move position.
    let zid = actor.zone_id as usize;
    let zone = &world.zones[zid];
    let lx = actor.pos.x - zone.origin_x;
    let ly = actor.pos.y - zone.origin_y;
    assert(lx as int == actor_local_x(*old(actor), *world));
    assert(ly as int == actor_local_y(*old(actor), *world));
    match find_portal(zone, lx, ly) {
        Some(j) => {
            proof {
                assert(spec_in_portal(*old(actor), *world));
            }
            if !actor.was_in_portal {
                let p = zone.portals[j];
                proof {
                    assert(zone_links_ok(world.zones@, zid as int));
                    assert(has_link(
                        world.zones@[p.destination as int].portals@,
                        p.link,
                    ));
                }
                let dest = &world.zones[p.destination as usize];
                match find_counterpart(&dest.portals, p.link) {
                    Some(k) => {
                        let q = dest.portals[k];
                        proof {
                            assert(dest.geom_ok());
                            assert(q.bounds.wf());
                            vstd::arithmetic::div_mod::lemma_div_pos_is_pos(
                                q.bounds.x2 - q.bounds.x1,
                                2,
                            );
                            vstd::arithmetic::div_mod::lemma_div_nonincreasing(
                                q.bounds.x2 - q.bounds.x1,
                                2,
                            );
                            vstd::arithmetic::div_mod::lemma_div_pos_is_pos(
                                q.bounds.y2 - q.bounds.y1,
                                2,
                            );
                            vstd::arithmetic::div_mod::lemma_div_nonincreasing(
                                q.bounds.y2 - q.bounds.y1,
                                2,
                            );
                        }
                        let cx = q.bounds.x1 + (q.bounds.x2 - q.bounds.x1) / 2;
                        let cy = q.bounds.y1 + (q.bounds.y2 - q.bounds.y1) / 2;
                        assert(cx as int == rect_center_x(q.bounds));
                        assert(cy as int == rect_center_y(q.bounds));
                        actor.pos = Position {
                            x: clamp_add(dest.origin_x, cx),
                            y: clamp_add(dest.origin_y, cy),
                            z: actor.pos.z,
                        };
                        actor.vel_x = 0;
                        actor.vel_y = 0;
                        actor.zone_id = p.destination;
                        actor.was_in_portal = true;
                        proof {
                            let pre = *old(actor);
                            assert(*actor == teleported_actor(
                                spec_applied(pre),
                                *world,
                                p,
                                world.zones@[p.destination as int].portals@[k as int],
                            ));
                            assert(teleport_outcome(
                                pre,
                                *world,
                                j as int,
                                k as int,
                                *actor,
                                Some(ChangeLevel { zone_id: p.destination }),
                            ));
                        }
                        return Some(ChangeLevel { zone_id: p.destination });
                    },
                    None => {
                        // The graph is valid: the counterpart exists.
                        proof {
                            assert(false);
                        }
                        return None;
                    },
                }
            }
            // Already inside: the trigger stays armed, no teleport.
        },
        None => {
            actor.was_in_portal = false;
        },
    }
    assert(actor.was_in_portal == spec_in_portal(*old(actor), *world));
    // Steps 3 and 4: ground probe, then free fall or averaged correction.
    let dz: i64 = if grounded_hit {
        resolve_penetration(manifolds)
    } else {
        -GRAVITY_STEP
    };
    actor.grounded = grounded_hit;
    // Step 5: commit, clamped into world range.
    actor.pos = Position {
        x: clamp_add(actor.pos.x, actor.vel_x),
        y: clamp_add(actor.pos.y, actor.vel_y),
        z: clamp_add_wide(actor.pos.z, dz),
    };
    assert(*actor == moved_actor(
        spec_applied(*old(actor)),
        *world,
        grounded_hit,
        manifolds@,
    ));
    None
}

/// The actor a fresh peer gets: at rest at its zone's spawn anchor, in
/// world space, with every flag clear.
pub open spec fn spec_spawn_actor(id: u32, zone_id: u32, w: World, scale: i64) -> Actor {
    let z = w.zones@[zone_id as int];
    Actor {
        id,
        pos: Position {
            x: clamp_coord(z.origin_x + z.player_spawn.x) as i64,
            y: clamp_coord(z.origin_y + z.player_spawn.y) as i64,
            z: z.player_spawn.z,
        },
        vel_x: 0,
        vel_y: 0,
        grounded: false,
        zone_id,
        was_in_portal: false,
        intent: None,
        scale,
    }
}

/// Creates the actor of a freshly connected peer at its zone's spawn
/// anchor.
pub fn spawn_actor(id: u32, zone_id: u32, world: &World, scale: i64) -> (a: Actor)
    requires
        world.wf(),
        (zone_id as int) < world.zones@.len(),
        0 <= scale <= COORD_LIMIT,
    ensures
        a == spec_spawn_actor(id, zone_id, *world, scale),
        a.wf(*world),
{
    let z = &world.zones[zone_id as usize];
    Actor {
        id,
        pos: Position {
            x: clamp_add(z.origin_x, z.player_spawn.x),
            y: clamp_add(z.origin_y, z.player_spawn.y),
            z: z.player_spawn.z,
        },
        vel_x: 0,
        vel_y: 0,
        grounded: false,
        zone_id,
        was_in_portal: false,
        intent: None,
        scale,
    }
}

/// Receiving a whole batch of intents in arrival order: each overwrites
/// the one before.
pub open spec fn spec_receive_all(a: Actor, ds: Seq<Direction>) -> Actor
    decreases ds.len(),
{
    if ds.len() == 0 {
        a
    } else {
        spec_receive_all(Actor { intent: Some(ds.first()), ..a }, ds.drop_first())
    }
}

/// Most-recent-input-wins: of all the intents received before one tick,
/// only the last determines the velocity the tick applies; the ones it
/// superseded leave no trace.
pub proof fn lemma_most_recent_input_wins(a: Actor, ds: Seq<Direction>)
    requires
        ds.len() > 0,
    ensures
        spec_receive_all(a, ds).intent == Some(ds.last()),
        spec_applied(spec_receive_all(a, ds)).vel_x == spec_intent_velocity(ds.last()).0,
        spec_applied(spec_receive_all(a, ds)).vel_y == spec_intent_velocity(ds.last()).1,
    decreases ds.len(),
{
    if ds.len() == 1 {
        assert(spec_receive_all(a, ds) == spec_receive_all(
            Actor { intent: Some(ds.first()), ..a },
            ds.drop_first(),
        ));
    } else {
        lemma_most_recent_input_wins(Actor { intent: Some(ds.first()), ..a }, ds.drop_first());
        assert(ds.drop_first().last() == ds.last());
    }
}

/// Portal edge-triggering: a tick teleports exactly on the edge — inside
/// a portal volume with the trigger still clear.  The teleport arms the
/// trigger, standing inside keeps it armed, and an armed trigger blocks
/// every further teleport; so one pass through a portal fires once, even
/// if the actor then rests inside the destination volume for many ticks.
pub proof fn lemma_portal_edge_trigger(
    a: Actor,
    w: World,
    g: bool,
    ms: Seq<ContactManifold>,
    b: Actor,
    n: Option<ChangeLevel>,
)
    requires
        tick_rel(a, w, g, ms, b, n),
    ensures
        n is Some <==> spec_teleports(a, w),
        a.was_in_portal ==> n is None,
        spec_teleports(a, w) ==> b.was_in_portal,
        !spec_teleports(a, w) ==> b.was_in_portal == spec_in_portal(a, w),
{
    if spec_teleports(a, w) {
        let (j, k) = choose|j: int, k: int| teleport_outcome(a, w, j, k, b, n);
        assert(b.was_in_portal);
    }
}

/// Clamps `a + b` into coordinate range where `b` may be as large as a
/// correction.
fn clamp_add_wide(a: i64, b: i64) -> (r: i64)
    requires
        -COORD_LIMIT <= a <= COORD_LIMIT,
        -CORRECTION_LIMIT <= b <= CORRECTION_LIMIT,
    ensures
        r as int == clamp_coord(a + b),
{
    let s = a as i128 + b as i128;
    if s < -(COORD_LIMIT as i128) {
        -COORD_LIMIT
    } else if s > COORD_LIMIT as i128 {
        COORD_LIMIT
    } else {
        s as i64
    }
}

} // verus!
