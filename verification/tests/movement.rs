use mangovillage_core::geometry::{Direction, Position, Rect};
use mangovillage_core::movement::{
    resolve_penetration, spawn_actor, tick_actor, Actor, ContactManifold, GRAVITY_STEP,
    PLAYER_MOVE_SPEED,
};
use mangovillage_core::protocol::ChangeLevel;
use mangovillage_core::world::{PortalInfo, World, Zone};

fn rect(x1: i64, x2: i64, y1: i64, y2: i64) -> Rect {
    Rect { x1, x2, y1, y2 }
}

fn zone_at(origin_x: i64, origin_y: i64, spawn: Position) -> Zone {
    Zone {
        bounds: rect(origin_x, origin_x + 10_000, origin_y, origin_y + 10_000),
        neighbors: Vec::new(),
        player_spawn: spawn,
        portals: Vec::new(),
        origin_x,
        origin_y,
    }
}

/// Two zones: zone 0 has a portal at local [10, 20] x [0, 5] leading to
/// zone 1, whose counterpart sits at local [100, 120] x [40, 60].
fn portal_world() -> World {
    let mut a = zone_at(0, 0, Position::new(0, 2, 15));
    a.portals.push(PortalInfo { bounds: rect(10, 20, 0, 5), destination: 1, link: 7 });
    let mut b = zone_at(50_000, 0, Position::new(0, 0, 15));
    b.portals.push(PortalInfo { bounds: rect(100, 120, 40, 60), destination: 0, link: 7 });
    World::build(vec![a, b]).expect("valid world")
}

fn grounded_no_contacts() -> (bool, Vec<ContactManifold>) {
    (true, Vec::new())
}

#[test]
fn most_recent_input_wins() {
    let world = portal_world();
    let mut actor = spawn_actor(1, 0, &world, 50);
    // Three inputs arrive before the tick; only the last may count.
    actor.receive_input(Direction::Left);
    actor.receive_input(Direction::Right);
    actor.receive_input(Direction::Up);
    let (grounded, manifolds) = grounded_no_contacts();
    let before = actor.pos;
    let note = tick_actor(&mut actor, &world, grounded, &manifolds);
    assert!(note.is_none());
    assert_eq!(actor.vel_x, 0);
    assert_eq!(actor.vel_y, PLAYER_MOVE_SPEED);
    assert_eq!(actor.pos.x, before.x);
    assert_eq!(actor.pos.y, before.y + PLAYER_MOVE_SPEED);
}

#[test]
fn velocity_persists_without_new_input() {
    let world = portal_world();
    let mut actor = spawn_actor(1, 0, &world, 50);
    actor.receive_input(Direction::Down);
    let (grounded, manifolds) = grounded_no_contacts();
    tick_actor(&mut actor, &world, grounded, &manifolds);
    let y_after_one = actor.pos.y;
    // No new input: the velocity carries over to the next tick.
    tick_actor(&mut actor, &world, grounded, &manifolds);
    assert_eq!(actor.pos.y, y_after_one - PLAYER_MOVE_SPEED);
}

#[test]
fn free_fall_while_airborne() {
    let world = portal_world();
    let mut actor = spawn_actor(1, 0, &world, 50);
    let z = actor.pos.z;
    let manifolds = Vec::new();
    tick_actor(&mut actor, &world, false, &manifolds);
    assert!(!actor.grounded);
    assert_eq!(actor.pos.z, z - GRAVITY_STEP);
    tick_actor(&mut actor, &world, true, &manifolds);
    assert!(actor.grounded);
    assert_eq!(actor.pos.z, z - GRAVITY_STEP);
}

#[test]
fn portal_teleports_exactly_once_while_standing_inside() {
    let world = portal_world();
    let mut actor = spawn_actor(1, 0, &world, 50);
    // Start outside the trigger volume, level with its y-range.
    actor.pos = Position::new(5, 2, 15);
    actor.was_in_portal = false;
    let manifolds = Vec::new();
    let first = tick_actor(&mut actor, &world, true, &manifolds);
    assert!(first.is_none());
    // Put the actor inside the trigger volume with the flag clear.
    actor.pos = Position::new(12, 2, 15);
    actor.vel_x = 0;
    actor.vel_y = 0;
    let second = tick_actor(&mut actor, &world, true, &manifolds);
    assert_eq!(second, Some(ChangeLevel { zone_id: 1 }));
    assert_eq!(actor.zone_id, 1);
    assert!(actor.was_in_portal);
    assert_eq!(actor.vel_x, 0);
    assert_eq!(actor.vel_y, 0);
    // Destination portal center: zone 1 origin (50000, 0) + local (110, 50).
    assert_eq!(actor.pos.x, 50_110);
    assert_eq!(actor.pos.y, 50);
    // The actor now rests inside the destination trigger volume.  More
    // ticks must not teleport again.
    for _ in 0..3 {
        let note = tick_actor(&mut actor, &world, true, &manifolds);
        assert!(note.is_none());
        assert_eq!(actor.zone_id, 1);
        assert!(actor.was_in_portal);
    }
}

#[test]
fn portal_flag_clears_outside_and_rearms() {
    let world = portal_world();
    let mut actor = spawn_actor(1, 0, &world, 50);
    actor.pos = Position::new(12, 2, 15);
    actor.was_in_portal = true;
    let manifolds = Vec::new();
    // Inside with the flag set: no teleport, flag stays.
    assert!(tick_actor(&mut actor, &world, true, &manifolds).is_none());
    assert!(actor.was_in_portal);
    // Step outside: the flag clears.
    actor.pos = Position::new(500, 500, 15);
    assert!(tick_actor(&mut actor, &world, true, &manifolds).is_none());
    assert!(!actor.was_in_portal);
    // Back inside with a clear flag: the portal fires again.
    actor.pos = Position::new(12, 2, 15);
    actor.vel_x = 0;
    actor.vel_y = 0;
    assert_eq!(tick_actor(&mut actor, &world, true, &manifolds), Some(ChangeLevel { zone_id: 1 }));
}

fn manifold(resolved: bool, penetration: i64, horiz: i64, z: i64) -> ContactManifold {
    ContactManifold { resolved, penetration, normal_horiz: horiz, normal_z: z }
}

#[test]
fn penetration_near_vertical_pops_raw_depth() {
    // Normal straight up: the correction is the raw penetration.
    let ms = vec![manifold(true, 100, 0, 1)];
    assert_eq!(resolve_penetration(&ms), 100);
}

#[test]
fn penetration_slope_scales_by_tangent() {
    // Normal leaning 2:1 toward horizontal: tangent scaling doubles the
    // penetration.
    let ms = vec![manifold(true, 100, 2, 1)];
    assert_eq!(resolve_penetration(&ms), 200);
}

#[test]
fn penetration_from_above_pushes_down() {
    let ms = vec![manifold(true, 100, 0, -1)];
    assert_eq!(resolve_penetration(&ms), -100);
}

#[test]
fn penetration_averages_disagreeing_contacts() {
    // 200 and 100 average to 150; the unresolved contact is ignored.
    let ms = vec![
        manifold(true, 100, 2, 1),
        manifold(true, 100, 0, 1),
        manifold(false, 900, 0, 1),
    ];
    assert_eq!(resolve_penetration(&ms), 150);
}

#[test]
fn penetration_no_contacts_no_correction() {
    let ms: Vec<ContactManifold> = Vec::new();
    assert_eq!(resolve_penetration(&ms), 0);
}

#[test]
fn spawn_places_actor_at_zone_anchor() {
    let world = portal_world();
    let actor = spawn_actor(9, 1, &world, 50);
    assert_eq!(actor.id, 9);
    assert_eq!(actor.zone_id, 1);
    // Zone 1 sits at world x 50000; its anchor is local (0, 0, 15).
    assert_eq!(actor.pos, Position::new(50_000, 0, 15));
    assert!(!actor.grounded);
    assert!(!actor.was_in_portal);
    assert_eq!((actor.vel_x, actor.vel_y), (0, 0));
}
