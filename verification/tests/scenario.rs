use mangovillage_core::geometry::{Direction, Position, Rect};
use mangovillage_core::protocol::ChangeLevel;
use mangovillage_core::server::{diff_actor_ids, SessionContext, TickProbe};
use mangovillage_core::session::SessionError;
use mangovillage_core::snapshot::broadcast_players;
use mangovillage_core::world::{PortalInfo, World, Zone};

fn rect(x1: i64, x2: i64, y1: i64, y2: i64) -> Rect {
    Rect { x1, x2, y1, y2 }
}

/// Zone 0 holds a portal with trigger bounds [10, 20] x [0, 5] leading
/// to zone 1; actors spawn a few steps to its left.
fn two_zone_world() -> World {
    let mut origin = Zone {
        bounds: rect(-10_000, 10_000, -10_000, 10_000),
        neighbors: Vec::new(),
        player_spawn: Position::new(-1990, 2, 15),
        portals: vec![PortalInfo { bounds: rect(10, 20, 0, 5), destination: 1, link: 7 }],
        origin_x: 0,
        origin_y: 0,
    };
    origin.neighbors.push((Direction::Right, 1));
    let dest = Zone {
        bounds: rect(50_000, 60_000, 0, 10_000),
        neighbors: Vec::new(),
        player_spawn: Position::new(0, 0, 15),
        portals: vec![PortalInfo { bounds: rect(100, 120, 40, 60), destination: 0, link: 7 }],
        origin_x: 50_000,
        origin_y: 0,
    };
    World::build(vec![origin, dest]).expect("valid world")
}

fn calm_probes(n: usize) -> Vec<TickProbe> {
    let mut probes = Vec::new();
    for _ in 0..n {
        probes.push(TickProbe { grounded: true, manifolds: Vec::new() });
    }
    probes
}

#[test]
fn two_peers_one_portal_crossing() {
    let world = two_zone_world();
    let mut ctx = SessionContext::new();
    let (id1, ack1) = ctx.handle_connect(0, &world, 0, 50);
    let (id2, ack2) = ctx.handle_connect(0, &world, 0, 50);
    assert_eq!((id1, id2), (1, 2));
    assert_eq!(ack1.id, 1);
    assert_eq!(ack2.id, 2);

    // Peer 1 keeps walking right; peer 2 stands still.
    let mut zone_changes: Vec<ChangeLevel> = Vec::new();
    for _ in 0..8 {
        assert_eq!(ctx.handle_move(1, Direction::Right), Ok(()));
        let probes = calm_probes(ctx.actors.len());
        let notes = ctx.tick_all(&world, &probes);
        for note in notes.into_iter().flatten() {
            zone_changes.push(note);
        }
    }

    // Exactly one zone change, into zone 1.
    assert_eq!(zone_changes, vec![ChangeLevel { zone_id: 1 }]);
    assert_eq!(ctx.actors[0].zone_id, 1);
    assert_eq!(ctx.actors[1].zone_id, 0);

    // The per-peer snapshots respect zone isolation: peer 1 sees itself
    // in the destination zone, peer 2 no longer lists peer 1.
    let plan = broadcast_players(&ctx.actors, &world);
    assert_eq!(plan.len(), 2);
    let (peer, snap_one) = &plan[0];
    assert_eq!(*peer, 1);
    let ids: Vec<u32> = snap_one.players.iter().map(|p| p.id).collect();
    assert_eq!(ids, vec![1]);
    let (peer, snap_two) = &plan[1];
    assert_eq!(*peer, 2);
    let ids: Vec<u32> = snap_two.players.iter().map(|p| p.id).collect();
    assert_eq!(ids, vec![2]);
}

#[test]
fn snapshots_use_zone_local_coordinates() {
    let world = two_zone_world();
    let mut ctx = SessionContext::new();
    ctx.handle_connect(0, &world, 1, 50);
    let plan = broadcast_players(&ctx.actors, &world);
    // Zone 1 spawns at world (50000, 0, 15); its origin is 50000, so the
    // snapshot reports local (0, 0, 15).
    assert_eq!(plan[0].1.players[0].local_pos, Position::new(0, 0, 15));
    assert_eq!(plan[0].1.players[0].scale, 50);
}

#[test]
fn disconnect_removes_peer_and_actor() {
    let world = two_zone_world();
    let mut ctx = SessionContext::new();
    let (id1, _) = ctx.handle_connect(0, &world, 0, 50);
    let (id2, _) = ctx.handle_connect(0, &world, 0, 50);
    assert_eq!(ctx.handle_disconnect(id1), Ok(()));
    assert!(!ctx.peers.has_peer(id1));
    assert_eq!(ctx.actors.len(), 1);
    assert_eq!(ctx.actors[0].id, id2);
    // The vanished peer is treated as absent from now on.
    assert_eq!(ctx.handle_disconnect(id1), Err(SessionError::UnknownPeer));
    assert_eq!(ctx.handle_move(id1, Direction::Up), Err(SessionError::UnknownPeer));
}

#[test]
fn keep_alive_and_timeout_sweep() {
    let world = two_zone_world();
    let mut ctx = SessionContext::new();
    let (id1, _) = ctx.handle_connect(0, &world, 0, 50);
    let (id2, _) = ctx.handle_connect(0, &world, 0, 50);
    assert_eq!(ctx.handle_keep_alive(id1, 55_000), Ok(()));
    let expired = ctx.peers.timed_out(60_000, 60_000);
    assert_eq!(expired, vec![id2]);
    for id in expired {
        assert_eq!(ctx.handle_disconnect(id), Ok(()));
    }
    assert_eq!(ctx.actors.len(), 1);
    assert_eq!(ctx.actors[0].id, id1);
}

#[test]
fn actor_table_diff_against_connections() {
    let world = two_zone_world();
    let mut ctx = SessionContext::new();
    ctx.handle_connect(0, &world, 0, 50);
    ctx.handle_connect(0, &world, 0, 50);
    // The transport now reports peers 1 and 3: 3 lacks an actor, 2 lost
    // its connection.
    let connected = vec![1u32, 3u32];
    let (missing, stale) = diff_actor_ids(&connected, &ctx.actors);
    assert_eq!(missing, vec![3]);
    assert_eq!(stale, vec![2]);
}
