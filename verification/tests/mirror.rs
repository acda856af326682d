use mangovillage_core::geometry::Position;
use mangovillage_core::mirror::Mirror;
use mangovillage_core::protocol::{PlayerInfo, UpdatePlayerPositions};

fn entry(id: u32, x: i64, y: i64, z: i64, scale: i64) -> PlayerInfo {
    PlayerInfo { id, local_pos: Position::new(x, y, z), scale }
}

fn snap(players: Vec<PlayerInfo>) -> UpdatePlayerPositions {
    UpdatePlayerPositions { players }
}

/// What a mirror shows on screen, handles aside.
fn shown(m: &Mirror) -> Vec<(u32, Position, i64, bool)> {
    m.entries.iter().map(|e| (e.id, e.pos, e.scale, e.is_self)).collect()
}

#[test]
fn snapshot_spawns_updates_and_drops() {
    let mut m = Mirror::new(2);
    m.apply_snapshot(&snap(vec![entry(1, 10, 0, 0, 5), entry(2, 20, 0, 0, 5)]));
    assert_eq!(m.entries.len(), 2);
    let handle_of_2 = m.entries[1].handle;
    assert!(m.entries[1].is_self);
    assert!(!m.entries[0].is_self);

    // 1 departs, 2 moves, 3 appears.
    m.apply_snapshot(&snap(vec![entry(2, 25, 1, 0, 5), entry(3, 30, 0, 0, 5)]));
    assert_eq!(m.entries.len(), 2);
    assert_eq!(m.entries[0].id, 2);
    assert_eq!(m.entries[0].pos, Position::new(25, 1, 0));
    // The surviving entry keeps its visual handle.
    assert_eq!(m.entries[0].handle, handle_of_2);
    assert_eq!(m.entries[1].id, 3);
    // The newcomer gets a handle never used before.
    assert_ne!(m.entries[1].handle, m.entries[0].handle);
}

#[test]
fn empty_snapshot_clears_the_mirror() {
    let mut m = Mirror::new(1);
    m.apply_snapshot(&snap(vec![entry(1, 0, 0, 0, 5), entry(2, 0, 0, 0, 5)]));
    m.apply_snapshot(&snap(Vec::new()));
    assert!(m.entries.is_empty());
}

#[test]
fn reconciliation_is_idempotent() {
    let mut m = Mirror::new(2);
    m.apply_snapshot(&snap(vec![entry(1, 10, 0, 0, 5)]));
    let s = snap(vec![entry(1, 11, 2, 3, 5), entry(2, 40, 0, 0, 6), entry(7, 8, 9, 10, 11)]);
    m.apply_snapshot(&s);
    let once_entries = m.entries.clone();
    let once_handle = m.next_handle;
    m.apply_snapshot(&s);
    assert_eq!(m.entries, once_entries);
    assert_eq!(m.next_handle, once_handle);
}

#[test]
fn one_lost_snapshot_heals_on_the_next() {
    let s1 = snap(vec![entry(1, 10, 0, 0, 5), entry(2, 20, 0, 0, 5)]);
    let s2 = snap(vec![entry(2, 21, 0, 0, 5), entry(3, 30, 0, 0, 5)]);

    // One client receives both snapshots, the other misses the first.
    let mut lossless = Mirror::new(2);
    lossless.apply_snapshot(&s1);
    lossless.apply_snapshot(&s2);
    let mut lossy = Mirror::new(2);
    lossy.apply_snapshot(&s2);

    assert_eq!(shown(&lossless), shown(&lossy));
}

#[test]
fn only_the_newest_snapshot_of_a_batch_applies() {
    let mut batched = Mirror::new(9);
    let batch = vec![
        snap(vec![entry(1, 10, 0, 0, 5)]),
        snap(vec![entry(2, 20, 0, 0, 5)]),
        snap(vec![entry(3, 30, 0, 0, 5)]),
    ];
    batched.update_players(&batch);

    let mut direct = Mirror::new(9);
    direct.apply_snapshot(&snap(vec![entry(3, 30, 0, 0, 5)]));
    assert_eq!(batched.entries, direct.entries);
    assert_eq!(batched.next_handle, direct.next_handle);

    // An empty batch changes nothing.
    let before = batched.entries.clone();
    batched.update_players(&Vec::new());
    assert_eq!(batched.entries, before);
}

#[test]
fn duplicate_ids_in_a_snapshot_keep_first_entry() {
    let mut m = Mirror::new(9);
    m.apply_snapshot(&snap(vec![entry(1, 10, 0, 0, 5), entry(1, 99, 0, 0, 5)]));
    assert_eq!(m.entries.len(), 1);
    assert_eq!(m.entries[0].pos, Position::new(10, 0, 0));
}
