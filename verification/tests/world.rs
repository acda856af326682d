use mangovillage_core::geometry::{Direction, Position, Rect};
use mangovillage_core::world::{
    find_counterpart, find_neighbor, find_portal, ldtk_to_map_coordinates, portal_from_entity,
    PortalInfo, RawPortalEntity, World, WorldError, Zone,
};

fn rect(x1: i64, x2: i64, y1: i64, y2: i64) -> Rect {
    Rect { x1, x2, y1, y2 }
}

fn plain_zone() -> Zone {
    Zone {
        bounds: rect(0, 1000, 0, 1000),
        neighbors: Vec::new(),
        player_spawn: Position::new(0, 0, 15),
        portals: Vec::new(),
        origin_x: 0,
        origin_y: 0,
    }
}

#[test]
fn grid_padding_conversion_with_padding() {
    // Height 100 with grid 8 pads up to 104: y flips against the padded
    // height.
    let (x, y) = ldtk_to_map_coordinates(8, (7, 10), 100);
    assert_eq!(x, 7);
    assert_eq!(y, 94);
}

#[test]
fn grid_padding_conversion_exact_multiple() {
    // Height 96 is a multiple of 8: no padding, a plain flip.
    let (x, y) = ldtk_to_map_coordinates(8, (3, 96), 96);
    assert_eq!(x, 3);
    assert_eq!(y, 0);
    let (_, top) = ldtk_to_map_coordinates(8, (3, 0), 96);
    assert_eq!(top, 96);
}

#[test]
fn build_accepts_portal_pair() {
    let mut a = plain_zone();
    a.portals.push(PortalInfo { bounds: rect(10, 20, 0, 5), destination: 1, link: 7 });
    let mut b = plain_zone();
    b.origin_x = 5000;
    b.portals.push(PortalInfo { bounds: rect(100, 120, 40, 60), destination: 0, link: 7 });
    let world = World::build(vec![a, b]).expect("valid world");
    assert_eq!(world.zones.len(), 2);
}

#[test]
fn build_rejects_unknown_neighbor() {
    let mut a = plain_zone();
    a.neighbors.push((Direction::Up, 3));
    assert!(matches!(World::build(vec![a]), Err(WorldError::InvalidWorld)));
}

#[test]
fn build_rejects_duplicate_neighbor_direction() {
    let mut a = plain_zone();
    let b = plain_zone();
    a.neighbors.push((Direction::Up, 1));
    a.neighbors.push((Direction::Up, 0));
    assert!(matches!(World::build(vec![a, b]), Err(WorldError::InvalidWorld)));
}

#[test]
fn build_rejects_missing_portal_counterpart() {
    let mut a = plain_zone();
    a.portals.push(PortalInfo { bounds: rect(10, 20, 0, 5), destination: 1, link: 7 });
    let mut b = plain_zone();
    b.portals.push(PortalInfo { bounds: rect(0, 5, 0, 5), destination: 0, link: 8 });
    assert!(matches!(World::build(vec![a, b]), Err(WorldError::InvalidWorld)));
}

#[test]
fn build_rejects_duplicate_portal_link() {
    let mut a = plain_zone();
    a.portals.push(PortalInfo { bounds: rect(10, 20, 0, 5), destination: 0, link: 7 });
    a.portals.push(PortalInfo { bounds: rect(30, 40, 0, 5), destination: 0, link: 7 });
    assert!(matches!(World::build(vec![a]), Err(WorldError::InvalidWorld)));
}

#[test]
fn build_rejects_unknown_portal_destination() {
    let mut a = plain_zone();
    a.portals.push(PortalInfo { bounds: rect(10, 20, 0, 5), destination: 9, link: 7 });
    assert!(matches!(World::build(vec![a]), Err(WorldError::InvalidWorld)));
}

#[test]
fn find_neighbor_by_direction() {
    let mut a = plain_zone();
    a.neighbors.push((Direction::Up, 1));
    a.neighbors.push((Direction::Right, 0));
    let b = plain_zone();
    let world = World::build(vec![a, b]).expect("valid world");
    assert_eq!(find_neighbor(Direction::Up, &world.zones[0]), Some(1));
    assert_eq!(find_neighbor(Direction::Right, &world.zones[0]), Some(0));
    assert_eq!(find_neighbor(Direction::Left, &world.zones[0]), None);
}

#[test]
fn portal_lookup_inside_and_outside() {
    let mut a = plain_zone();
    a.portals.push(PortalInfo { bounds: rect(10, 20, 0, 5), destination: 0, link: 7 });
    assert_eq!(find_portal(&a, 15, 3), Some(0));
    assert_eq!(find_portal(&a, 9, 3), None);
    assert_eq!(find_portal(&a, 15, 6), None);
    // Borders count as inside.
    assert_eq!(find_portal(&a, 10, 0), Some(0));
    assert_eq!(find_portal(&a, 20, 5), Some(0));
}

#[test]
fn portal_entity_converts_and_flips() {
    let e = RawPortalEntity {
        destination: Some(1),
        link: Some(7),
        px: (10, 50),
        width: 10,
        height: 5,
    };
    // Height 100 with grid 8 pads to 104; the raw top edge at 50 lands
    // at 104 - 50 = 54 and the volume extends 5 below it.
    let p = portal_from_entity(&e, 8, 100).expect("portal fields present");
    assert_eq!(p, PortalInfo { bounds: rect(10, 20, 49, 54), destination: 1, link: 7 });
}

#[test]
fn portal_entity_missing_fields_is_invalid() {
    let mut e = RawPortalEntity {
        destination: Some(1),
        link: None,
        px: (10, 50),
        width: 10,
        height: 5,
    };
    assert_eq!(portal_from_entity(&e, 8, 100), None);
    e.link = Some(7);
    e.destination = None;
    assert_eq!(portal_from_entity(&e, 8, 100), None);
}

#[test]
fn counterpart_by_link_id() {
    let portals = vec![
        PortalInfo { bounds: rect(0, 1, 0, 1), destination: 0, link: 3 },
        PortalInfo { bounds: rect(2, 3, 0, 1), destination: 0, link: 9 },
    ];
    assert_eq!(find_counterpart(&portals, 9), Some(1));
    assert_eq!(find_counterpart(&portals, 4), None);
}
