//! The static zone graph: zones, portals, neighbor adjacency, and the
//! load-time validation and coordinate normalization that build it.
//!
//! Zones are kept in an arena and named by their index, so the graph can
//! hold portal cycles without reference cycles.  The graph is validated
//! once, when it is built; everything that runs per tick relies on that
//! validation and never re-checks it.

use vstd::prelude::*;

use crate::geometry::{Direction, Position, Rect, COORD_LIMIT};

verus! {

/// A portal: a trigger volume in zone-local coordinates, the zone it leads
/// to, and the link identifier that pairs it with its counterpart there.
#[derive(Clone, Copy, PartialEq, Eq, Structural, Debug)]
pub struct PortalInfo {
    pub bounds: Rect,
    pub destination: u32,
    pub link: i32,
}

/// One bounded region of the world.  `origin_x`/`origin_y` place the zone's
/// local coordinate frame in world space; bounds are world-space.
#[derive(Debug)]
pub struct Zone {
    pub bounds: Rect,
    pub neighbors: Vec<(Direction, u32)>,
    pub player_spawn: Position,
    pub portals: Vec<PortalInfo>,
    pub origin_x: i64,
    pub origin_y: i64,
}

/// Whether some portal in the sequence carries the given link identifier.
pub open spec fn has_link(portals: Seq<PortalInfo>, link: i32) -> bool {
    exists|j: int| 0 <= j < portals.len() && portals[j].link == link
}

impl Zone {
    /// Geometric sanity: every coordinate the zone carries stays within the
    /// world's coordinate range, so local/world conversions cannot overflow.
    pub open spec fn geom_ok(self) -> bool {
        &&& self.bounds.wf()
        &&& -COORD_LIMIT <= self.origin_x <= COORD_LIMIT
        &&& -COORD_LIMIT <= self.origin_y <= COORD_LIMIT
        &&& self.player_spawn.in_bounds()
        &&& forall|i: int| 0 <= i < self.portals.len() ==> (#[trigger] self.portals[i]).bounds.wf()
    }
}

/// Referential sanity of zone `i` against the whole arena: neighbor
/// directions are unique (hence at most four), every neighbor and portal
/// destination exists, portal links are unique within the zone, and every
/// portal has a counterpart with its link in the destination zone.
pub open spec fn zone_links_ok(zones: Seq<Zone>, i: int) -> bool {
    let z = zones[i];
    &&& forall|a: int, b: int|
        0 <= a < b < z.neighbors.len() ==> (#[trigger] z.neighbors[a]).0 != (
        #[trigger] z.neighbors[b]).0
    &&& forall|a: int|
        0 <= a < z.neighbors.len() ==> (#[trigger] z.neighbors[a]).1 < zones.len()
    &&& forall|a: int|
        0 <= a < z.portals.len() ==> (#[trigger] z.portals[a]).destination < zones.len()
    &&& forall|a: int, b: int|
        0 <= a < b < z.portals.len() ==> (#[trigger] z.portals[a]).link != (
        #[trigger] z.portals[b]).link
    &&& forall|a: int|
        0 <= a < z.portals.len() ==> has_link(
            zones[(#[trigger] z.portals[a]).destination as int].portals@,
            z.portals[a].link,
        )
}

/// A valid zone graph: every zone is geometrically sound and all its
/// references resolve within the arena.
pub open spec fn wf_world(zones: Seq<Zone>) -> bool {
    &&& zones.len() <= u32::MAX
    &&& forall|i: int|
        0 <= i < zones.len() ==> (#[trigger] zones[i]).geom_ok() && zone_links_ok(zones, i)
}

/// The error of the zone-graph builder: the level data is inconsistent and
/// nothing downstream could run on it, so startup must stop.
#[derive(Clone, Copy, PartialEq, Eq, Structural, Debug)]
pub enum WorldError {
    InvalidWorld,
}

/// The immutable zone graph.  Built once by [`World::build`], which admits
/// exactly the well-formed arenas; read-only afterwards.
#[derive(Debug)]
pub struct World {
    pub zones: Vec<Zone>,
}

impl World {
    pub open spec fn wf(self) -> bool {
        wf_world(self.zones@)
    }

    /// Validates a zone arena and turns it into the world's zone graph.
    /// Fails with `InvalidWorld` exactly when the arena breaks one of the
    /// well-formedness rules.
    pub fn build(zones: Vec<Zone>) -> (r: Result<World, WorldError>)
        ensures
            r is Ok <==> wf_world(zones@),
            r matches Ok(w) ==> w.zones@ == zones@,
    {
        let n = zones.len();
        if n > u32::MAX as usize {
            return Err(WorldError::InvalidWorld);
        }
        let mut i: usize = 0;
        while i < n
            invariant
                i <= n,
                n == zones@.len(),
                n <= u32::MAX,
                forall|k: int|
                    0 <= k < i ==> (#[trigger] zones@[k]).geom_ok() && zone_links_ok(zones@, k),
            decreases n - i,
        {
            if !zone_geom_ok(&zones, i) || !zone_refs_ok(&zones, i) {
                return Err(WorldError::InvalidWorld);
            }
            i += 1;
        }
        Ok(World { zones })
    }
}

/// Whether the rectangle's corners are ordered and in range.
fn rect_wf(r: &Rect) -> (ok: bool)
    ensures
        ok == r.wf(),
{
    -COORD_LIMIT <= r.x1 && r.x1 <= r.x2 && r.x2 <= COORD_LIMIT && -COORD_LIMIT <= r.y1 && r.y1
        <= r.y2 && r.y2 <= COORD_LIMIT
}

/// Whether zone `i` of the arena is geometrically sound.
fn zone_geom_ok(zones: &Vec<Zone>, i: usize) -> (ok: bool)
    requires
        i < zones@.len(),
    ensures
        ok == zones@[i as int].geom_ok(),
{
    let z = &zones[i];
    if !(rect_wf(&z.bounds) && -COORD_LIMIT <= z.origin_x && z.origin_x <= COORD_LIMIT
        && -COORD_LIMIT <= z.origin_y && z.origin_y <= COORD_LIMIT && -COORD_LIMIT
        <= z.player_spawn.x && z.player_spawn.x <= COORD_LIMIT && -COORD_LIMIT <= z.player_spawn.y
        && z.player_spawn.y <= COORD_LIMIT && -COORD_LIMIT <= z.player_spawn.z && z.player_spawn.z
        <= COORD_LIMIT) {
        return false;
    }
    let m = z.portals.len();
    let mut j: usize = 0;
    while j < m
        invariant
            j <= m,
            i < zones@.len(),
            m == zones@[i as int].portals@.len(),
            z == &zones@[i as int],
            forall|k: int| 0 <= k < j ==> (#[trigger] z.portals@[k]).bounds.wf(),
        decreases m - j,
    {
        if !rect_wf(&z.portals[j].bounds) {
            return false;
        }
        j += 1;
    }
    true
}

/// Whether every reference of zone `i` resolves: unique neighbor
/// directions, existing neighbor and destination zones, unique portal
/// links, and a counterpart for every portal.
fn zone_refs_ok(zones: &Vec<Zone>, i: usize) -> (ok: bool)
    requires
        i < zones@.len(),
        zones@.len() <= u32::MAX,
    ensures
        ok == zone_links_ok(zones@, i as int),
{
    let z = &zones[i];
    let nn = z.neighbors.len();
    let mut a: usize = 0;
    while a < nn
        invariant
            a <= nn,
            i < zones@.len(),
            zones@.len() <= u32::MAX,
            nn == z.neighbors@.len(),
            z == &zones@[i as int],
            forall|p: int, q: int|
                0 <= p < q < nn && q < a ==> (#[trigger] z.neighbors@[p]).0 != (
                #[trigger] z.neighbors@[q]).0,
            forall|p: int| 0 <= p < a ==> (#[trigger] z.neighbors@[p]).1 < zones@.len(),
        decreases nn - a,
    {
        if z.neighbors[a].1 as usize >= zones.len() {
            return false;
        }
        let mut b: usize = 0;
        while b < a
            invariant
                b <= a < nn,
                i < zones@.len(),
                nn == z.neighbors@.len(),
                z == &zones@[i as int],
                forall|p: int|
                    0 <= p < b ==> (#[trigger] z.neighbors@[p]).0 != z.neighbors@[a as int].0,
            decreases a - b,
        {
            if z.neighbors[b].0 == z.neighbors[a].0 {
                assert(!zone_links_ok(zones@, i as int)) by {
                    let zz = zones@[i as int];
                    assert(zz.neighbors[b as int].0 == zz.neighbors[a as int].0);
                }
                return false;
            }
            b += 1;
        }
        a += 1;
    }
    let np = z.portals.len();
    let mut a: usize = 0;
    while a < np
        invariant
            a <= np,
            i < zones@.len(),
            zones@.len() <= u32::MAX,
            np == z.portals@.len(),
            z == &zones@[i as int],
            forall|p: int, q: int|
                0 <= p < q < np && q < a ==> (#[trigger] z.portals@[p]).link != (
                #[trigger] z.portals@[q]).link,
            forall|p: int| 0 <= p < a ==> (#[trigger] z.portals@[p]).destination < zones@.len(),
            forall|p: int|
                0 <= p < a ==> has_link(
                    zones@[(#[trigger] z.portals@[p]).destination as int].portals@,
                    z.portals@[p].link,
                ),
        decreases np - a,
    {
        let dest = z.portals[a].destination;
        if dest as usize >= zones.len() {
            return false;
        }
        if !portals_have_link(&zones[dest as usize].portals, z.portals[a].link) {
            return false;
        }
        let mut b: usize = 0;
        while b < a
            invariant
                b <= a < np,
                i < zones@.len(),
                np == z.portals@.len(),
                z == &zones@[i as int],
                forall|p: int|
                    0 <= p < b ==> (#[trigger] z.portals@[p]).link != z.portals@[a as int].link,
            decreases a - b,
        {
            if z.portals[b].link == z.portals[a].link {
                assert(!zone_links_ok(zones@, i as int)) by {
                    let zz = zones@[i as int];
                    assert(zz.portals[b as int].link == zz.portals[a as int].link);
                }
                return false;
            }
            b += 1;
        }
        a += 1;
    }
    true
}

/// Whether some portal in the list carries the given link identifier.
fn portals_have_link(portals: &Vec<PortalInfo>, link: i32) -> (r: bool)
    ensures
        r == has_link(portals@, link),
{
    let n = portals.len();
    let mut j: usize = 0;
    while j < n
        invariant
            j <= n,
            n == portals@.len(),
            forall|k: int| 0 <= k < j ==> (#[trigger] portals@[k]).link != link,
        decreases n - j,
    {
        if portals[j].link == link {
            return true;
        }
        j += 1;
    }
    false
}

/// The first portal of the list that carries the given link identifier.
/// On a valid graph the counterpart a portal points at is unique, so
/// "first" is simply "the one".
pub fn find_counterpart(portals: &Vec<PortalInfo>, link: i32) -> (r: Option<usize>)
    ensures
        match r {
            Some(j) => j < portals@.len() && portals@[j as int].link == link,
            None => !has_link(portals@, link),
        },
{
    let n = portals.len();
    let mut j: usize = 0;
    while j < n
        invariant
            j <= n,
            n == portals@.len(),
            forall|k: int| 0 <= k < j ==> (#[trigger] portals@[k]).link != link,
        decreases n - j,
    {
        if portals[j].link == link {
            return Some(j);
        }
        j += 1;
    }
    None
}

/// Whether the zone-local point lies inside some portal of the zone.
pub open spec fn in_some_portal(zone: Zone, x: int, y: int) -> bool {
    exists|j: int| 0 <= j < zone.portals.len() && zone.portals[j].bounds.spec_contains(x, y)
}

/// The first portal of the zone whose trigger volume contains the
/// zone-local point, if any.
pub fn find_portal(zone: &Zone, x: i64, y: i64) -> (r: Option<usize>)
    ensures
        match r {
            Some(j) => j < zone.portals@.len() && zone.portals@[j as int].bounds.spec_contains(
                x as int,
                y as int,
            ) && forall|k: int|
                0 <= k < j ==> !(#[trigger] zone.portals@[k]).bounds.spec_contains(
                    x as int,
                    y as int,
                ),
            None => !in_some_portal(*zone, x as int, y as int),
        },
{
    let n = zone.portals.len();
    let mut j: usize = 0;
    while j < n
        invariant
            j <= n,
            n == zone.portals@.len(),
            forall|k: int|
                0 <= k < j ==> !(#[trigger] zone.portals@[k]).bounds.spec_contains(
                    x as int,
                    y as int,
                ),
        decreases n - j,
    {
        if zone.portals[j].bounds.contains(x, y) {
            return Some(j);
        }
        j += 1;
    }
    None
}

/// The neighbor of the zone in the given direction, if the zone has one.
/// Valid zones list at most one neighbor per direction.
pub fn find_neighbor(dir: Direction, zone: &Zone) -> (r: Option<u32>)
    ensures
        match r {
            Some(id) => exists|j: int|
                0 <= j < zone.neighbors@.len() && zone.neighbors@[j] == (dir, id),
            None => forall|j: int|
                0 <= j < zone.neighbors@.len() ==> (#[trigger] zone.neighbors@[j]).0 != dir,
        },
{
    let n = zone.neighbors.len();
    let mut j: usize = 0;
    while j < n
        invariant
            j <= n,
            n == zone.neighbors@.len(),
            forall|k: int| 0 <= k < j ==> (#[trigger] zone.neighbors@[k]).0 != dir,
        decreases n - j,
    {
        if zone.neighbors[j].0 == dir {
            let id = zone.neighbors[j].1;
            assert(zone.neighbors@[j as int] == (dir, id));
            return Some(id);
        }
        j += 1;
    }
    None
}

/// Converts a raw level coordinate, whose vertical axis grows downward from
/// the top of the level, into a world coordinate whose vertical axis grows
/// upward from the bottom.  When the level's pixel height is not a multiple
/// of the grid cell size, the source format pads the level up to the next
/// multiple, so the flip is taken over the padded height.
pub fn ldtk_to_map_coordinates(grid_size: i64, ldtk_coords: (i64, i64), level_height: i64) -> (r: (
    i64,
    i64,
))
    requires
        1 <= grid_size <= COORD_LIMIT,
        0 <= level_height <= COORD_LIMIT,
        0 <= ldtk_coords.0 <= COORD_LIMIT,
        0 <= ldtk_coords.1 <= COORD_LIMIT,
    ensures
        r.0 == ldtk_coords.0,
        r.1 == level_height + grid_padding(grid_size as int, level_height as int)
            - ldtk_coords.1,
{
    let rem: i64 = level_height % grid_size;
    let padding: i64 = (grid_size - rem) % grid_size;
    (ldtk_coords.0, level_height + padding - ldtk_coords.1)
}

/// The grid-alignment padding of a level: how far `height` falls short of
/// the next multiple of `grid_size` (zero when it is already a multiple).
pub open spec fn grid_padding(grid_size: int, height: int) -> int {
    (grid_size - height % grid_size) % grid_size
}

/// A portal entity as the raw level description carries it: optional
/// named fields, the trigger volume's top-left corner in raw pixel
/// coordinates, and its extent.
#[derive(Clone, Copy, PartialEq, Eq, Debug)]
pub struct RawPortalEntity {
    pub destination: Option<u32>,
    pub link: Option<i32>,
    pub px: (i64, i64),
    pub width: i64,
    pub height: i64,
}

/// The portal a raw entity denotes, with its trigger volume converted to
/// zone-local coordinates: the raw vertical axis is flipped against the
/// grid-padded level height, so the corner at raw `py` becomes the
/// volume's top edge.  `None` exactly when the entity misses its
/// destination or link field — level data that invalidates the world.
pub open spec fn spec_portal_of_entity(e: RawPortalEntity, grid_size: int, level_height: int) -> Option<PortalInfo> {
    if e.destination is Some && e.link is Some {
        let flip = level_height + grid_padding(grid_size, level_height);
        Some(
            PortalInfo {
                bounds: Rect {
                    x1: e.px.0,
                    x2: (e.px.0 + e.width) as i64,
                    y1: (flip - e.px.1 - e.height) as i64,
                    y2: (flip - e.px.1) as i64,
                },
                destination: e.destination->Some_0,
                link: e.link->Some_0,
            },
        )
    } else {
        None
    }
}

/// Builds a portal from a raw level entity, normalizing its trigger
/// volume into zone-local coordinates.
pub fn portal_from_entity(e: &RawPortalEntity, grid_size: i64, level_height: i64) -> (r: Option<
    PortalInfo,
>)
    requires
        1 <= grid_size <= COORD_LIMIT,
        0 <= level_height <= COORD_LIMIT,
        0 <= e.px.0 <= COORD_LIMIT,
        0 <= e.px.1 <= COORD_LIMIT,
        0 <= e.width <= COORD_LIMIT,
        0 <= e.height <= COORD_LIMIT,
    ensures
        r == spec_portal_of_entity(*e, grid_size as int, level_height as int),
{
    match (e.destination, e.link) {
        (Some(destination), Some(link)) => {
            let rem: i64 = level_height % grid_size;
            let padding: i64 = (grid_size - rem) % grid_size;
            let flip = level_height + padding;
            Some(
                PortalInfo {
                    bounds: Rect {
                        x1: e.px.0,
                        x2: e.px.0 + e.width,
                        y1: flip - e.px.1 - e.height,
                        y2: flip - e.px.1,
                    },
                    destination,
                    link,
                },
            )
        },
        _ => None,
    }
}

} // verus!
