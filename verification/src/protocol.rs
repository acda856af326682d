//! Wire messages of the session protocol, as plain values.
//!
//! Framing and serialization live with the transport outside the library;
//! here a message is the data both ends agree on.  Both ends register the
//! full set of message types before the session starts, and
//! [`validate_register_results`] is the check that makes a single
//! registration failure fatal to startup.

use vstd::prelude::*;

use crate::geometry::{Direction, Position};

verus! {

/// A client's request to join the session.
#[derive(Clone, Copy, PartialEq, Eq, Structural, Debug)]
pub struct Connect;

/// A client's graceful leave.  Sent before the transport closes so the
/// server can clean up at once instead of waiting for the idle timeout.
#[derive(Clone, Copy, PartialEq, Eq, Structural, Debug)]
pub struct Disconnect;

/// A directional movement intent.  Only the newest one received before a
/// tick is applied; superseded ones are discarded.
#[derive(Clone, Copy, PartialEq, Eq, Structural, Debug)]
pub struct Move {
    pub dir: Direction,
}

/// The server's acknowledgement of a connect, carrying the peer id it
/// assigned; the client knows itself by this id from then on.
#[derive(Clone, Copy, PartialEq, Eq, Structural, Debug)]
pub struct ConnectAck {
    pub id: u32,
}

/// Tells a client to present a different zone after its actor crossed a
/// portal.
#[derive(Clone, Copy, PartialEq, Eq, Structural, Debug)]
pub struct ChangeLevel {
    pub zone_id: u32,
}

/// How to place a spawned scene: an offset in world units and a rotation
/// around the x axis in quarter turns.
#[derive(Clone, Copy, PartialEq, Eq, Structural, Debug)]
pub struct SceneTransform {
    pub x: i64,
    pub y: i64,
    pub z: i64,
    pub rot_x: i64,
}

/// The scene a client should load when it spawns in: which model to
/// present and how to place it.  Carried through to the presentation
/// layer, never computed on.
#[derive(PartialEq, Eq, Debug)]
pub struct LevelInfo {
    pub handle_id: String,
    pub scene_transform: SceneTransform,
    pub scale: i64,
}

/// Tells a freshly acknowledged client which scene to spawn.
#[derive(PartialEq, Eq, Debug)]
pub struct SpawnScene {
    pub level: LevelInfo,
}

/// One actor of a snapshot: its id and zone-local placement.
#[derive(Clone, Copy, PartialEq, Eq, Structural, Debug)]
pub struct PlayerInfo {
    pub id: u32,
    pub local_pos: Position,
    pub scale: i64,
}

/// A full snapshot of one zone's actors, sent to each peer resident in
/// the zone every broadcast tick.  It is authoritative and complete, not
/// a delta, which is what lets a dropped one heal itself.
#[derive(PartialEq, Eq, Debug)]
pub struct UpdatePlayerPositions {
    pub players: Vec<PlayerInfo>,
}

/// Checks a batch of packet-type registration results.  The session may
/// only start when every expected message type registered on this side,
/// so the batch is good exactly when no entry failed.
pub fn validate_register_results<T>(_is_client: bool, results: Vec<Result<(), T>>) -> (r: bool)
    ensures
        r <==> forall|i: int| 0 <= i < results@.len() ==> (#[trigger] results@[i]) is Ok,
{
    let n = results.len();
    let mut i: usize = 0;
    while i < n
        invariant
            i <= n,
            n == results@.len(),
            forall|k: int| 0 <= k < i ==> (#[trigger] results@[k]) is Ok,
        decreases n - i,
    {
        if results[i].is_err() {
            return false;
        }
        i += 1;
    }
    true
}

} // verus!
