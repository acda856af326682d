//! Authoritative synchronization core for a zone-based multiplayer world.
//!
//! The library owns the logic of the server and its clients: peer sessions
//! and liveness, the static zone graph with its portals, the per-tick
//! movement engine, per-zone snapshot broadcasting, and the client-side
//! mirror that reconciles against those snapshots.  All coordinates are
//! integer world units; everything the engine decides is stated in the
//! contracts and proved.  Network transport, rendering and the collision
//! primitive library stay outside: they hand plain values in and take
//! plain values back.

pub mod geometry;
pub mod mirror;
pub mod movement;
pub mod protocol;
pub mod server;
pub mod session;
pub mod snapshot;
pub mod state;
pub mod world;
