//! Session lifecycle state machines, server- and client-side.
//!
//! Each state gates which components may run; transitions are
//! one-directional and driven by completion events, never by timers, so
//! slow loading cannot reorder startup.

use vstd::prelude::*;

use crate::protocol::ConnectAck;
use crate::session::ClientId;

verus! {

/// The server's lifecycle.  The movement engine and the snapshot
/// broadcaster are inert until `Running`.
#[derive(Clone, Copy, PartialEq, Eq, Structural, Debug)]
pub enum ServerState {
    StartUp,
    LoadWorld,
    LoadPhysics,
    Running,
}

/// A client's lifecycle.  Reconciliation is inert until `Running`.
#[derive(Clone, Copy, PartialEq, Eq, Structural, Debug)]
pub enum ClientState {
    JoiningServer,
    LoadingLevel,
    LoadingPhysics,
    Running,
}

/// Which camera drives a client's view; presentation-side state.
#[derive(Clone, Copy, PartialEq, Eq, Structural, Debug)]
pub enum CameraState {
    Locked,
    Debug,
}

/// How far along its lifecycle the server is.
pub open spec fn server_rank(s: ServerState) -> int {
    match s {
        ServerState::StartUp => 0,
        ServerState::LoadWorld => 1,
        ServerState::LoadPhysics => 2,
        ServerState::Running => 3,
    }
}

/// How far along its lifecycle a client is.
pub open spec fn client_rank(s: ClientState) -> int {
    match s {
        ClientState::JoiningServer => 0,
        ClientState::LoadingLevel => 1,
        ClientState::LoadingPhysics => 2,
        ClientState::Running => 3,
    }
}

/// The state that follows once the current stage's completion event
/// fired.
pub open spec fn spec_server_advance(s: ServerState) -> ServerState {
    match s {
        ServerState::StartUp => ServerState::LoadWorld,
        ServerState::LoadWorld => ServerState::LoadPhysics,
        ServerState::LoadPhysics => ServerState::Running,
        ServerState::Running => ServerState::Running,
    }
}

pub open spec fn spec_client_advance(s: ClientState) -> ClientState {
    match s {
        ClientState::JoiningServer => ClientState::LoadingLevel,
        ClientState::LoadingLevel => ClientState::LoadingPhysics,
        ClientState::LoadingPhysics => ClientState::Running,
        ClientState::Running => ClientState::Running,
    }
}

/// Advances the server lifecycle by one completed stage.
pub fn server_advance(s: ServerState) -> (t: ServerState)
    ensures
        t == spec_server_advance(s),
{
    match s {
        ServerState::StartUp => ServerState::LoadWorld,
        ServerState::LoadWorld => ServerState::LoadPhysics,
        ServerState::LoadPhysics => ServerState::Running,
        ServerState::Running => ServerState::Running,
    }
}

/// Advances a client lifecycle by one completed stage.
pub fn client_advance(s: ClientState) -> (t: ClientState)
    ensures
        t == spec_client_advance(s),
{
    match s {
        ClientState::JoiningServer => ClientState::LoadingLevel,
        ClientState::LoadingLevel => ClientState::LoadingPhysics,
        ClientState::LoadingPhysics => ClientState::Running,
        ClientState::Running => ClientState::Running,
    }
}

/// Lifecycle transitions only move forward: advancing never lowers the
/// rank, and `Running` absorbs.
pub proof fn lemma_lifecycle_one_directional(s: ServerState, c: ClientState)
    ensures
        server_rank(spec_server_advance(s)) >= server_rank(s),
        spec_server_advance(ServerState::Running) == ServerState::Running,
        client_rank(spec_client_advance(c)) >= client_rank(c),
        spec_client_advance(ClientState::Running) == ClientState::Running,
{
}

/// Whether the movement engine and snapshot broadcaster may run.
pub fn server_simulation_active(s: ServerState) -> (r: bool)
    ensures
        r == (s is Running),
{
    match s {
        ServerState::Running => true,
        _ => false,
    }
}

/// Whether a client may reconcile snapshots into its mirror.
pub fn client_reconciliation_active(s: ClientState) -> (r: bool)
    ensures
        r == (s is Running),
{
    match s {
        ClientState::Running => true,
        _ => false,
    }
}

/// Applies received connect acknowledgements while joining: the first ack
/// records the assigned id and moves the client on to level loading.
/// Once the id is set, or outside the joining stage, further acks change
/// nothing.
pub fn get_client_id(client_id: &mut ClientId, state: &mut ClientState, acks: &Vec<ConnectAck>)
    ensures
        (!old(client_id).set && acks@.len() > 0 && *old(state) is JoiningServer)
            ==> *final(client_id) == (ClientId { id: acks@[0].id, set: true }) && *final(state)
            == ClientState::LoadingLevel,
        (old(client_id).set || acks@.len() == 0 || !(*old(state) is JoiningServer))
            ==> *final(client_id) == *old(client_id) && *final(state) == *old(state),
{
    if !client_id.set && acks.len() > 0 && matches!(*state, ClientState::JoiningServer) {
        let ack = &acks[0];
        client_id.id = ack.id;
        client_id.set = true;
        *state = ClientState::LoadingLevel;
    }
}

} // verus!
