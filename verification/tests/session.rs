use mangovillage_core::protocol::validate_register_results;
use mangovillage_core::session::{PeerTable, SessionError};
use mangovillage_core::state::{
    client_advance, client_reconciliation_active, get_client_id, server_advance,
    server_simulation_active, ClientState, ServerState,
};
use mangovillage_core::protocol::ConnectAck;
use mangovillage_core::session::ClientId;

#[test]
fn connect_assigns_fresh_ids_from_one() {
    let mut t = PeerTable::new();
    let a = t.connect(0);
    let b = t.connect(5);
    assert_eq!(a, 1);
    assert_eq!(b, 2);
    assert!(t.has_peer(1));
    assert!(t.has_peer(2));
    assert!(!t.has_peer(3));
}

#[test]
fn disconnect_removes_exactly_one_peer() {
    let mut t = PeerTable::new();
    let a = t.connect(0);
    let b = t.connect(0);
    assert_eq!(t.disconnect(a), Ok(()));
    assert!(!t.has_peer(a));
    assert!(t.has_peer(b));
    // A second disconnect of the same id answers UnknownPeer.
    assert_eq!(t.disconnect(a), Err(SessionError::UnknownPeer));
}

#[test]
fn ids_are_not_reused_after_disconnect() {
    let mut t = PeerTable::new();
    let a = t.connect(0);
    assert_eq!(t.disconnect(a), Ok(()));
    let b = t.connect(0);
    assert_ne!(a, b);
}

#[test]
fn keep_alive_restarts_idle_window() {
    let mut t = PeerTable::new();
    let a = t.connect(0);
    let b = t.connect(0);
    assert_eq!(t.keep_alive(a, 50_000), Ok(()));
    // At 60 s with a 60 s window, only the silent peer has expired.
    let expired = t.timed_out(60_000, 60_000);
    assert_eq!(expired, vec![b]);
    assert_eq!(t.keep_alive(99, 0), Err(SessionError::UnknownPeer));
}

#[test]
fn timeout_is_equivalent_to_disconnect() {
    let mut t = PeerTable::new();
    let a = t.connect(0);
    let expired = t.timed_out(60_000, 60_000);
    assert_eq!(expired, vec![a]);
    for id in expired {
        assert_eq!(t.disconnect(id), Ok(()));
    }
    assert!(!t.has_peer(a));
    assert!(t.timed_out(120_000, 60_000).is_empty());
}

#[test]
fn registration_all_ok_is_valid() {
    let results: Vec<Result<(), String>> = vec![Ok(()), Ok(()), Ok(())];
    assert!(validate_register_results(false, results));
}

#[test]
fn registration_single_failure_is_fatal() {
    let results: Vec<Result<(), String>> =
        vec![Ok(()), Err("already registered".to_string()), Ok(())];
    assert!(!validate_register_results(true, results));
}

#[test]
fn registration_empty_is_valid() {
    let results: Vec<Result<(), String>> = Vec::new();
    assert!(validate_register_results(true, results));
}

#[test]
fn lifecycles_advance_one_way_and_stop_at_running() {
    let s = ServerState::StartUp;
    let s = server_advance(s);
    assert_eq!(s, ServerState::LoadWorld);
    let s = server_advance(s);
    assert_eq!(s, ServerState::LoadPhysics);
    assert!(!server_simulation_active(s));
    let s = server_advance(s);
    assert_eq!(s, ServerState::Running);
    assert!(server_simulation_active(s));
    assert_eq!(server_advance(s), ServerState::Running);

    let c = client_advance(ClientState::JoiningServer);
    assert_eq!(c, ClientState::LoadingLevel);
    assert!(!client_reconciliation_active(c));
    let c = client_advance(client_advance(c));
    assert_eq!(c, ClientState::Running);
    assert!(client_reconciliation_active(c));
    assert_eq!(client_advance(c), ClientState::Running);
}

#[test]
fn first_ack_sets_client_id_once() {
    let mut id = ClientId { id: 0, set: false };
    let mut state = ClientState::JoiningServer;
    let acks = vec![ConnectAck { id: 42 }, ConnectAck { id: 43 }];
    get_client_id(&mut id, &mut state, &acks);
    assert_eq!(id, ClientId { id: 42, set: true });
    assert_eq!(state, ClientState::LoadingLevel);
    // A duplicate ack later changes nothing.
    let late = vec![ConnectAck { id: 99 }];
    get_client_id(&mut id, &mut state, &late);
    assert_eq!(id, ClientId { id: 42, set: true });
    assert_eq!(state, ClientState::LoadingLevel);
}

#[test]
fn no_ack_no_transition() {
    let mut id = ClientId { id: 0, set: false };
    let mut state = ClientState::JoiningServer;
    get_client_id(&mut id, &mut state, &Vec::new());
    assert_eq!(id, ClientId { id: 0, set: false });
    assert_eq!(state, ClientState::JoiningServer);
}
