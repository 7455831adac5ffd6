use pill_engine::net_state::{
    default_despawn_hook, despawn_entities, handle_exit_policy, is_not_ready, mark_connected,
    mark_disconnected, plan_entity_update, pump_error_outcome, relay_excludes, receive_updates, reconnect_due, reconnected, respawn_owned,
    run_update_for_existing_entity, send_client_updates, send_existing_entities, snapshot_allowed,
    ClientState, ConnectionState, EntityUpdatePlan, NetErrorKind, NetworkEntity, NetworkEntityAction,
    NetworkEntityState, OfflinePolicy, PumpOutcome, ServerMessage, ServerMessageAction,
};
use pill_engine::networking::NetworkAction;

fn client(state: ConnectionState, backoff_ms: u64) -> ClientState<()> {
    ClientState {
        net: (),
        server_address: "127.0.0.1:5000".to_string(),
        connection_state: state,
        want_reconnect: false,
        backoff_ms,
        next_try_ms: 0,
        world_epoch: 1,
        connection_seq: 0,
    }
}

fn entity(owner_id: u64, nid: u64, state: NetworkEntityState) -> NetworkEntity {
    NetworkEntity { owner_id, state, network_entity_id: nid, entity_type: "player".to_string() }
}

#[test]
fn new_client_is_connecting() {
    let c = ClientState::new((), "10.0.0.1:4000".to_string());
    assert_eq!(c.connection_state, ConnectionState::Connecting);
    assert_eq!(c.backoff_ms, 500);
    assert_eq!(c.world_epoch, 1);
    assert_eq!(c.connection_seq, 0);
    assert_eq!(c.server_address, "10.0.0.1:4000");
}

#[test]
fn disconnect_doubles_backoff() {
    let mut c = client(ConnectionState::Connected, 500);
    mark_disconnected(&mut c, 10_000);
    assert_eq!(c.connection_state, ConnectionState::Disconnected);
    assert!(c.want_reconnect);
    assert_eq!(c.backoff_ms, 1000);
    assert_eq!(c.next_try_ms, 11_000);
}

#[test]
fn backoff_is_capped() {
    let mut c = client(ConnectionState::Connecting, 1500);
    mark_disconnected(&mut c, 0);
    assert_eq!(c.backoff_ms, 2000);
    assert_eq!(c.next_try_ms, 2000);
    let mut d = client(ConnectionState::Connected, u64::MAX);
    mark_disconnected(&mut d, u64::MAX - 1);
    assert_eq!(d.backoff_ms, 2000);
    assert_eq!(d.next_try_ms, u64::MAX);
}

#[test]
fn disconnect_of_disconnected_client_changes_nothing() {
    let mut c = client(ConnectionState::Disconnected, 700);
    c.next_try_ms = 42;
    mark_disconnected(&mut c, 99_999);
    assert_eq!(c.backoff_ms, 700);
    assert_eq!(c.next_try_ms, 42);
    assert!(!c.want_reconnect);
}

#[test]
fn connect_resets_backoff() {
    let mut c = client(ConnectionState::Connecting, 2000);
    c.want_reconnect = true;
    c.next_try_ms = 5;
    mark_connected(&mut c);
    assert_eq!(c.connection_state, ConnectionState::Connected);
    assert!(!c.want_reconnect);
    assert_eq!(c.backoff_ms, 500);
    assert_eq!(c.next_try_ms, 0);
}

#[test]
fn reconnect_waits_for_its_time() {
    let mut c = client(ConnectionState::Connected, 500);
    mark_disconnected(&mut c, 1000);
    assert!(!reconnect_due(&c, 1999));
    assert!(reconnect_due(&c, 2000));
    reconnected(&mut c, ());
    assert_eq!(c.connection_state, ConnectionState::Connecting);
    assert_eq!(c.connection_seq, 1);
    assert_eq!(c.backoff_ms, 500);
    assert_eq!(c.world_epoch, 1);
    assert!(!reconnect_due(&c, 5000));
}

#[test]
fn respawn_marks_only_own_entities() {
    let mut es = vec![
        entity(1, 10, NetworkEntityState::Alive),
        entity(2, 11, NetworkEntityState::Alive),
        entity(1, 12, NetworkEntityState::Despawn),
    ];
    respawn_owned(&mut es, 1);
    assert_eq!(es[0].state, NetworkEntityState::Spawn);
    assert_eq!(es[1].state, NetworkEntityState::Alive);
    assert_eq!(es[2].state, NetworkEntityState::Spawn);
}

#[test]
fn despawn_selects_entities_of_leaving_clients() {
    let es = vec![entity(1, 10, NetworkEntityState::Alive), entity(2, 11, NetworkEntityState::Alive), entity(3, 12, NetworkEntityState::Alive)];
    assert_eq!(despawn_entities(&es, &vec![3, 1]), vec![0, 2]);
    assert_eq!(despawn_entities(&es, &vec![]), Vec::<usize>::new());
    assert_eq!(handle_exit_policy(None, &es, &vec![2]), vec![1]);
    assert_eq!(handle_exit_policy(Some(OfflinePolicy::Despawn), &es, &vec![2]), vec![1]);
    assert!(handle_exit_policy(Some(OfflinePolicy::Freeze), &es, &vec![2]).is_empty());
    assert!(handle_exit_policy(Some(OfflinePolicy::AI), &es, &vec![2]).is_empty());
}

#[test]
fn newcomer_is_told_about_the_others() {
    let es = vec![entity(1, 10, NetworkEntityState::Alive), entity(2, 11, NetworkEntityState::Alive), entity(1, 12, NetworkEntityState::Alive)];
    assert_eq!(send_existing_entities(&es, 1), vec![1]);
    assert_eq!(send_existing_entities(&es, 9), vec![0, 1, 2]);
    assert!(snapshot_allowed(None));
    assert!(snapshot_allowed(Some(ConnectionState::Connected)));
    assert!(!snapshot_allowed(Some(ConnectionState::Connecting)));
}

#[test]
fn lookups_by_network_id() {
    let es = vec![entity(1, 10, NetworkEntityState::Alive), entity(2, 11, NetworkEntityState::Alive), entity(3, 11, NetworkEntityState::Alive)];
    assert_eq!(run_update_for_existing_entity(&es, 11), Some(1));
    assert_eq!(run_update_for_existing_entity(&es, 99), None);
    assert_eq!(default_despawn_hook(&es, 11), vec![1, 2]);
}

#[test]
fn client_update_plans() {
    let mut own_new = entity(7, 1, NetworkEntityState::Spawn);
    assert_eq!(send_client_updates(&mut own_new, 7, false, false), Some(NetworkEntityAction::Spawn));
    assert_eq!(own_new.state, NetworkEntityState::Alive);
    let mut other_new = entity(8, 2, NetworkEntityState::Spawn);
    assert_eq!(send_client_updates(&mut other_new, 7, false, true), None);
    assert_eq!(other_new.state, NetworkEntityState::Spawn);
    let mut alive = entity(7, 3, NetworkEntityState::Alive);
    assert_eq!(send_client_updates(&mut alive, 7, true, false), None);
    assert_eq!(send_client_updates(&mut alive, 7, true, true), Some(NetworkEntityAction::Update));
    assert_eq!(send_client_updates(&mut alive, 7, false, false), Some(NetworkEntityAction::Update));
}

#[test]
fn server_message_routing() {
    let msgs = vec![
        ServerMessage { client_id: 4, tag: NetworkAction::Update, payload_client_id: 4 },
        ServerMessage { client_id: 4, tag: NetworkAction::Update, payload_client_id: 5 },
        ServerMessage { client_id: 6, tag: NetworkAction::Join, payload_client_id: 0 },
        ServerMessage { client_id: 7, tag: NetworkAction::Exit, payload_client_id: 0 },
    ];
    assert_eq!(
        receive_updates(&msgs),
        vec![
            ServerMessageAction::Accept,
            ServerMessageAction::Disconnect,
            ServerMessageAction::Join,
            ServerMessageAction::Exit
        ]
    );
}

#[test]
fn not_ready_errors() {
    assert!(is_not_ready(NetErrorKind::ClientNotConnected));
    assert!(is_not_ready(NetErrorKind::WouldBlock));
    assert!(!is_not_ready(NetErrorKind::Other));
}

#[test]
fn entity_update_plans() {
    let es = vec![entity(1, 10, NetworkEntityState::Alive)];
    assert_eq!(plan_entity_update(true, NetworkEntityAction::Spawn, &es, 10, true), EntityUpdatePlan::Spawn);
    assert_eq!(plan_entity_update(false, NetworkEntityAction::Spawn, &es, 10, true), EntityUpdatePlan::Refresh(0));
    assert_eq!(plan_entity_update(false, NetworkEntityAction::Spawn, &es, 11, true), EntityUpdatePlan::Spawn);
    assert_eq!(plan_entity_update(false, NetworkEntityAction::Update, &es, 10, true), EntityUpdatePlan::SetTransform(0));
    assert_eq!(plan_entity_update(false, NetworkEntityAction::Update, &es, 10, false), EntityUpdatePlan::Skip);
    assert_eq!(plan_entity_update(true, NetworkEntityAction::Despawn, &es, 10, false), EntityUpdatePlan::Despawn);
}

#[test]
fn pump_errors_disconnect_a_client_and_spare_a_server() {
    assert_eq!(pump_error_outcome(true, NetErrorKind::ClientNotConnected), PumpOutcome::Disconnect);
    assert_eq!(pump_error_outcome(true, NetErrorKind::WouldBlock), PumpOutcome::Disconnect);
    assert_eq!(pump_error_outcome(true, NetErrorKind::Other), PumpOutcome::Fail);
    assert_eq!(pump_error_outcome(false, NetErrorKind::Disconnected), PumpOutcome::Ignore);
    assert_eq!(pump_error_outcome(false, NetErrorKind::Interrupted), PumpOutcome::Ignore);
    assert_eq!(pump_error_outcome(false, NetErrorKind::Other), PumpOutcome::Fail);
}

#[test]
fn accepted_updates_are_relayed_to_all_but_their_sender() {
    let msgs = vec![
        ServerMessage { client_id: 4, tag: NetworkAction::Update, payload_client_id: 4 },
        ServerMessage { client_id: 5, tag: NetworkAction::Update, payload_client_id: 9 },
        ServerMessage { client_id: 6, tag: NetworkAction::Join, payload_client_id: 0 },
        ServerMessage { client_id: 7, tag: NetworkAction::Update, payload_client_id: 7 },
    ];
    assert_eq!(relay_excludes(&msgs), vec![4, 7]);
    assert_eq!(relay_excludes(&Vec::new()), Vec::<u64>::new());
}
