//! Replication bookkeeping: the client's connection state machine with its
//! reconnect back-off, the server's handling of incoming messages and of
//! clients that leave, and the choice of which entities to announce.
//!
//! Times are whole milliseconds of engine time. Entity transforms carry
//! floating-point values and stay with the caller; entities are seen here by
//! their owner, network id, replication state and type.
use std::collections::HashSet;
use vstd::prelude::*;

use crate::networking::{NetworkAction, NetworkClient, NetworkServer};

verus! {

broadcast use vstd::std_specs::hash::group_hash_axioms;

/// Which end of the connection this engine instance is.
pub enum NetSide {
    Server(NetworkServer),
    Client(NetworkClient),
}

/// Where a client stands with the server.
#[derive(Debug, Clone, Copy, PartialEq, Eq, Structural)]
pub enum ConnectionState {
    Disconnected,
    Connecting,
    Connected,
}

/// Whether a client that had a session is still there.
#[derive(Debug, Clone, Copy, PartialEq, Eq, Structural)]
pub enum SessionStatus {
    Offline,
    Online,
}

/// What the server does with the entities of a client that left.
#[derive(Debug, Clone, Copy, PartialEq, Eq, Structural)]
pub enum OfflinePolicy {
    Despawn,
    Freeze,
    AI,
}

/// A client's session on the server: its status, the policy for its entities,
/// the network ids it owns, and the engine time (ms) by which it must be back.
pub struct Session {
    pub status: SessionStatus,
    pub offline_policy: OfflinePolicy,
    pub owned: HashSet<u64>,
    pub reconnect_deadline: u64,
}

/// The replication state of a networked entity.
#[derive(Clone, Copy, Debug, PartialEq, Eq, Structural)]
pub enum NetworkEntityState {
    Spawn,
    Despawn,
    Alive,
}

/// What an entity update asks of the receiver.
#[derive(Clone, Copy, Debug, PartialEq, Eq, Structural)]
pub enum NetworkEntityAction {
    Spawn,
    Despawn,
    Update,
}

/// A networked entity as replication sees it: the client that owns it, its
/// replication state, its id in the network, and its type.
pub struct NetworkEntity {
    pub owner_id: u64,
    pub state: NetworkEntityState,
    pub network_entity_id: u64,
    pub entity_type: String,
}

/// The client's connection: the transport (`NetworkClient` in the engine),
/// the server it talks to, its state, and the back-off before the next
/// reconnect attempt.
pub struct ClientState<N> {
    pub net: N,
    pub server_address: String,
    pub connection_state: ConnectionState,
    pub want_reconnect: bool,
    pub backoff_ms: u64,
    pub next_try_ms: u64,
    pub world_epoch: u64,
    pub connection_seq: u64,
}

impl<N> ClientState<N> {
    /// A client that has just started connecting to `server_address` over `net`.
    pub fn new(net: N, server_address: String) -> (r: Self)
        ensures
            r.net == net,
            r.server_address == server_address,
            r.connection_state == ConnectionState::Connecting,
            !r.want_reconnect,
            r.backoff_ms == INITIAL_BACKOFF_MS,
            r.next_try_ms == 0,
            r.world_epoch == 1,
            r.connection_seq == 0,
    {
        ClientState {
            net,
            server_address,
            connection_state: ConnectionState::Connecting,
            want_reconnect: false,
            backoff_ms: INITIAL_BACKOFF_MS,
            next_try_ms: 0,
            world_epoch: 1,
            connection_seq: 0,
        }
    }
}

/// The server's replication state: its transport, the world epoch, the policy
/// for clients that leave, and a session per client.
pub struct ServerState {
    pub net: NetworkServer,
    pub world_epoch: u64,
    pub offline_policy: OfflinePolicy,
    pub sessions: std::collections::HashMap<u64, Session>,
}

impl ServerState {
    /// A server that has just started: first epoch, entities of leaving clients
    /// despawned, no sessions.
    pub fn new(net: NetworkServer) -> (r: Self)
        ensures
            r.net == net,
            r.world_epoch == 1,
            r.offline_policy == OfflinePolicy::Despawn,
            r.sessions@ == Map::<u64, Session>::empty(),
    {
        ServerState {
            net,
            world_epoch: 1,
            offline_policy: OfflinePolicy::Despawn,
            sessions: std::collections::HashMap::new(),
        }
    }
}

/// The longest wait between reconnect attempts.
pub const MAX_BACKOFF_MS: u64 = 2000u64;

/// The wait before the first reconnect attempt.
pub const INITIAL_BACKOFF_MS: u64 = 500u64;

/// The back-off after one more failure: doubled, at most `MAX_BACKOFF_MS`.
pub open spec fn next_backoff(b: u64) -> u64 {
    if 2 * b >= MAX_BACKOFF_MS {
        MAX_BACKOFF_MS
    } else {
        (2 * b) as u64
    }
}

/// `now + wait`, or `u64::MAX` where that does not fit.
pub open spec fn later(now: u64, wait: u64) -> u64 {
    if now + wait > u64::MAX {
        u64::MAX
    } else {
        (now + wait) as u64
    }
}

/// The client's fields other than the transport and the address.
pub open spec fn client_fields<N>(c: &ClientState<N>) -> (ConnectionState, bool, u64, u64, u64, u64) {
    (c.connection_state, c.want_reconnect, c.backoff_ms, c.next_try_ms, c.world_epoch, c.connection_seq)
}

/// Records that the connection is lost, at engine time `now_ms`. A client
/// already disconnected is left as it is; otherwise it wants to reconnect,
/// its back-off doubles (at most `MAX_BACKOFF_MS`), and the next attempt is
/// due that long from now.
pub fn mark_disconnected<N>(client: &mut ClientState<N>, now_ms: u64)
    ensures
        final(client).net == old(client).net,
        final(client).server_address == old(client).server_address,
        final(client).world_epoch == old(client).world_epoch,
        final(client).connection_seq == old(client).connection_seq,
        old(client).connection_state == ConnectionState::Disconnected ==> client_fields(&*final(client))
            == client_fields(&*old(client)),
        old(client).connection_state != ConnectionState::Disconnected ==> {
            &&& final(client).connection_state == ConnectionState::Disconnected
            &&& final(client).want_reconnect
            &&& final(client).backoff_ms == next_backoff(old(client).backoff_ms)
            &&& final(client).next_try_ms == later(now_ms, next_backoff(old(client).backoff_ms))
        },
{
    if client.connection_state == ConnectionState::Disconnected {
        return;
    }
    client.connection_state = ConnectionState::Disconnected;
    client.want_reconnect = true;
    client.backoff_ms = if client.backoff_ms >= MAX_BACKOFF_MS / 2 {
        MAX_BACKOFF_MS
    } else {
        client.backoff_ms * 2
    };
    client.next_try_ms = now_ms.saturating_add(client.backoff_ms);
}

/// Records that the connection is up. A client already connected is left as
/// it is; otherwise it no longer wants to reconnect and its back-off starts
/// over.
pub fn mark_connected<N>(client: &mut ClientState<N>)
    ensures
        final(client).net == old(client).net,
        final(client).server_address == old(client).server_address,
        final(client).world_epoch == old(client).world_epoch,
        final(client).connection_seq == old(client).connection_seq,
        old(client).connection_state == ConnectionState::Connected ==> client_fields(&*final(client))
            == client_fields(&*old(client)),
        old(client).connection_state != ConnectionState::Connected ==> {
            &&& final(client).connection_state == ConnectionState::Connected
            &&& !final(client).want_reconnect
            &&& final(client).backoff_ms == INITIAL_BACKOFF_MS
            &&& final(client).next_try_ms == 0
        },
{
    if client.connection_state == ConnectionState::Connected {
        return;
    }
    client.connection_state = ConnectionState::Connected;
    client.want_reconnect = false;
    client.backoff_ms = INITIAL_BACKOFF_MS;
    client.next_try_ms = 0;
}

/// Whether a reconnect attempt is due at engine time `now_ms`: the client is
/// disconnected, wants to reconnect, and its wait is over.
pub fn reconnect_due<N>(client: &ClientState<N>, now_ms: u64) -> (r: bool)
    ensures
        r == (client.connection_state == ConnectionState::Disconnected && client.want_reconnect && now_ms
            >= client.next_try_ms),
{
    client.connection_state == ConnectionState::Disconnected && client.want_reconnect && now_ms
        >= client.next_try_ms
}

/// Records a successful reconnect over the new transport `net`, which
/// replaces the old one: the client is connecting again, its back-off starts
/// over, and the connection count goes up by one.
pub fn reconnected<N>(client: &mut ClientState<N>, net: N)
    requires
        old(client).connection_seq < u64::MAX,
    ensures
        final(client).net == net,
        final(client).server_address == old(client).server_address,
        final(client).connection_state == ConnectionState::Connecting,
        !final(client).want_reconnect,
        final(client).backoff_ms == INITIAL_BACKOFF_MS,
        final(client).next_try_ms == 0,
        final(client).world_epoch == old(client).world_epoch,
        final(client).connection_seq == old(client).connection_seq + 1,
{
    client.net = net;
    client.connection_state = ConnectionState::Connecting;
    client.want_reconnect = false;
    client.backoff_ms = INITIAL_BACKOFF_MS;
    client.next_try_ms = 0;
    client.connection_seq = client.connection_seq + 1;
}

/// Entity `i` with its replication state set to `Spawn` if `my_id` owns it.
pub open spec fn respawned(es: Seq<NetworkEntity>, my_id: u64, i: int) -> NetworkEntity {
    if es[i].owner_id == my_id {
        NetworkEntity { state: NetworkEntityState::Spawn, ..es[i] }
    } else {
        es[i]
    }
}

/// After a reconnect, every entity this client owns is announced again: its
/// state becomes `Spawn`. Other entities stay as they are.
pub fn respawn_owned(entities: &mut Vec<NetworkEntity>, my_id: u64)
    ensures
        final(entities)@.len() == old(entities)@.len(),
        forall|i: int| 0 <= i < old(entities)@.len() ==> #[trigger] final(entities)@[i] == respawned(
            old(entities)@,
            my_id,
            i,
        ),
{
    let ghost start = entities@;
    let mut i: usize = 0;
    while i < entities.len()
        invariant
            i <= entities.len(),
            entities@.len() == start.len(),
            forall|j: int| 0 <= j < i ==> #[trigger] entities@[j] == respawned(start, my_id, j),
            forall|j: int| i <= j < start.len() ==> #[trigger] entities@[j] == start[j],
        decreases entities.len() - i,
    {
        if entities[i].owner_id == my_id {
            let mut e = entities.remove(i);
            e.state = NetworkEntityState::Spawn;
            entities.insert(i, e);
        }
        i = i + 1;
    }
}

/// The positions, in order, of the entities for which `keep` holds.
pub open spec fn indices_where(es: Seq<NetworkEntity>, keep: spec_fn(NetworkEntity) -> bool) -> Seq<usize>
    decreases es.len(),
{
    if es.len() == 0 {
        Seq::empty()
    } else if keep(es.last()) {
        indices_where(es.drop_last(), keep).push((es.len() - 1) as usize)
    } else {
        indices_where(es.drop_last(), keep)
    }
}

/// Every position that `indices_where` gives is in range and satisfies `keep`.
pub proof fn lemma_indices_where_sound(es: Seq<NetworkEntity>, keep: spec_fn(NetworkEntity) -> bool, k: int)
    requires
        0 <= k < indices_where(es, keep).len(),
        es.len() <= usize::MAX,
    ensures
        indices_where(es, keep)[k] < es.len(),
        keep(es[indices_where(es, keep)[k] as int]),
    decreases es.len(),
{
    let r = indices_where(es.drop_last(), keep);
    if es.len() > 0 {
        if k < r.len() {
            lemma_indices_where_sound(es.drop_last(), keep, k);
            assert(es.drop_last()[r[k] as int] == es[r[k] as int]);
            if keep(es.last()) {
                assert(indices_where(es, keep)[k] == r[k]);
            }
        } else {
            assert(keep(es.last()));
            assert(indices_where(es, keep)[k] == es.len() - 1);
        }
    }
}

/// Whether an entity's owner is one of `cids`.
pub open spec fn owned_by_any(cids: Seq<u64>) -> spec_fn(NetworkEntity) -> bool {
    |e: NetworkEntity| cids.contains(e.owner_id)
}

/// Whether an entity is owned by someone other than `cid`.
pub open spec fn not_owned_by(cid: u64) -> spec_fn(NetworkEntity) -> bool {
    |e: NetworkEntity| e.owner_id != cid
}

/// Whether an entity has the network id `nid`.
pub open spec fn has_net_id(nid: u64) -> spec_fn(NetworkEntity) -> bool {
    |e: NetworkEntity| e.network_entity_id == nid
}

/// The positions, in order, of the entities owned by one of `despawn_cids`:
/// those that go when their owners leave.
pub fn despawn_entities(entities: &Vec<NetworkEntity>, despawn_cids: &Vec<u64>) -> (r: Vec<usize>)
    ensures
        r@ == indices_where(entities@, owned_by_any(despawn_cids@)),
{
    let mut set: HashSet<u64> = HashSet::new();
    let mut k: usize = 0;
    while k < despawn_cids.len()
        invariant
            k <= despawn_cids.len(),
            set@ == despawn_cids@.subrange(0, k as int).to_set(),
        decreases despawn_cids.len() - k,
    {
        set.insert(despawn_cids[k]);
        proof {
            let pre = despawn_cids@.subrange(0, k as int);
            let next = despawn_cids@.subrange(0, k + 1);
            assert(next == pre.push(despawn_cids@[k as int]));
            assert forall|x: u64| #[trigger] next.to_set().contains(x) == pre.to_set().insert(
                despawn_cids@[k as int],
            ).contains(x) by {
                if next.contains(x) {
                    let j = choose|j: int| 0 <= j < next.len() && next[j] == x;
                    if j < k {
                        assert(pre[j] == x);
                    }
                }
                if pre.contains(x) {
                    let j = choose|j: int| 0 <= j < pre.len() && pre[j] == x;
                    assert(next[j] == x);
                }
                if x == despawn_cids@[k as int] {
                    assert(next[k as int] == x);
                }
            }
            assert(next.to_set() =~= pre.to_set().insert(despawn_cids@[k as int]));
        }
        k = k + 1;
    }
    assert(despawn_cids@.subrange(0, despawn_cids@.len() as int) == despawn_cids@);
    let ghost keep = owned_by_any(despawn_cids@);
    let mut r: Vec<usize> = Vec::new();
    let mut i: usize = 0;
    while i < entities.len()
        invariant
            i <= entities.len(),
            set@ == despawn_cids@.to_set(),
            keep == owned_by_any(despawn_cids@),
            r@ == indices_where(entities@.subrange(0, i as int), keep),
        decreases entities.len() - i,
    {
        let ghost pre = entities@.subrange(0, i as int);
        let ghost next = entities@.subrange(0, i + 1);
        assert(next.drop_last() == pre);
        assert(next.last() == entities@[i as int]);
        let owner = entities[i].owner_id;
        let hit = set.contains(&owner);
        assert(hit == despawn_cids@.contains(owner));
        if hit {
            r.push(i);
        }
        i = i + 1;
    }
    assert(entities@.subrange(0, entities@.len() as int) == entities@);
    r
}

/// The positions of the entities that `handle_exit_policy` despawns when the
/// clients `exit_cids` leave, under the server's policy (`Despawn` where there
/// is no server state): the entities they own under `Despawn`, none under
/// `Freeze` or `AI`, which keep the entities where they are.
pub open spec fn exit_despawns(
    policy: Option<OfflinePolicy>,
    es: Seq<NetworkEntity>,
    exit_cids: Seq<u64>,
) -> Seq<usize> {
    match policy {
        Some(OfflinePolicy::Freeze) => Seq::empty(),
        Some(OfflinePolicy::AI) => Seq::empty(),
        _ => indices_where(es, owned_by_any(exit_cids)),
    }
}

/// What happens to the entities of clients that left: the positions of those
/// to despawn, as `exit_despawns` says.
pub fn handle_exit_policy(policy: Option<OfflinePolicy>, entities: &Vec<NetworkEntity>, exit_cids: &Vec<u64>) -> (r:
    Vec<usize>)
    ensures
        r@ == exit_despawns(policy, entities@, exit_cids@),
{
    match policy {
        Some(OfflinePolicy::Freeze) => Vec::new(),
        Some(OfflinePolicy::AI) => Vec::new(),
        _ => despawn_entities(entities, exit_cids),
    }
}

/// The positions of the entities a newly joined client `cid` is told about:
/// all but its own.
pub fn send_existing_entities(entities: &Vec<NetworkEntity>, cid: u64) -> (r: Vec<usize>)
    ensures
        r@ == indices_where(entities@, not_owned_by(cid)),
{
    let mut r: Vec<usize> = Vec::new();
    let mut i: usize = 0;
    while i < entities.len()
        invariant
            i <= entities.len(),
            r@ == indices_where(entities@.subrange(0, i as int), not_owned_by(cid)),
        decreases entities.len() - i,
    {
        assert(entities@.subrange(0, i + 1).drop_last() == entities@.subrange(0, i as int));
        assert(entities@.subrange(0, i + 1).last() == entities@[i as int]);
        if entities[i].owner_id != cid {
            r.push(i);
        }
        i = i + 1;
    }
    assert(entities@.subrange(0, entities@.len() as int) == entities@);
    r
}

/// The positions of the entities with network id `nid`: those the default
/// despawn hook removes.
pub fn default_despawn_hook(entities: &Vec<NetworkEntity>, nid: u64) -> (r: Vec<usize>)
    ensures
        r@ == indices_where(entities@, has_net_id(nid)),
{
    let mut r: Vec<usize> = Vec::new();
    let mut i: usize = 0;
    while i < entities.len()
        invariant
            i <= entities.len(),
            r@ == indices_where(entities@.subrange(0, i as int), has_net_id(nid)),
        decreases entities.len() - i,
    {
        assert(entities@.subrange(0, i + 1).drop_last() == entities@.subrange(0, i as int));
        assert(entities@.subrange(0, i + 1).last() == entities@[i as int]);
        if entities[i].network_entity_id == nid {
            r.push(i);
        }
        i = i + 1;
    }
    assert(entities@.subrange(0, entities@.len() as int) == entities@);
    r
}

/// The first position of an entity with network id `nid`, if there is one:
/// the entity an incoming update applies to.
pub fn run_update_for_existing_entity(entities: &Vec<NetworkEntity>, nid: u64) -> (r: Option<usize>)
    ensures
        r matches Some(i) ==> i < entities@.len() && entities@[i as int].network_entity_id == nid && forall|
            j: int,
        | 0 <= j < i ==> entities@[j].network_entity_id != nid,
        r is None ==> forall|j: int| 0 <= j < entities@.len() ==> entities@[j].network_entity_id != nid,
{
    let mut i: usize = 0;
    while i < entities.len()
        invariant
            i <= entities.len(),
            forall|j: int| 0 <= j < i ==> entities@[j].network_entity_id != nid,
        decreases entities.len() - i,
    {
        if entities[i].network_entity_id == nid {
            return Some(i);
        }
        i = i + 1;
    }
    None
}

/// Whether a snapshot may be sent to joining clients: a client only once it is
/// connected; a server (no client state) always.
pub fn snapshot_allowed(client_state: Option<ConnectionState>) -> (r: bool)
    ensures
        r == match client_state {
            Some(s) => s == ConnectionState::Connected,
            None => true,
        },
{
    match client_state {
        Some(s) => s == ConnectionState::Connected,
        None => true,
    }
}

/// What the client sends about one of its entities this tick, and the entity
/// afterwards. An entity waiting to spawn is announced with `Spawn` and becomes
/// `Alive`, if this client owns it; one owned by another client is skipped.
/// Any other entity is sent as an `Update` when it was never sent before or
/// when it moved enough since.
pub open spec fn client_update_plan(
    state: NetworkEntityState,
    owner_id: u64,
    my_id: u64,
    sent_before: bool,
    moved: bool,
) -> (Option<NetworkEntityAction>, NetworkEntityState) {
    if state == NetworkEntityState::Spawn {
        if owner_id != my_id {
            (None, state)
        } else {
            (Some(NetworkEntityAction::Spawn), NetworkEntityState::Alive)
        }
    } else if !sent_before || moved {
        (Some(NetworkEntityAction::Update), state)
    } else {
        (None, state)
    }
}

/// Decides, for one entity, what `send_client_updates` queues, and sets the
/// entity's state as `client_update_plan` says. `sent_before` tells whether a
/// transform was sent for it before, `moved` whether it moved enough since.
pub fn send_client_updates(entity: &mut NetworkEntity, my_id: u64, sent_before: bool, moved: bool) -> (r: Option<
    NetworkEntityAction,
>)
    ensures
        (r, final(entity).state) == client_update_plan(old(entity).state, old(entity).owner_id, my_id, sent_before, moved),
        final(entity).owner_id == old(entity).owner_id,
        final(entity).network_entity_id == old(entity).network_entity_id,
        final(entity).entity_type == old(entity).entity_type,
{
    if entity.state == NetworkEntityState::Spawn {
        if entity.owner_id != my_id {
            return None;
        }
        entity.state = NetworkEntityState::Alive;
        return Some(NetworkEntityAction::Spawn);
    }
    if !sent_before || moved {
        Some(NetworkEntityAction::Update)
    } else {
        None
    }
}

/// A message the server received, with the sender's client id as its payload
/// states it (only for `Update` messages, whose payload names a sender).
pub struct ServerMessage {
    pub client_id: u64,
    pub tag: NetworkAction,
    pub payload_client_id: u64,
}

/// What the server does with one received message.
#[derive(Clone, Copy, Debug, PartialEq, Eq, Structural)]
pub enum ServerMessageAction {
    /// An update from the client it claims to come from: applied.
    Accept,
    /// An update that claims another sender: the client is dropped.
    Disconnect,
    /// A client announced itself: it is sent the existing entities.
    Join,
    /// A client left: its entities go as the offline policy says.
    Exit,
}

/// What the server does with a message, as `ServerMessageAction` describes.
pub open spec fn server_message_action(m: ServerMessage) -> ServerMessageAction {
    match m.tag {
        NetworkAction::Update => if m.payload_client_id == m.client_id {
            ServerMessageAction::Accept
        } else {
            ServerMessageAction::Disconnect
        },
        NetworkAction::Join => ServerMessageAction::Join,
        NetworkAction::Exit => ServerMessageAction::Exit,
    }
}

/// Decides, for each received message in order, what the server does with it
/// (the decisions of `receive_updates` on the server side).
pub fn receive_updates(messages: &Vec<ServerMessage>) -> (r: Vec<ServerMessageAction>)
    ensures
        r@.len() == messages@.len(),
        forall|i: int| 0 <= i < messages@.len() ==> #[trigger] r@[i] == server_message_action(messages@[i]),
{
    let mut r: Vec<ServerMessageAction> = Vec::new();
    let mut i: usize = 0;
    while i < messages.len()
        invariant
            i <= messages.len(),
            r@.len() == i,
            forall|j: int| 0 <= j < i ==> #[trigger] r@[j] == server_message_action(messages@[j]),
        decreases messages.len() - i,
    {
        let m = &messages[i];
        let a = match m.tag {
            NetworkAction::Update => if m.payload_client_id == m.client_id {
                ServerMessageAction::Accept
            } else {
                ServerMessageAction::Disconnect
            },
            NetworkAction::Join => ServerMessageAction::Join,
            NetworkAction::Exit => ServerMessageAction::Exit,
        };
        r.push(a);
        i = i + 1;
    }
    r
}

/// The relays the server makes for received messages, in order: every
/// accepted update is sent on to every client but its sender, so each gives
/// the sender that the broadcast leaves out.
pub open spec fn relays(ms: Seq<ServerMessage>) -> Seq<u64>
    decreases ms.len(),
{
    if ms.len() == 0 {
        Seq::empty()
    } else if server_message_action(ms.last()) == ServerMessageAction::Accept {
        relays(ms.drop_last()).push(ms.last().client_id)
    } else {
        relays(ms.drop_last())
    }
}

/// For each accepted update, in order, the client that the relay to all
/// others leaves out: its sender, as `relays` says.
pub fn relay_excludes(messages: &Vec<ServerMessage>) -> (r: Vec<u64>)
    ensures
        r@ == relays(messages@),
{
    let mut r: Vec<u64> = Vec::new();
    let mut i: usize = 0;
    while i < messages.len()
        invariant
            i <= messages@.len(),
            r@ == relays(messages@.subrange(0, i as int)),
        decreases messages.len() - i,
    {
        assert(messages@.subrange(0, i + 1).drop_last() =~= messages@.subrange(0, i as int));
        assert(messages@.subrange(0, i + 1).last() == messages@[i as int]);
        let m = &messages[i];
        let accepted = match m.tag {
            NetworkAction::Update => m.payload_client_id == m.client_id,
            _ => false,
        };
        if accepted {
            r.push(m.client_id);
        }
        i = i + 1;
    }
    assert(messages@.subrange(0, messages@.len() as int) == messages@);
    r
}

/// What a network error means for the connection, as far as the engine tells
/// errors apart.
#[derive(Clone, Copy, Debug, PartialEq, Eq, Structural)]
pub enum NetErrorKind {
    /// The client has no connection yet.
    ClientNotConnected,
    /// The connection was closed.
    Disconnected,
    /// The socket would have blocked.
    WouldBlock,
    /// The socket call was interrupted.
    Interrupted,
    /// Any other error.
    Other,
}

/// Whether an error only means the connection is not ready (not connected,
/// disconnected, or a socket that would block or was interrupted), as opposed
/// to a failure.
pub fn is_not_ready(kind: NetErrorKind) -> (r: bool)
    ensures
        r == (kind != NetErrorKind::Other),
{
    match kind {
        NetErrorKind::Other => false,
        _ => true,
    }
}

/// What an error of the transport pump leads to.
#[derive(Clone, Copy, Debug, PartialEq, Eq, Structural)]
pub enum PumpOutcome {
    /// The pump fails with the error.
    Fail,
    /// The client is marked disconnected, with the error as the reason.
    Disconnect,
    /// The error is passed over.
    Ignore,
}

/// What an error of a transport update or flush leads to: a failure when it
/// is not a connection that is merely not ready; otherwise a client marks
/// itself disconnected and a server passes over it.
pub fn pump_error_outcome(on_client: bool, kind: NetErrorKind) -> (r: PumpOutcome)
    ensures
        r == (if kind == NetErrorKind::Other {
            PumpOutcome::Fail
        } else if on_client {
            PumpOutcome::Disconnect
        } else {
            PumpOutcome::Ignore
        }),
{
    if !is_not_ready(kind) {
        PumpOutcome::Fail
    } else if on_client {
        PumpOutcome::Disconnect
    } else {
        PumpOutcome::Ignore
    }
}

/// What to do with one received entity update.
#[derive(Clone, Copy, Debug, PartialEq, Eq, Structural)]
pub enum EntityUpdatePlan {
    /// Run the spawn hooks for a new entity.
    Spawn,
    /// Refresh the entity at this position from the update.
    Refresh(usize),
    /// Run the despawn hooks.
    Despawn,
    /// Set the transform of the entity at this position.
    SetTransform(usize),
    /// Nothing to do.
    Skip,
}

/// What a received entity update does, given the first entity with the
/// update's network id (if any) and whether the update carries a transform.
/// A server spawns every announced entity; a client refreshes one it already
/// has. An update moves the entity it names, if it carries a transform.
pub open spec fn entity_update_plan(
    on_server: bool,
    action: NetworkEntityAction,
    existing: Option<usize>,
    has_transform: bool,
) -> EntityUpdatePlan {
    match action {
        NetworkEntityAction::Spawn => if on_server {
            EntityUpdatePlan::Spawn
        } else {
            match existing {
                Some(i) => EntityUpdatePlan::Refresh(i),
                None => EntityUpdatePlan::Spawn,
            }
        },
        NetworkEntityAction::Despawn => EntityUpdatePlan::Despawn,
        NetworkEntityAction::Update => match existing {
            Some(i) => if has_transform {
                EntityUpdatePlan::SetTransform(i)
            } else {
                EntityUpdatePlan::Skip
            },
            None => EntityUpdatePlan::Skip,
        },
    }
}

/// Decides what a received entity update does on this side, as
/// `entity_update_plan` says; the entity is looked up by network id.
pub fn plan_entity_update(
    on_server: bool,
    action: NetworkEntityAction,
    entities: &Vec<NetworkEntity>,
    network_entity_id: u64,
    has_transform: bool,
) -> (r: EntityUpdatePlan)
    ensures
        exists|existing: Option<usize>|
            {
                &&& r == entity_update_plan(on_server, action, existing, has_transform)
                &&& match existing {
                    Some(i) => i < entities@.len() && entities@[i as int].network_entity_id == network_entity_id
                        && forall|j: int| 0 <= j < i ==> entities@[j].network_entity_id != network_entity_id,
                    None => forall|j: int|
                        0 <= j < entities@.len() ==> entities@[j].network_entity_id != network_entity_id,
                }
            },        action == NetworkEntityAction::Despawn ==> r == EntityUpdatePlan::Despawn,
{
    let existing = run_update_for_existing_entity(entities, network_entity_id);
    let r = match action {
        NetworkEntityAction::Spawn => if on_server {
            EntityUpdatePlan::Spawn
        } else {
            match existing {
                Some(i) => EntityUpdatePlan::Refresh(i),
                None => EntityUpdatePlan::Spawn,
            }
        },
        NetworkEntityAction::Despawn => EntityUpdatePlan::Despawn,
        NetworkEntityAction::Update => match existing {
            Some(i) => if has_transform {
                EntityUpdatePlan::SetTransform(i)
            } else {
                EntityUpdatePlan::Skip
            },
            None => EntityUpdatePlan::Skip,
        },
    };
    assert(r == entity_update_plan(on_server, action, existing, has_transform));
    r
}

/// A client that loses its connection again and again waits longer each
/// time, but never more than `MAX_BACKOFF_MS`.
pub proof fn lemma_backoff_bounded(b: u64)
    ensures
        next_backoff(b) <= MAX_BACKOFF_MS,
        b <= next_backoff(b) || next_backoff(b) == MAX_BACKOFF_MS,
{
}

/// A despawn is carried out on either side: whatever the side, the entity
/// found and the transform carried, an update that despawns is planned as a
/// despawn, and no other action is.
pub proof fn lemma_despawn_always_runs(on_server: bool, existing: Option<usize>, has_transform: bool, action: NetworkEntityAction)
    ensures
        entity_update_plan(on_server, NetworkEntityAction::Despawn, existing, has_transform) == EntityUpdatePlan::Despawn,
        action != NetworkEntityAction::Despawn ==> entity_update_plan(on_server, action, existing, has_transform)
            != EntityUpdatePlan::Despawn,
{
}

} // verus!
