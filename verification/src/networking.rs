//! The network wire format, and the message traffic between a server and its
//! clients over `renet`.
//!
//! A message on the wire is one tag byte (the `NetworkAction`) followed by the
//! payload. Opening sockets is left to the caller; this module makes the
//! connections over the caller's transports, drives them, and frames, sends,
//! receives and checks messages.
use renet::{ConnectionConfig, RenetClient, RenetServer, ServerEvent};
use renet_netcode::{NetcodeClientTransport, NetcodeServerTransport, NetcodeTransportError};
use std::time::Duration;
use vstd::prelude::*;

verus! {

/// The kind of a message.
#[derive(Clone, Copy, Debug, PartialEq, Eq)]
pub enum NetworkAction {
    Update,
    Join,
    Exit,
}

/// The tag byte of each action.
pub open spec fn action_code(a: NetworkAction) -> u8 {
    match a {
        NetworkAction::Update => 0,
        NetworkAction::Join => 1,
        NetworkAction::Exit => 2,
    }
}

/// The action a tag byte stands for, if any.
pub open spec fn action_of_code(b: u8) -> Option<NetworkAction> {
    if b == 0 {
        Some(NetworkAction::Update)
    } else if b == 1 {
        Some(NetworkAction::Join)
    } else if b == 2 {
        Some(NetworkAction::Exit)
    } else {
        None
    }
}

/// Why bytes from the wire were refused.
#[derive(Clone, Copy, Debug, PartialEq, Eq)]
pub enum WireError {
    /// The message held no bytes at all.
    EmptyMessage,
    /// The tag byte names no action.
    InvalidNetworkAction(u8),
}

impl NetworkAction {
    /// The tag byte of the action.
    pub fn to_u8(self) -> (b: u8)
        ensures
            b == action_code(self),
    {
        match self {
            NetworkAction::Update => 0,
            NetworkAction::Join => 1,
            NetworkAction::Exit => 2,
        }
    }

    /// The action a tag byte stands for.
    pub fn try_from(value: u8) -> (r: Result<NetworkAction, WireError>)
        ensures
            r == match action_of_code(value) {
                Some(a) => Ok(a),
                None => Err::<NetworkAction, WireError>(WireError::InvalidNetworkAction(value)),
            },
    {
        match value {
            0 => Ok(NetworkAction::Update),
            1 => Ok(NetworkAction::Join),
            2 => Ok(NetworkAction::Exit),
            _ => Err(WireError::InvalidNetworkAction(value)),
        }
    }
}

/// A tag and its payload.
#[derive(Clone, Debug)]
pub struct NetworkPacket {
    pub tag: NetworkAction,
    pub data: Vec<u8>,
}

/// Why a client left, as it announces it in the payload of an `Exit` message.
#[derive(Clone, Debug)]
pub struct ExitNotice {
    pub reason: String,
    pub when_ms: u64,
}

/// The channel that carries every message: `DefaultChannel::ReliableOrdered as u8`,
/// which is 1, the channel that renet's default configuration makes reliable
/// but unordered; the messages are delivered, not necessarily in order.
pub const RELIABLE_CHANNEL_ID: u8 = 1u8;

/// The channel of unreliable traffic (`DefaultChannel::Unreliable as u8`).
pub const UNRELIABLE_CHANNEL_ID: u8 = 0u8;

/// The bytes of a packet on the wire: its tag byte, then its payload.
pub open spec fn wire_bytes(tag: NetworkAction, data: Seq<u8>) -> Seq<u8> {
    seq![action_code(tag)] + data
}

/// What the bytes of one message decode to.
pub open spec fn wire_decode(buf: Seq<u8>) -> Result<(NetworkAction, Seq<u8>), WireError> {
    if buf.len() == 0 {
        Err(WireError::EmptyMessage)
    } else {
        match action_of_code(buf[0]) {
            Some(a) => Ok((a, buf.drop_first())),
            None => Err(WireError::InvalidNetworkAction(buf[0])),
        }
    }
}

/// Frames a packet for the wire.
pub fn encode_wire(msg: &NetworkPacket) -> (r: Vec<u8>)
    ensures
        r@ == wire_bytes(msg.tag, msg.data@),
{
    let mut bytes: Vec<u8> = Vec::with_capacity(1);
    bytes.push(msg.tag.to_u8());
    let mut i: usize = 0;
    while i < msg.data.len()
        invariant
            0 <= i <= msg.data.len(),
            bytes@ == seq![action_code(msg.tag)] + msg.data@.subrange(0, i as int),
        decreases msg.data.len() - i,
    {
        bytes.push(msg.data[i]);
        assert(msg.data@.subrange(0, i + 1) == msg.data@.subrange(0, i as int).push(msg.data@[i as int]));
        i = i + 1;
    }
    assert(msg.data@.subrange(0, msg.data@.len() as int) == msg.data@);
    bytes
}

/// Reads a packet from the bytes of one message.
pub fn decode_wire(buf: &[u8]) -> (r: Result<NetworkPacket, WireError>)
    ensures
        match (r, wire_decode(buf@)) {
            (Ok(p), Ok((a, d))) => p.tag == a && p.data@ == d,
            (Err(e), Err(f)) => e == f,
            _ => false,
        },
{
    if buf.len() == 0 {
        return Err(WireError::EmptyMessage);
    }
    let tag = match NetworkAction::try_from(buf[0]) {
        Ok(t) => t,
        Err(e) => return Err(e),
    };
    let mut data: Vec<u8> = Vec::new();
    let mut i: usize = 1;
    while i < buf.len()
        invariant
            1 <= i <= buf.len(),
            data@ == buf@.subrange(1, i as int),
        decreases buf.len() - i,
    {
        data.push(buf[i]);
        assert(buf@.subrange(1, i + 1) == buf@.subrange(1, i as int).push(buf@[i as int]));
        i = i + 1;
    }
    assert(buf@.subrange(1, buf@.len() as int) == buf@.drop_first());
    Ok(NetworkPacket { tag, data })
}

/// Decoding the bytes of a packet gives the packet back.
pub proof fn lemma_wire_roundtrip(tag: NetworkAction, data: Seq<u8>)
    ensures
        wire_decode(wire_bytes(tag, data)) == Ok::<(NetworkAction, Seq<u8>), WireError>((tag, data)),
{
    assert(wire_bytes(tag, data).drop_first() =~= data);
}

/// Bytes that decode are the framing of what they decode to.
pub proof fn lemma_wire_decode_frames(buf: Seq<u8>)
    requires
        wire_decode(buf) is Ok,
    ensures
        wire_bytes(wire_decode(buf)->Ok_0.0, wire_decode(buf)->Ok_0.1) == buf,
{
    assert(wire_bytes(wire_decode(buf)->Ok_0.0, wire_decode(buf)->Ok_0.1) =~= buf);
}

/// The packets that a run of received messages holds: empty messages are
/// skipped, the others decoded in order, and the first that does not decode
/// gives the error.
pub open spec fn inbox_decode(msgs: Seq<Seq<u8>>) -> Result<Seq<(NetworkAction, Seq<u8>)>, WireError>
    decreases msgs.len(),
{
    if msgs.len() == 0 {
        Ok(Seq::empty())
    } else {
        match inbox_decode(msgs.drop_last()) {
            Err(e) => Err(e),
            Ok(ps) => if msgs.last().len() == 0 {
                Ok(ps)
            } else {
                match wire_decode(msgs.last()) {
                    Ok(p) => Ok(ps.push(p)),
                    Err(e) => Err(e),
                }
            },
        }
    }
}

/// The tag and payload of each packet.
pub open spec fn packets_view(ps: Seq<NetworkPacket>) -> Seq<(NetworkAction, Seq<u8>)> {
    Seq::new(ps.len(), |i: int| (ps[i].tag, ps[i].data@))
}

/// Decodes a run of received messages, as `inbox_decode` says.
pub fn decode_inbox(msgs: &Vec<Vec<u8>>) -> (r: Result<Vec<NetworkPacket>, WireError>)
    ensures
        match (r, inbox_decode(msgs_view(msgs@))) {
            (Ok(ps), Ok(qs)) => packets_view(ps@) == qs,
            (Err(e), Err(f)) => e == f,
            _ => false,
        },
{
    let ghost all = msgs_view(msgs@);
    let mut out: Vec<NetworkPacket> = Vec::new();
    let mut i: usize = 0;
    assert(all.subrange(0, 0) =~= Seq::<Seq<u8>>::empty());
    assert(packets_view(out@) =~= Seq::<(NetworkAction, Seq<u8>)>::empty());
    while i < msgs.len()
        invariant
            0 <= i <= msgs.len(),
            all == msgs_view(msgs@),
            inbox_decode(all.subrange(0, i as int)) == Ok::<Seq<(NetworkAction, Seq<u8>)>, WireError>(
                packets_view(out@),
            ),
        decreases msgs.len() - i,
    {
        let ghost before = out@;
        proof {
            assert(all.subrange(0, i + 1).drop_last() == all.subrange(0, i as int));
            assert(all.subrange(0, i + 1).last() == msgs@[i as int]@);
        }
        if msgs[i].len() != 0 {
            match decode_wire(msgs[i].as_slice()) {
                Ok(p) => {
                    out.push(p);
                    assert(packets_view(out@) =~= packets_view(before).push((p.tag, p.data@)));
                },
                Err(e) => {
                    proof {
                        let k = i + 1;
                        assert(inbox_decode(all.subrange(0, k as int)) == Err::<
                            Seq<(NetworkAction, Seq<u8>)>,
                            WireError,
                        >(e));
                        lemma_inbox_err_persists(all, k as int, e);
                    }
                    return Err(e);
                },
            }
        }
        i = i + 1;
    }
    assert(all.subrange(0, msgs@.len() as int) == all);
    Ok(out)
}

proof fn lemma_inbox_err_persists(all: Seq<Seq<u8>>, k: int, e: WireError)
    requires
        0 <= k <= all.len(),
        inbox_decode(all.subrange(0, k)) == Err::<Seq<(NetworkAction, Seq<u8>)>, WireError>(e),
    ensures
        inbox_decode(all) == Err::<Seq<(NetworkAction, Seq<u8>)>, WireError>(e),
    decreases all.len() - k,
{
    if k < all.len() {
        assert(all.subrange(0, k + 1).drop_last() == all.subrange(0, k));
        lemma_inbox_err_persists(all, k + 1, e);
    } else {
        assert(all.subrange(0, k) == all);
    }
}

#[verifier::external_type_specification]
#[verifier::external_body]
pub struct ExRenetServer(RenetServer);

#[verifier::external_type_specification]
#[verifier::external_body]
pub struct ExRenetClient(RenetClient);

#[verifier::external_type_specification]
#[verifier::external_body]
pub struct ExNetcodeServerTransport(NetcodeServerTransport);

#[verifier::external_type_specification]
#[verifier::external_body]
pub struct ExNetcodeClientTransport(NetcodeClientTransport);

#[verifier::external_type_specification]
#[verifier::external_body]
pub struct ExNetcodeTransportError(NetcodeTransportError);

/// The server side: the `renet` connection state and its UDP transport. The
/// connection state is only ever made by `NetworkServer::new`, with renet's
/// default channels, so every channel this module uses exists on it.
pub struct NetworkServer {
    server: RenetServer,
    transport: NetcodeServerTransport,
}

/// The client side: the `renet` connection state and its UDP transport. The
/// connection state is only ever made by `NetworkClient::new`, with renet's
/// default channels.
pub struct NetworkClient {
    client: RenetClient,
    transport: NetcodeClientTransport,
}

/// A change in the set of connected clients.
pub enum ConnectionEvent {
    Connected(u64),
    Disconnected(u64),
}

/// `RenetServer::new` with `ConnectionConfig::default()`: a server whose
/// channels are renet's default ones (`DefaultChannel::config()`: 0, 1 and 2).
#[verifier::external_body]
fn renet_server_new() -> (r: RenetServer) {
    RenetServer::new(ConnectionConfig::default())
}

/// `RenetClient::new` with `ConnectionConfig::default()`: a client with
/// renet's default channels.
#[verifier::external_body]
fn renet_client_new() -> (r: RenetClient) {
    RenetClient::new(ConnectionConfig::default())
}

/// `RenetServer::update`: advances the server's connections by `micros`
/// microseconds.
#[verifier::external_body]
fn server_tick(net: &mut NetworkServer, micros: u64) {
    net.server.update(Duration::from_micros(micros))
}

/// `NetcodeServerTransport::update`: advances the transport by `micros`
/// microseconds, receiving what arrived on the socket. Whether it fails
/// depends on the socket; nothing is claimed.
#[verifier::external_body]
fn server_transport_update(net: &mut NetworkServer, micros: u64) -> (r: Result<(), NetcodeTransportError>) {
    net.transport.update(Duration::from_micros(micros), &mut net.server)
}

/// `NetcodeServerTransport::send_packets`: sends what the server has queued.
#[verifier::external_body]
fn server_transport_send(net: &mut NetworkServer) {
    net.transport.send_packets(&mut net.server)
}

/// `RenetClient::update`: advances the client's connection by `micros`
/// microseconds.
#[verifier::external_body]
fn client_tick(net: &mut NetworkClient, micros: u64) {
    net.client.update(Duration::from_micros(micros))
}

/// `NetcodeClientTransport::update`: advances the transport by `micros`
/// microseconds, receiving what arrived on the socket. Whether it fails
/// depends on the socket; nothing is claimed.
#[verifier::external_body]
fn client_transport_update(net: &mut NetworkClient, micros: u64) -> (r: Result<(), NetcodeTransportError>) {
    net.transport.update(Duration::from_micros(micros), &mut net.client)
}

/// `NetcodeClientTransport::send_packets`: sends what the client has queued.
/// Whether it fails depends on the socket; nothing is claimed.
#[verifier::external_body]
fn client_transport_send(net: &mut NetworkClient) -> (r: Result<(), NetcodeTransportError>) {
    net.transport.send_packets(&mut net.client)
}

/// `NetcodeClientTransport::disconnect`: closes the client's connection.
#[verifier::external_body]
fn client_transport_disconnect(net: &mut NetworkClient) {
    net.transport.disconnect()
}

impl NetworkServer {
    /// A server over the given transport, with renet's default channels.
    pub fn new(transport: NetcodeServerTransport) -> (r: Self) {
        NetworkServer { server: renet_server_new(), transport }
    }

    /// Advances the connections and the transport by `micros` microseconds;
    /// an error is the transport's.
    pub fn update(&mut self, micros: u64) -> (r: Result<(), NetcodeTransportError>) {
        server_tick(self, micros);
        server_transport_update(self, micros)
    }

    /// Sends what the server has queued.
    pub fn flush(&mut self) {
        server_transport_send(self)
    }
}

impl NetworkClient {
    /// A client over the given transport, with renet's default channels.
    pub fn new(transport: NetcodeClientTransport) -> (r: Self) {
        NetworkClient { client: renet_client_new(), transport }
    }

    /// Advances the connection and the transport by `micros` microseconds; an
    /// error is the transport's.
    pub fn update(&mut self, micros: u64) -> (r: Result<(), NetcodeTransportError>) {
        client_tick(self, micros);
        client_transport_update(self, micros)
    }

    /// Sends what the client has queued; an error is the transport's.
    pub fn flush(&mut self) -> (r: Result<(), NetcodeTransportError>) {
        client_transport_send(self)
    }

    /// Closes the connection.
    pub fn disconnect(&mut self) {
        client_transport_disconnect(self)
    }
}

/// `RenetServer::get_event`: the next connection event queued by the server, if
/// any. Which event comes depends on the traffic so far; nothing is claimed of it.
#[verifier::external_body]
fn server_next_event(net: &mut NetworkServer) -> (r: Option<ConnectionEvent>) {
    match net.server.get_event() {
        Some(ServerEvent::ClientConnected { client_id }) => Some(ConnectionEvent::Connected(client_id)),
        Some(ServerEvent::ClientDisconnected { client_id, .. }) => Some(
            ConnectionEvent::Disconnected(client_id),
        ),
        None => None,
    }
}

/// `RenetServer::clients_id`: the ids of the connected clients, in the server's
/// order. Which clients are connected depends on the traffic; nothing is claimed.
#[verifier::external_body]
fn server_client_ids(net: &NetworkServer) -> (r: Vec<u64>) {
    net.server.clients_id()
}

/// `RenetServer::receive_message` on the engine's message channel: the next
/// message that the client sent, as bytes. What arrives depends on the
/// traffic; nothing is claimed. The server was made by `NetworkServer::new`
/// with renet's default channels, which include `RELIABLE_CHANNEL_ID`, so
/// renet's panic on an unknown channel cannot occur.
#[verifier::external_body]
fn server_receive(net: &mut NetworkServer, client_id: u64) -> (r: Option<Vec<u8>>) {
    net.server.receive_message(client_id, RELIABLE_CHANNEL_ID).map(|b| b.to_vec())
}

/// `RenetServer::send_message` on the engine's message channel (one of the
/// default channels the server was made with): queues the bytes for one client.
#[verifier::external_body]
fn server_send(net: &mut NetworkServer, client_id: u64, bytes: Vec<u8>) {
    net.server.send_message(client_id, RELIABLE_CHANNEL_ID, bytes)
}

/// `RenetServer::broadcast_message` on the engine's message channel (one of
/// the default channels the server was made with): queues the bytes for every
/// client.
#[verifier::external_body]
fn server_send_all(net: &mut NetworkServer, bytes: Vec<u8>) {
    net.server.broadcast_message(RELIABLE_CHANNEL_ID, bytes)
}

/// `RenetServer::broadcast_message_except` on the engine's message channel
/// (one of the default channels the server was made with): queues the bytes
/// for every client but one.
#[verifier::external_body]
fn server_send_all_except(net: &mut NetworkServer, client_id: u64, bytes: Vec<u8>) {
    net.server.broadcast_message_except(client_id, RELIABLE_CHANNEL_ID, bytes)
}

/// `RenetServer::disconnect`: closes the connection of one client.
#[verifier::external_body]
fn server_drop_client(net: &mut NetworkServer, client_id: u64) {
    net.server.disconnect(client_id)
}

/// `RenetClient::receive_message` on the engine's message channel (one of the
/// default channels the client was made with): the next message from the
/// server, as bytes. What arrives depends on the traffic; nothing is claimed.
#[verifier::external_body]
fn client_receive(net: &mut NetworkClient) -> (r: Option<Vec<u8>>) {
    net.client.receive_message(RELIABLE_CHANNEL_ID).map(|b| b.to_vec())
}

/// `RenetClient::send_message` on the engine's message channel (one of the
/// default channels the client was made with): queues the bytes for the server.
#[verifier::external_body]
fn client_send_bytes(net: &mut NetworkClient, bytes: Vec<u8>) {
    net.client.send_message(RELIABLE_CHANNEL_ID, bytes)
}

/// Whether an error is that of a tag byte that names no action, the one way a
/// non-empty message can fail to decode.
pub open spec fn refused_tag(e: WireError) -> bool {
    e matches WireError::InvalidNetworkAction(b) && action_of_code(b) is None
}

/// The bytes of each message.
pub open spec fn msgs_view(msgs: Seq<Vec<u8>>) -> Seq<Seq<u8>> {
    Seq::new(msgs.len(), |i: int| msgs[i]@)
}

/// The packet a connection event stands for: `Join` for a client that
/// connected, `Exit` for one that disconnected, with no payload.
pub open spec fn event_packet(e: ConnectionEvent) -> (u64, NetworkAction, Seq<u8>) {
    match e {
        ConnectionEvent::Connected(c) => (c, NetworkAction::Join, Seq::empty()),
        ConnectionEvent::Disconnected(c) => (c, NetworkAction::Exit, Seq::empty()),
    }
}

/// The packets of one client, each with the client's id.
pub open spec fn tagged(cid: u64, ps: Seq<(NetworkAction, Seq<u8>)>) -> Seq<(u64, NetworkAction, Seq<u8>)> {
    Seq::new(ps.len(), |i: int| (cid, ps[i].0, ps[i].1))
}

/// The packets of the clients in turn, each client's messages decoded as
/// `inbox_decode` says and tagged with its id; the first error stops it.
pub open spec fn clients_inbox(per_client: Seq<(u64, Seq<Seq<u8>>)>) -> Result<
    Seq<(u64, NetworkAction, Seq<u8>)>,
    WireError,
>
    decreases per_client.len(),
{
    if per_client.len() == 0 {
        Ok(Seq::empty())
    } else {
        match clients_inbox(per_client.drop_last()) {
            Err(e) => Err(e),
            Ok(ps) => match inbox_decode(per_client.last().1) {
                Err(e) => Err(e),
                Ok(qs) => Ok(ps + tagged(per_client.last().0, qs)),
            },
        }
    }
}

/// What the server received: a packet per connection event, in order, then
/// the packets of each client in turn, or the first decoding error.
pub open spec fn server_inbox_spec(events: Seq<ConnectionEvent>, per_client: Seq<(u64, Seq<Seq<u8>>)>) -> Result<
    Seq<(u64, NetworkAction, Seq<u8>)>,
    WireError,
> {
    match clients_inbox(per_client) {
        Err(e) => Err(e),
        Ok(ps) => Ok(events.map_values(|e: ConnectionEvent| event_packet(e)) + ps),
    }
}

/// The sender, tag and payload of each received packet.
pub open spec fn inbox_view(v: Seq<(u64, NetworkPacket)>) -> Seq<(u64, NetworkAction, Seq<u8>)> {
    Seq::new(v.len(), |i: int| (v[i].0, v[i].1.tag, v[i].1.data@))
}

/// The messages of each client, by client.
pub open spec fn per_client_view(pc: Seq<(u64, Vec<Vec<u8>>)>) -> Seq<(u64, Seq<Seq<u8>>)> {
    Seq::new(pc.len(), |i: int| (pc[i].0, msgs_view(pc[i].1@)))
}

/// Every error of `inbox_decode` is a refused tag byte.
proof fn lemma_inbox_error_is_refused_tag(msgs: Seq<Seq<u8>>)
    ensures
        inbox_decode(msgs) matches Err(e) ==> refused_tag(e),
    decreases msgs.len(),
{
    if msgs.len() > 0 {
        lemma_inbox_error_is_refused_tag(msgs.drop_last());
    }
}

/// Every error of `clients_inbox` is a refused tag byte.
proof fn lemma_clients_error_is_refused_tag(pc: Seq<(u64, Seq<Seq<u8>>)>)
    ensures
        clients_inbox(pc) matches Err(e) ==> refused_tag(e),
    decreases pc.len(),
{
    if pc.len() > 0 {
        lemma_clients_error_is_refused_tag(pc.drop_last());
        lemma_inbox_error_is_refused_tag(pc.last().1);
    }
}

/// Builds what the server received from the connection events and the
/// messages of each client, as `server_inbox_spec` says: a `Join` or `Exit`
/// packet per event, in order, then each client's decoded messages with its
/// id, or the first decoding error.
pub fn server_inbox(events: &Vec<ConnectionEvent>, per_client: &Vec<(u64, Vec<Vec<u8>>)>) -> (r: Result<
    Vec<(u64, NetworkPacket)>,
    WireError,
>)
    ensures
        match (r, server_inbox_spec(events@, per_client_view(per_client@))) {
            (Ok(v), Ok(s)) => inbox_view(v@) == s,
            (Err(e), Err(f)) => e == f,
            _ => false,
        },
{
    let ghost pcv = per_client_view(per_client@);
    let mut inbox: Vec<(u64, NetworkPacket)> = Vec::new();
    let mut i: usize = 0;
    while i < events.len()
        invariant
            i <= events@.len(),
            inbox_view(inbox@) == events@.subrange(0, i as int).map_values(|e: ConnectionEvent| event_packet(e)),
        decreases events.len() - i,
    {
        let ghost before = inbox@;
        match &events[i] {
            ConnectionEvent::Connected(c) => {
                inbox.push((*c, NetworkPacket { tag: NetworkAction::Join, data: Vec::new() }));
            },
            ConnectionEvent::Disconnected(c) => {
                inbox.push((*c, NetworkPacket { tag: NetworkAction::Exit, data: Vec::new() }));
            },
        }
        assert(inbox_view(inbox@) =~= inbox_view(before).push(event_packet(events@[i as int])));
        assert(events@.subrange(0, i + 1).map_values(|e: ConnectionEvent| event_packet(e)) =~= events@.subrange(
            0,
            i as int,
        ).map_values(|e: ConnectionEvent| event_packet(e)).push(event_packet(events@[i as int])));
        i = i + 1;
    }
    assert(events@.subrange(0, events@.len() as int) == events@);
    let ghost head = inbox_view(inbox@);
    let mut k: usize = 0;
    while k < per_client.len()
        invariant
            k <= per_client@.len(),
            pcv == per_client_view(per_client@),
            head == events@.map_values(|e: ConnectionEvent| event_packet(e)),
            clients_inbox(pcv.subrange(0, k as int)) matches Ok(ps) && inbox_view(inbox@) == head + ps,
        decreases per_client.len() - k,
    {
        let ghost prev = inbox_view(inbox@);
        let ghost sub = pcv.subrange(0, k + 1);
        assert(sub.drop_last() =~= pcv.subrange(0, k as int));
        assert(sub.last() == pcv[k as int]);
        let cid = per_client[k].0;
        match decode_inbox(&per_client[k].1) {
            Err(e) => {
                proof {
                    lemma_clients_err_persists(pcv, k + 1, e);
                }
                return Err(e);
            },
            Ok(ps) => {
                let mut j: usize = 0;
                let ghost base = inbox@;
                while j < ps.len()
                    invariant
                        j <= ps@.len(),
                        inbox@.len() == base.len() + j,
                        inbox_view(inbox@) == inbox_view(base) + tagged(cid, packets_view(ps@.subrange(0, j as int))),
                    decreases ps.len() - j,
                {
                    let ghost before = inbox@;
                    let p = NetworkPacket { tag: ps[j].tag, data: ps[j].data.clone() };
                    assert(p.data@ == ps@[j as int].data@);
                    inbox.push((cid, p));
                    assert(inbox_view(inbox@) =~= inbox_view(before).push((cid, ps@[j as int].tag, ps@[j as int].data@)));
                    assert(packets_view(ps@.subrange(0, j + 1)) =~= packets_view(ps@.subrange(0, j as int)).push(
                        (ps@[j as int].tag, ps@[j as int].data@),
                    ));
                    assert(inbox_view(inbox@) =~= inbox_view(base) + tagged(
                        cid,
                        packets_view(ps@.subrange(0, j + 1)),
                    ));
                    j = j + 1;
                }
                assert(ps@.subrange(0, ps@.len() as int) == ps@);
                assert(per_client@[k as int].1@ == per_client[k as int].1@);
                assert(msgs_view(per_client@[k as int].1@) == pcv[k as int].1);
                proof {
                    let old_ps = clients_inbox(pcv.subrange(0, k as int))->Ok_0;
                    assert(clients_inbox(sub) == Ok::<Seq<(u64, NetworkAction, Seq<u8>)>, WireError>(
                        old_ps + tagged(cid, packets_view(ps@)),
                    ));
                    assert(inbox_view(inbox@) =~= head + (old_ps + tagged(cid, packets_view(ps@))));
                }
            },
        }
        k = k + 1;
    }
    assert(pcv.subrange(0, per_client@.len() as int) == pcv);
    Ok(inbox)
}

proof fn lemma_clients_err_persists(all: Seq<(u64, Seq<Seq<u8>>)>, k: int, e: WireError)
    requires
        0 <= k <= all.len(),
        clients_inbox(all.subrange(0, k)) == Err::<Seq<(u64, NetworkAction, Seq<u8>)>, WireError>(e),
    ensures
        clients_inbox(all) == Err::<Seq<(u64, NetworkAction, Seq<u8>)>, WireError>(e),
    decreases all.len() - k,
{
    if k < all.len() {
        assert(all.subrange(0, k + 1).drop_last() == all.subrange(0, k));
        lemma_clients_err_persists(all, k + 1, e);
    } else {
        assert(all.subrange(0, k) == all);
    }
}

/// Whether bytes are a message that does not decode: not empty, and with a
/// tag byte that names no action.
fn undecodable(bytes: &Vec<u8>) -> (r: bool)
    ensures
        r == (bytes@.len() > 0 && wire_decode(bytes@) is Err),
{
    bytes.len() > 0 && NetworkAction::try_from(bytes[0]).is_err()
}

/// Collects what the server received since the last call: a `Join` packet for
/// each client that connected and an `Exit` packet for each that disconnected,
/// then the messages of each connected client in turn. Empty messages are
/// skipped; the first message that does not decode gives the error, which is
/// always that of a refused tag byte, and nothing after it is taken from the
/// connections. Which events and messages arrive depends on the traffic; what
/// is made of them is what `server_inbox` makes.
pub fn server_get_events(net: &mut NetworkServer) -> (r: Result<Vec<(u64, NetworkPacket)>, WireError>)
    ensures
        exists|events: Seq<ConnectionEvent>, per_client: Seq<(u64, Seq<Seq<u8>>)>|
            match (r, #[trigger] server_inbox_spec(events, per_client)) {
                (Ok(v), Ok(s)) => inbox_view(v@) == s,
                (Err(e), Err(f)) => e == f,
                _ => false,
            },
        r matches Err(e) ==> refused_tag(e),
{
    let mut events: Vec<ConnectionEvent> = Vec::new();
    let mut draining = true;
    while draining && events.len() < usize::MAX
        decreases usize::MAX - events.len(), (if draining { 1int } else { 0int }),
    {
        match server_next_event(net) {
            Some(e) => events.push(e),
            None => {
                draining = false;
            },
        }
    }
    let ids = server_client_ids(net);
    let mut per_client: Vec<(u64, Vec<Vec<u8>>)> = Vec::new();
    let mut failed = false;
    let mut idx: usize = 0;
    while idx < ids.len() && !failed
        decreases ids.len() - idx,
    {
        let cid = ids[idx];
        let mut msgs: Vec<Vec<u8>> = Vec::new();
        while msgs.len() < usize::MAX && !failed
            decreases usize::MAX - msgs.len(), (if failed { 0int } else { 1int }),
        {
            match server_receive(net, cid) {
                Some(bytes) => {
                    failed = undecodable(&bytes);
                    msgs.push(bytes);
                },
                None => break,
            }
        }
        per_client.push((cid, msgs));
        idx = idx + 1;
    }
    let r = server_inbox(&events, &per_client);
    proof {
        lemma_clients_error_is_refused_tag(per_client_view(per_client@));
        assert(server_inbox_spec(events@, per_client_view(per_client@)) == server_inbox_spec(
            events@,
            per_client_view(per_client@),
        ));
    }
    r
}

/// Collects the messages the client received since the last call, in order.
/// Empty messages are skipped; the first message that does not decode gives
/// the error, which is always that of a refused tag byte, and nothing after it
/// is taken from the connection. Which messages arrive depends on the traffic;
/// what is made of them is what `decode_inbox` makes.
pub fn client_get_events(net: &mut NetworkClient) -> (r: Result<Vec<NetworkPacket>, WireError>)
    ensures
        exists|msgs: Seq<Seq<u8>>|
            match (r, #[trigger] inbox_decode(msgs)) {
                (Ok(ps), Ok(qs)) => packets_view(ps@) == qs,
                (Err(e), Err(f)) => e == f,
                _ => false,
            },
        r matches Err(e) ==> refused_tag(e),
{
    let mut msgs: Vec<Vec<u8>> = Vec::new();
    let mut failed = false;
    while msgs.len() < usize::MAX && !failed
        decreases usize::MAX - msgs.len(), (if failed { 0int } else { 1int }),
    {
        match client_receive(net) {
            Some(bytes) => {
                failed = undecodable(&bytes);
                msgs.push(bytes);
            },
            None => break,
        }
    }
    let r = decode_inbox(&msgs);
    proof {
        lemma_inbox_error_is_refused_tag(msgs_view(msgs@));
    }
    r
}

/// Sends a packet to one client, framed as `encode_wire` frames it.
pub fn server_send_one(net: &mut NetworkServer, client_id: u64, msg: &NetworkPacket) {
    let bytes = encode_wire(msg);
    server_send(net, client_id, bytes);
}

/// Sends a packet to every client, framed as `encode_wire` frames it.
pub fn server_broadcast(net: &mut NetworkServer, msg: &NetworkPacket) {
    let bytes = encode_wire(msg);
    server_send_all(net, bytes);
}

/// Sends a packet to every client but one, framed as `encode_wire` frames it.
pub fn server_broadcast_except(net: &mut NetworkServer, client_id: u64, msg: &NetworkPacket) {
    let bytes = encode_wire(msg);
    server_send_all_except(net, client_id, bytes);
}

/// Closes the connection of one client, as the server does with a client
/// whose update claims another sender.
pub fn server_disconnect_client(net: &mut NetworkServer, client_id: u64) {
    server_drop_client(net, client_id);
}

/// Sends a packet to the server, framed as `encode_wire` frames it.
pub fn client_send(net: &mut NetworkClient, msg: &NetworkPacket) {
    let bytes = encode_wire(msg);
    client_send_bytes(net, bytes);
}

} // verus!
