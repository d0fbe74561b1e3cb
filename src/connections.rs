//! The table of spoofed connections, keyed by the socket handle.

use crate::addr::{addr_text, SockAddr};
use crate::network::{push, Packet, PacketLog, PacketModel, PushOutcome, is_magic};
use std::collections::HashMap;
use vstd::prelude::*;

verus! {

broadcast use vstd::std_specs::hash::group_hash_axioms;

/// A spoofed network connection with the most recent request the target
/// process sent over it.
#[derive(Debug)]
pub struct Connection {
    pub addr: SockAddr,
    pub pending_request: Option<Vec<u8>>,
}

/// The content of a connection.
pub struct ConnectionModel {
    pub addr: SockAddr,
    pub pending_request: Option<Seq<u8>>,
}

impl View for Connection {
    type V = ConnectionModel;

    open spec fn view(&self) -> ConnectionModel {
        ConnectionModel {
            addr: self.addr,
            pending_request: match self.pending_request {
                Some(v) => Some(v@),
                None => None,
            },
        }
    }
}

fn copy_bytes(v: &Vec<u8>) -> (r: Vec<u8>)
    ensures
        r@ == v@,
{
    let mut r: Vec<u8> = Vec::new();
    let mut i: usize = 0;
    while i < v.len()
        invariant
            i <= v@.len(),
            r@ == v@.take(i as int),
        decreases v@.len() - i,
    {
        r.push(v[i]);
        assert(v@.take(i + 1) =~= v@.take(i as int).push(v@[i as int]));
        i = i + 1;
    }
    assert(v@.take(v@.len() as int) =~= v@);
    r
}

impl Connection {
    /// A fresh connection to `socket_addr`, with no request yet.
    pub fn new(socket_addr: SockAddr) -> (r: Connection)
        ensures
            r@ == (ConnectionModel { addr: socket_addr, pending_request: None }),
    {
        Connection { addr: socket_addr, pending_request: None }
    }

    /// The peer address as text.
    pub fn to_string(&self) -> (r: String)
        ensures
            r@ == addr_text(self.addr),
    {
        self.addr.to_string()
    }

    /// A copy of the connection.
    pub fn copy(&self) -> (r: Connection)
        ensures
            r@ == self@,
    {
        let pending_request = match &self.pending_request {
            Some(v) => Some(copy_bytes(v)),
            None => None,
        };
        Connection { addr: self.addr, pending_request }
    }
}

/// The open connections, keyed by socket handle.
pub struct ConnectionMap {
    map: HashMap<usize, Connection>,
}

impl View for ConnectionMap {
    type V = Map<usize, ConnectionModel>;

    closed spec fn view(&self) -> Map<usize, ConnectionModel> {
        self.map@.map_values(|c: Connection| c@)
    }
}

impl ConnectionMap {
    /// A table with no connection.
    pub fn new() -> (r: ConnectionMap)
        ensures
            r@ == Map::<usize, ConnectionModel>::empty(),
    {
        let r = ConnectionMap { map: HashMap::new() };
        assert(r@ =~= Map::<usize, ConnectionModel>::empty());
        r
    }
}

/// The connection a lookup of `socket_id` finds.
pub open spec fn lookup(conns: Map<usize, ConnectionModel>, socket_id: usize) -> Option<ConnectionModel> {
    if conns.contains_key(socket_id) {
        Some(conns[socket_id])
    } else {
        None
    }
}

/// The table after a request `request` was recorded on `socket_id`.
pub open spec fn with_request(conns: Map<usize, ConnectionModel>, socket_id: usize, request: Seq<u8>) -> Map<usize, ConnectionModel> {
    conns.insert(socket_id, ConnectionModel { addr: conns[socket_id].addr, pending_request: Some(request) })
}

/// Registers a connection to `socket_addr` on `socket_id`, replacing any
/// earlier connection on that handle.
pub fn insert(conns: &mut ConnectionMap, socket_id: usize, socket_addr: SockAddr)
    ensures
        final(conns)@ == old(conns)@.insert(
            socket_id,
            ConnectionModel { addr: socket_addr, pending_request: None },
        ),
{
    let c = Connection::new(socket_addr);
    let ghost v = c@;
    conns.map.insert(socket_id, c);
    assert(conns@ =~= old(conns)@.insert(socket_id, v));
}

/// Stores `request` as the pending request of the connection on `socket_id`
/// and logs it as an outbound packet to the connection's peer.
pub fn record_request(conns: &mut ConnectionMap, pcap: &mut PacketLog, socket_id: usize, request: Vec<u8>)
    requires
        old(conns)@.contains_key(socket_id),
    ensures
        final(conns)@ == with_request(old(conns)@, socket_id, request@),
        final(pcap)@ == old(pcap)@.push(
            PacketModel { inbound: false, addr: old(conns)@[socket_id].addr, payload: request@ },
        ),
{
    let addr = conns.map.get(&socket_id).unwrap().addr;
    let logged = copy_bytes(&request);
    let c = Connection { addr, pending_request: Some(request) };
    let ghost v = c@;
    conns.map.insert(socket_id, c);
    assert(conns@ =~= with_request(old(conns)@, socket_id, v.pending_request.unwrap()));
    push(pcap, Packet::outbound(addr, logged));
}

/// Logs `response` as an inbound packet from the peer of the connection on
/// `socket_id`, and tells whether it was the magic packet that ends the run.
pub fn record_response(conns: &ConnectionMap, pcap: &mut PacketLog, socket_id: usize, response: Vec<u8>) -> (r: PushOutcome)
    requires
        conns@.contains_key(socket_id),
    ensures
        final(pcap)@ == old(pcap)@.push(
            PacketModel { inbound: true, addr: conns@[socket_id].addr, payload: response@ },
        ),
        r == (if is_magic(final(pcap)@.last()) {
            PushOutcome::Terminate
        } else {
            PushOutcome::Stored
        }),
{
    let src_addr = conns.map.get(&socket_id).unwrap().addr;
    push(pcap, Packet::inbound(src_addr, response))
}

/// A copy of the connection on `socket_id`, if there is one.
pub fn get(conns: &ConnectionMap, socket_id: usize) -> (r: Option<Connection>)
    ensures
        r matches Some(c) ==> lookup(conns@, socket_id) == Some(c@),
        r is None ==> lookup(conns@, socket_id) is None,
{
    match conns.map.get(&socket_id) {
        Some(c) => Some(c.copy()),
        None => None,
    }
}

} // verus!
