//! What the connect, send and receive hooks decide. The host-facing code
//! reads the call's arguments, performs the copies and completes the call;
//! these functions update the connection table and the capture log and
//! build the synthetic response.

use crate::addr::SockAddr;
use crate::connections::{self, lookup, with_request, ConnectionMap, ConnectionModel};
use crate::modbus::{respond, respond_post, RespondError};
use crate::network::{PacketLog, PacketModel};
use vstd::prelude::*;

verus! {

/// Why a receive call cannot be answered. Each one means the hook was called
/// in a state the synthetic peer does not allow.
#[derive(Debug)]
pub enum RecvError {
    /// The socket was never connected.
    NotConnected,
    /// Nothing was sent on the socket before.
    NoPendingRequest,
    /// No response could be built for the pending request.
    Respond(RespondError),
    /// The response does not fit the receive buffer.
    TooLarge(Vec<u8>),
}

/// A `connect` call on `socket_id`: registers the peer address when one could
/// be read and decoded from the call's arguments, and leaves the table as it is
/// otherwise.
pub fn on_connect(conns: &mut ConnectionMap, socket_id: usize, peer: Option<SockAddr>)
    ensures
        peer matches Some(a) ==> final(conns)@ == old(conns)@.insert(
            socket_id,
            ConnectionModel { addr: a, pending_request: None },
        ),
        peer is None ==> final(conns)@ == old(conns)@,
{
    if let Some(a) = peer {
        connections::insert(conns, socket_id, a);
    }
}

/// A `send` call on `socket_id` whose payload was read as `payload` (`None`
/// when the read failed): on a connected socket the payload becomes the pending
/// request and is logged as an outbound packet; otherwise nothing changes.
/// Returns whether the payload was recorded.
pub fn on_send(conns: &mut ConnectionMap, pcap: &mut PacketLog, socket_id: usize, payload: Option<Vec<u8>>) -> (recorded: bool)
    ensures
        recorded == (old(conns)@.contains_key(socket_id) && payload is Some),
        recorded ==> final(conns)@ == with_request(old(conns)@, socket_id, payload.unwrap()@),
        recorded ==> final(pcap)@ == old(pcap)@.push(
            PacketModel { inbound: false, addr: old(conns)@[socket_id].addr, payload: payload.unwrap()@ },
        ),
        !recorded ==> final(conns)@ == old(conns)@ && final(pcap)@ == old(pcap)@,
{
    match connections::get(conns, socket_id) {
        None => false,
        Some(_) => match payload {
            Some(p) => {
                connections::record_request(conns, pcap, socket_id, p);
                true
            },
            None => false,
        },
    }
}

/// A `recv` call on `socket_id` with a buffer of `capacity` bytes: the response
/// to the connection's pending request, built with `filler` as the injected
/// content. The request stays pending.
pub fn on_recv(conns: &ConnectionMap, socket_id: usize, capacity: usize, filler: Vec<u8>) -> (r: Result<Vec<u8>, RecvError>)
    ensures
        match lookup(conns@, socket_id) {
            None => r matches Err(RecvError::NotConnected),
            Some(c) => match c.pending_request {
                None => r matches Err(RecvError::NoPendingRequest),
                Some(req) => match r {
                    Ok(out) => respond_post(req, filler@, Ok(out@)) && out@.len() <= capacity,
                    Err(RecvError::TooLarge(out)) => respond_post(req, filler@, Ok(out@))
                        && out@.len() > capacity,
                    Err(RecvError::Respond(e)) => respond_post(req, filler@, Err(e)),
                    Err(_) => false,
                },
            },
        },
{
    let conn = match connections::get(conns, socket_id) {
        Some(c) => c,
        None => return Err(RecvError::NotConnected),
    };
    let request = match conn.pending_request {
        Some(p) => p,
        None => return Err(RecvError::NoPendingRequest),
    };
    match respond(request, filler) {
        Ok(out) => {
            if out.len() <= capacity {
                Ok(out)
            } else {
                Err(RecvError::TooLarge(out))
            }
        },
        Err(e) => Err(RecvError::Respond(e)),
    }
}

/// After a `send` of `b` on a connected socket, a lookup of the socket finds
/// a connection to the same peer whose pending request is exactly `b`, and the
/// capture log ends with the outbound packet `(peer, b)`.
pub proof fn lemma_send_then_lookup(conns: Map<usize, ConnectionModel>, log: Seq<PacketModel>, socket_id: usize, b: Seq<u8>)
    requires
        conns.contains_key(socket_id),
    ensures
        lookup(with_request(conns, socket_id, b), socket_id) == Some(
            ConnectionModel { addr: conns[socket_id].addr, pending_request: Some(b) },
        ),
        log.push(PacketModel { inbound: false, addr: conns[socket_id].addr, payload: b }).last()
            == (PacketModel { inbound: false, addr: conns[socket_id].addr, payload: b }),
{
}

} // verus!
