//! Discovery decisions: the coordinator answers a beacon with its TCP
//! address; the agent reads the address out of the answer.
use vstd::prelude::*;
use crate::common::protocol::Message;
use crate::text::{append, decimal, decimal_string, owned};

verus! {

/// The coordinator's answer to a discovery datagram: a beacon gets the
/// advertised TCP address and port, anything else gets no answer.
pub fn reply_to_datagram(msg: &Message, tcp_addr: &str, tcp_port: u16) -> (r: Option<Message>)
    ensures
        msg is Beacon ==> (r matches Some(Message::BeaconAck { tcp_addr: a, tcp_port: p }) && a@
            == tcp_addr@ && p == tcp_port),
        !(msg is Beacon) ==> r is None,
{
    match msg {
        Message::Beacon { .. } => Some(Message::BeaconAck { tcp_addr: owned(tcp_addr), tcp_port }),
        _ => None,
    }
}

/// The `host:port` text an agent connects to, taken from a beacon answer;
/// `None` for any other message.
pub fn coordinator_address(msg: &Message) -> (r: Option<String>)
    ensures
        match msg {
            Message::BeaconAck { tcp_addr, tcp_port } => r matches Some(s) && s@ == tcp_addr@
                + ":"@ + decimal(*tcp_port as nat),
            _ => r is None,
        },
{
    match msg {
        Message::BeaconAck { tcp_addr, tcp_port } => {
            let mut s = owned(tcp_addr.as_str());
            append(&mut s, ":");
            let p = decimal_string(*tcp_port as u64);
            append(&mut s, p.as_str());
            Some(s)
        },
        _ => None,
    }
}

} // verus!
