use vstd::prelude::*;

use crate::error::VpnError;
use crate::protocol::Message;

verus! {

/// What a transport-to-interface pump does with one decoded message.
pub enum Inbound {
    /// Write the packet to the virtual interface.
    Deliver(Vec<u8>),
    /// The peer asked to disconnect: stop the pump.
    Stop,
    /// A keepalive or a game-optimization notice: nothing to do.
    Consume,
    /// A kind that has no place on this path: log it and go on.
    Unexpected,
    /// The payload did not decode: log it and skip the message.
    Malformed,
}

/// The pump's decision on one received message, or on the error that
/// decoding it gave.
pub fn inbound_action(decoded: Result<Message, VpnError>) -> (r: Inbound)
    ensures
        decoded matches Ok(Message::PacketData(p)) ==> (r matches Inbound::Deliver(q) && q@
            == p@),
        decoded matches Ok(Message::Disconnect { .. }) ==> r is Stop,
        decoded matches Ok(Message::KeepAlive) ==> r is Consume,
        decoded matches Ok(Message::GameOptimizationInfo { .. }) ==> r is Consume,
        decoded matches Ok(m) ==> !(m is PacketData) && !(m is Disconnect) && !(m is KeepAlive)
            && !(m is GameOptimizationInfo) ==> r is Unexpected,
        decoded is Err ==> r is Malformed,
{
    match decoded {
        Ok(Message::PacketData(p)) => Inbound::Deliver(p),
        Ok(Message::Disconnect { .. }) => Inbound::Stop,
        Ok(Message::KeepAlive) => Inbound::Consume,
        Ok(Message::GameOptimizationInfo { .. }) => Inbound::Consume,
        Ok(_) => Inbound::Unexpected,
        Err(_) => Inbound::Malformed,
    }
}

} // verus!
