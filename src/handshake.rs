use vstd::prelude::*;

use crate::addr::IpAddress;
use crate::error::VpnError;
use crate::ip_allocator::{allocated, IpAllocator};
use crate::protocol::Message;
use crate::user_db::UserDatabase;

verus! {

/// The server's answer to a connection's first message, and the session
/// it opens, if any: the client's username and its leased address.
pub struct HandshakeReply {
    pub reply: Message,
    pub session: Option<(String, IpAddress)>,
}

/// `m` is `Disconnect` with the reason `reason`.
pub open spec fn is_disconnect(m: Message, reason: Seq<char>) -> bool {
    m matches Message::Disconnect { reason: r } && r@ == reason
}

/// The address that a handshake leased, if it opened a session.
pub open spec fn lease_of(session: Option<(String, IpAddress)>) -> Option<IpAddress> {
    match session {
        Some((_, ip)) => Some(ip),
        None => None,
    }
}

/// `m` is `ServerHello` with these fields.
pub open spec fn is_server_hello(
    m: Message,
    version: Seq<char>,
    ip: IpAddress,
    mask: IpAddress,
    mtu: u16,
) -> bool {
    m matches Message::ServerHello { server_version, assigned_ip, subnet_mask, mtu: n }
        && server_version@ == version && assigned_ip == ip && subnet_mask == mask && n == mtu
}

/// The server's side of the handshake, run on the connection's first
/// message.
///
/// A first message other than `ClientHello` is answered with
/// `Disconnect`. Credentials that are not a stored pair are answered with
/// `Disconnect("Authentication failed")`, an exhausted pool with
/// `Disconnect("No available IP addresses")`. Otherwise the lowest free
/// address is leased and announced in `ServerHello`.
pub fn server_handshake(
    first: Message,
    users: &UserDatabase,
    pool: &mut IpAllocator,
    server_version: &String,
    subnet_mask: IpAddress,
    mtu: u16,
) -> (r: HandshakeReply)
    requires
        users.wf(),
        old(pool).wf(),
    ensures
        final(pool).wf(),
        !(first is ClientHello) ==> {
            &&& is_disconnect(r.reply, "Expected ClientHello"@)
            &&& r.session is None
            &&& *final(pool) == *old(pool)
        },
        first matches Message::ClientHello { username, password, .. } ==> {
            let authentic = users.users().contains_key(username@) && users.users()[username@]
                == password@;
            &&& !authentic ==> is_disconnect(r.reply, "Authentication failed"@) && r.session is None
                && *final(pool) == *old(pool)
            &&& authentic ==> {
                    let lease = lease_of(r.session);
                    &&& allocated(*old(pool), *final(pool), lease)
                    &&& lease is None ==> is_disconnect(r.reply, "No available IP addresses"@)
                        && r.session is None
                    &&& lease matches Some(ip) ==> (r.session matches Some((name, a)) && name@
                        == username@ && a == ip) && is_server_hello(
                        r.reply,
                        server_version@,
                        ip,
                        subnet_mask,
                        mtu,
                    )
                }
        },
{
    match first {
        Message::ClientHello { username, password, client_version: _ } => {
            if !users.authenticate(username.as_str(), password.as_str()) {
                return HandshakeReply {
                    reply: Message::Disconnect { reason: "Authentication failed".to_owned() },
                    session: None,
                };
            }
            match pool.allocate_ip() {
                Some(ip) => HandshakeReply {
                    reply: Message::ServerHello {
                        server_version: server_version.clone(),
                        assigned_ip: ip,
                        subnet_mask,
                        mtu,
                    },
                    session: Some((username, ip)),
                },
                None => HandshakeReply {
                    reply: Message::Disconnect { reason: "No available IP addresses".to_owned() },
                    session: None,
                },
            }
        },
        _ => HandshakeReply {
            reply: Message::Disconnect { reason: "Expected ClientHello".to_owned() },
            session: None,
        },
    }
}

/// What the client learns from an accepting server.
pub struct ServerParams {
    pub server_version: String,
    pub assigned_ip: IpAddress,
    pub subnet_mask: IpAddress,
    pub mtu: u16,
}

/// The client's side of the handshake, run on the server's one reply.
///
/// `ServerHello` establishes the connection; `Disconnect` is a rejection
/// carrying the server's reason; any other reply is a protocol error.
pub fn accept_server_reply(reply: Message) -> (r: Result<ServerParams, VpnError>)
    ensures
        reply matches Message::ServerHello { server_version, assigned_ip, subnet_mask, mtu }
            ==> (r matches Ok(p) && p.server_version@ == server_version@ && p.assigned_ip
            == assigned_ip && p.subnet_mask == subnet_mask && p.mtu == mtu),
        reply matches Message::Disconnect { reason } ==> (r matches Err(VpnError::Rejected(why))
            && why@ == reason@),
        !(reply is ServerHello) && !(reply is Disconnect) ==> (r matches Err(VpnError::Protocol(
            why,
        )) && why@ == "Unexpected message from server"@),
{
    match reply {
        Message::ServerHello { server_version, assigned_ip, subnet_mask, mtu } => Ok(
            ServerParams { server_version, assigned_ip, subnet_mask, mtu },
        ),
        Message::Disconnect { reason } => Err(VpnError::Rejected(reason)),
        _ => Err(VpnError::Protocol("Unexpected message from server".to_owned())),
    }
}

/// The message a client with gaming optimization sends once established:
/// its game type, `"default"` where none is configured, with latency
/// priority. `None` when the optimization is off.
pub fn game_optimization_info(enabled: bool, game_type: Option<String>) -> (r: Option<Message>)
    ensures
        !enabled ==> r is None,
        enabled ==> (r matches Some(Message::GameOptimizationInfo { game_type: g, latency_priority })
            && latency_priority && g@ == (if game_type is Some {
            game_type->0@
        } else {
            "default"@
        })),
{
    if !enabled {
        return None;
    }
    let g = match game_type {
        Some(t) => t,
        None => "default".to_owned(),
    };
    Some(Message::GameOptimizationInfo { game_type: g, latency_priority: true })
}

} // verus!
