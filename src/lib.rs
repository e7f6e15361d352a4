//! A point-to-point VPN core: the control protocol's framing, the server's
//! address pool and credential store, the handshake decisions, the
//! forwarding decisions and the server's table of live sessions.

pub mod addr;
pub mod error;
pub mod forwarding;
pub mod handshake;
pub mod ip_allocator;
pub mod protocol;
pub mod session;
pub mod user_db;
