use vstd::prelude::*;

verus! {

/// The kinds of failure, each with a description where one is known.
///
/// Failures that come from an outside library carry its message.
#[derive(Clone, Debug, PartialEq, Eq)]
pub enum VpnError {
    Io(String),
    Quinn(String),
    Tls(String),
    Certificate(String),
    Json(String),
    Tun(String),
    Protocol(String),
    Auth(String),
    Rejected(String),
    Config(String),
    ConnectionClosed,
    Unknown(String),
}

} // verus!
