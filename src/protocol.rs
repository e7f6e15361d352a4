use vstd::prelude::*;

use crate::addr::{be_u32, IpAddress};
use crate::error::VpnError;

verus! {

/// A static route announced to a client.
#[derive(Clone, Debug, PartialEq, Eq)]
pub struct RouteInfo {
    pub destination: IpAddress,
    pub netmask: IpAddress,
    pub gateway: Option<IpAddress>,
}

/// The messages exchanged over the transport's streams.
#[derive(Clone, Debug, PartialEq, Eq)]
pub enum Message {
    ClientHello { username: String, password: String, client_version: String },
    ServerHello {
        server_version: String,
        assigned_ip: IpAddress,
        subnet_mask: IpAddress,
        mtu: u16,
    },
    PacketData(Vec<u8>),
    KeepAlive,
    Disconnect { reason: String },
    GameOptimizationInfo { game_type: String, latency_priority: bool },
    RouteUpdate { routes: Vec<RouteInfo> },
    Stats {
        bytes_sent: u64,
        bytes_received: u64,
        packets_sent: u64,
        packets_received: u64,
        latency_ms: u32,
    },
}

/// The four big-endian bytes of `n`.
pub open spec fn be_bytes(n: u32) -> Seq<u8> {
    seq![(n >> 24u32) as u8, (n >> 16u32) as u8, (n >> 8u32) as u8, n as u8]
}

/// The length that a frame's first four bytes announce.
pub open spec fn announced_len(b: Seq<u8>) -> nat
    recommends
        b.len() >= 4,
{
    be_u32(b[0], b[1], b[2], b[3]) as nat
}

/// A frame: the payload's length as four big-endian bytes, then the payload.
pub open spec fn frame_of(payload: Seq<u8>) -> Seq<u8> {
    be_bytes(payload.len() as u32) + payload
}

/// `buf` begins with a whole frame.
pub open spec fn holds_frame(buf: Seq<u8>) -> bool {
    buf.len() >= 4 && 4 + announced_len(buf) <= buf.len()
}

/// The payload of the frame at the start of `buf`.
pub open spec fn frame_payload(buf: Seq<u8>) -> Seq<u8> {
    buf.subrange(4, 4 + announced_len(buf) as int)
}

proof fn lemma_be_round_trip(n: u32)
    ensures
        be_u32((n >> 24u32) as u8, (n >> 16u32) as u8, (n >> 8u32) as u8, n as u8) == n,
{
    assert((((n >> 24u32) as u8 as u32) << 24u32) | (((n >> 16u32) as u8 as u32) << 16u32) | (((n
        >> 8u32) as u8 as u32) << 8u32) | (n as u8 as u32) == n) by (bit_vector);
}

/// Decoding the frame of a payload gives back the payload, whatever follows
/// the frame, and consumes exactly the frame.
pub proof fn lemma_frame_round_trip(payload: Seq<u8>, rest: Seq<u8>)
    requires
        payload.len() <= u32::MAX,
    ensures
        holds_frame(frame_of(payload) + rest),
        frame_payload(frame_of(payload) + rest) == payload,
        4 + announced_len(frame_of(payload) + rest) == frame_of(payload).len(),
{
    let n = payload.len() as u32;
    lemma_be_round_trip(n);
    let buf = frame_of(payload) + rest;
    assert(announced_len(buf) == payload.len());
    assert(frame_payload(buf) =~= payload);
}

/// No proper prefix of a frame holds a whole frame.
pub proof fn lemma_truncated_frame(payload: Seq<u8>, k: int)
    requires
        payload.len() <= u32::MAX,
        0 <= k < frame_of(payload).len(),
    ensures
        !holds_frame(frame_of(payload).take(k)),
{
    let n = payload.len() as u32;
    lemma_be_round_trip(n);
    let t = frame_of(payload).take(k);
    if k >= 4 {
        assert(t[0] == frame_of(payload)[0] && t[1] == frame_of(payload)[1] && t[2] == frame_of(
            payload,
        )[2] && t[3] == frame_of(payload)[3]);
        assert(announced_len(t) == payload.len());
    }
}

/// The four big-endian bytes of `n`.
fn u32_be_bytes(n: u32) -> (r: [u8; 4])
    ensures
        r@ == be_bytes(n),
{
    let r = [(n >> 24u32) as u8, (n >> 16u32) as u8, (n >> 8u32) as u8, n as u8];
    assert(r@ =~= be_bytes(n));
    r
}

/// The length announced by a frame's four-byte header.
pub fn frame_len(header: [u8; 4]) -> (r: u32)
    ensures
        r == be_u32(header[0], header[1], header[2], header[3]),
{
    ((header[0] as u32) << 24u32) | ((header[1] as u32) << 16u32) | ((header[2] as u32) << 8u32)
        | (header[3] as u32)
}

/// Frames `payload`: its length in four big-endian bytes, then the payload.
///
/// A payload whose length does not fit in four bytes is a protocol error.
pub fn encode_frame(payload: &[u8]) -> (r: Result<Vec<u8>, VpnError>)
    ensures
        r is Ok <==> payload@.len() <= u32::MAX,
        r matches Ok(b) ==> b@ == frame_of(payload@),
        r matches Err(e) ==> e is Protocol,
{
    if payload.len() > 0xffff_ffff {
        return Err(VpnError::Protocol("message too long to frame".to_owned()));
    }
    let header = u32_be_bytes(payload.len() as u32);
    let mut out: Vec<u8> = Vec::with_capacity(payload.len());
    let mut i: usize = 0;
    while i < 4
        invariant
            i <= 4,
            out@ == header@.take(i as int),
        decreases 4 - i,
    {
        out.push(header[i]);
        i = i + 1;
        assert(out@ =~= header@.take(i as int));
    }
    let mut j: usize = 0;
    while j < payload.len()
        invariant
            j <= payload@.len(),
            out@ == header@ + payload@.take(j as int),
        decreases payload@.len() - j,
    {
        out.push(payload[j]);
        j = j + 1;
        assert(out@ =~= header@ + payload@.take(j as int));
    }
    assert(payload@.take(payload@.len() as int) =~= payload@);
    Ok(out)
}

/// Reads the frame at the start of `buf`: its payload and the number of
/// bytes it takes up.
///
/// A buffer that ends before the header or before the announced payload
/// is a protocol error.
pub fn decode_frame(buf: &[u8]) -> (r: Result<(Vec<u8>, usize), VpnError>)
    ensures
        r is Ok <==> holds_frame(buf@),
        r matches Ok((p, n)) ==> p@ == frame_payload(buf@) && n == 4 + announced_len(buf@),
        r matches Err(e) ==> e is Protocol,
{
    if buf.len() < 4 {
        return Err(VpnError::Protocol("truncated frame header".to_owned()));
    }
    let len = frame_len([buf[0], buf[1], buf[2], buf[3]]);
    if len as usize > buf.len() - 4 {
        return Err(VpnError::Protocol("truncated frame payload".to_owned()));
    }
    let end: usize = 4 + len as usize;
    let mut out: Vec<u8> = Vec::with_capacity(len as usize);
    let mut i: usize = 4;
    while i < end
        invariant
            4 <= i <= end,
            end <= buf@.len(),
            out@ == buf@.subrange(4, i as int),
        decreases end - i,
    {
        out.push(buf[i]);
        i = i + 1;
        assert(out@ =~= buf@.subrange(4, i as int));
    }
    Ok((out, end))
}

} // verus!
