use vstd::prelude::*;

verus! {

/// An IP address as plain numbers: an IPv4 address is the big-endian
/// integer of its four octets, an IPv6 address that of its sixteen.
#[derive(PartialEq, Eq, Structural, Clone, Copy, Debug, Hash)]
pub enum IpAddress {
    V4(u32),
    V6(u128),
}

/// The big-endian integer of four bytes.
pub open spec fn be_u32(b0: u8, b1: u8, b2: u8, b3: u8) -> u32 {
    ((b0 as u32) << 24u32) | ((b1 as u32) << 16u32) | ((b2 as u32) << 8u32) | (b3 as u32)
}

impl IpAddress {
    /// The IPv4 address `a.b.c.d`.
    pub fn v4(a: u8, b: u8, c: u8, d: u8) -> (r: IpAddress)
        ensures
            r == IpAddress::V4(be_u32(a, b, c, d)),
    {
        IpAddress::V4(((a as u32) << 24u32) | ((b as u32) << 16u32) | ((c as u32) << 8u32) | (d as u32))
    }
}

/// The destination of an IPv4 packet: the packet holds at least the
/// twenty-byte header, its version nibble is 4, and header bytes 16 to 19
/// hold the destination address.
pub open spec fn ipv4_destination_of(p: Seq<u8>) -> Option<IpAddress> {
    if p.len() >= 20 && p[0] >> 4u8 == 4 {
        Some(IpAddress::V4(be_u32(p[16], p[17], p[18], p[19])))
    } else {
        None
    }
}

/// The destination address of an IPv4 packet, or `None` for a packet that
/// is not IPv4 or is shorter than its header.
pub fn ipv4_destination(packet: &[u8]) -> (r: Option<IpAddress>)
    ensures
        r == ipv4_destination_of(packet@),
{
    if packet.len() < 20 {
        return None;
    }
    let b0 = packet[0];
    assert((b0 >> 4u8) & 0xfu8 == b0 >> 4u8) by (bit_vector);
    if (b0 >> 4u8) & 0xfu8 == 4 {
        Some(IpAddress::v4(packet[16], packet[17], packet[18], packet[19]))
    } else {
        None
    }
}

} // verus!
