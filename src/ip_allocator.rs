use std::collections::HashSet;
use vstd::prelude::*;

use crate::addr::IpAddress;

verus! {

broadcast use vstd::std_specs::hash::group_hash_axioms;

/// A pool of IPv4 addresses leased from a configured subnet.
///
/// Offsets `1..=max_clients` from the base network address are the
/// candidates; the lowest free one is leased first.
pub struct IpAllocator {
    base_network: IpAddress,
    netmask: IpAddress,
    used_ips: HashSet<u32>,
    max_clients: usize,
}

/// The address `offset` steps above `base`, where it exists.
pub open spec fn offset_addr(base: u32, offset: int) -> int {
    base as int + offset
}

/// The network address of `b` under the mask `m`.
pub open spec fn network_of(b: u32, m: u32) -> u32 {
    b & m
}

/// The broadcast address of `b`'s subnet under the mask `m`.
pub open spec fn broadcast_of(b: u32, m: u32) -> u32 {
    (b & m) | !m
}

/// How many offsets above `b` stay below the broadcast address of its
/// subnet: the host capacity minus two where `b` is the network address.
pub open spec fn room_above(b: u32, m: u32) -> nat {
    if broadcast_of(b, m) > b {
        (broadcast_of(b, m) - b - 1) as nat
    } else {
        0
    }
}

/// The pool size that `new` keeps: `max_clients`, but no more than the
/// room below the broadcast address when base and mask are IPv4.
pub open spec fn capped_max(base: IpAddress, mask: IpAddress, max_clients: nat) -> nat {
    match (base, mask) {
        (IpAddress::V4(b), IpAddress::V4(m)) => if max_clients < room_above(b, m) {
            max_clients
        } else {
            room_above(b, m)
        },
        _ => max_clients,
    }
}

/// The network address is at most `b`, and the broadcast address at least `b`.
proof fn lemma_subnet_bounds(b: u32, m: u32)
    ensures
        network_of(b, m) <= b,
        b <= broadcast_of(b, m),
{
    assert((b & m) <= b) by (bit_vector);
    assert(b <= ((b & m) | !m)) by (bit_vector);
}

/// What `allocate_ip` does: `r` is the lowest free candidate of `pre`,
/// now leased in `post`, or `None` with the leases unchanged when there
/// is none to give. Under an IPv4 mask, the subnet's network and
/// broadcast addresses are never given.
pub open spec fn allocated(pre: IpAllocator, post: IpAllocator, r: Option<IpAddress>) -> bool {
    &&& post.base() == pre.base()
    &&& post.mask() == pre.mask()
    &&& post.max() == pre.max()
    &&& r.is_none() <==> (pre.leased().len() >= pre.max() || pre.base() is V6 || !exists|i: int|
        pre.is_free_offset(i))
    &&& r.is_none() ==> post.leased() == pre.leased()
    &&& pre.leased().len() < pre.max() && pre.base() is V4 && pre.base()->V4_0 + pre.max()
        <= u32::MAX ==> r is Some
    &&& r matches Some(ip) ==> exists|i: int|
        {
            &&& #[trigger] pre.is_lowest_free_offset(i)
            &&& ip == IpAddress::V4(offset_addr(pre.base()->V4_0, i) as u32)
        }
    &&& r matches Some(ip) ==> ip is V4 && !pre.leased().contains(ip->V4_0) && post.leased()
        == pre.leased().insert(ip->V4_0)
    &&& r matches Some(ip) ==> pre.mask() is V4 ==> {
        let b = pre.base()->V4_0;
        let m = pre.mask()->V4_0;
        &&& ip->V4_0 != network_of(b, m)
        &&& ip->V4_0 != broadcast_of(b, m)
    }
}

/// A finite set that holds the `n` addresses above `b` has at least `n`
/// elements.
proof fn lemma_covered_len(s: Set<u32>, b: int, n: int)
    requires
        s.finite(),
        0 <= b,
        0 <= n,
        b + n <= u32::MAX,
        forall|i: int| 1 <= i <= n ==> #[trigger] s.contains((b + i) as u32),
    ensures
        s.len() >= n,
    decreases n,
{
    if n > 0 {
        let s2 = s.remove((b + n) as u32);
        assert(s.contains((b + n) as u32));
        assert forall|i: int| 1 <= i <= n - 1 implies #[trigger] s2.contains((b + i) as u32) by {
            assert(s.contains((b + i) as u32));
        }
        lemma_covered_len(s2, b, n - 1);
    }
}

/// An address whose lease ends is a free candidate again, so a later
/// allocation may give it out anew.
pub proof fn lemma_released_is_free(pre: IpAllocator, post: IpAllocator, ip: u32)
    requires
        pre.wf(),
        pre.leased().contains(ip),
        post.base() == pre.base(),
        post.max() == pre.max(),
        post.leased() == pre.leased().remove(ip),
    ensures
        pre.base() is V4,
        exists|i: int| #[trigger] post.is_free_offset(i) && offset_addr(post.base()->V4_0, i) == ip,
{
    let b = pre.base_network->V4_0;
    let i = ip as int - b as int;
    assert(post.is_free_offset(i));
}

impl IpAllocator {
    pub closed spec fn base(&self) -> IpAddress {
        self.base_network
    }

    pub closed spec fn mask(&self) -> IpAddress {
        self.netmask
    }

    pub closed spec fn max(&self) -> nat {
        self.max_clients as nat
    }

    /// The IPv4 addresses currently leased.
    pub closed spec fn leased(&self) -> Set<u32> {
        self.used_ips@
    }

    /// Every lease is one of the candidate addresses, there are no more
    /// leases than `max_clients`, and under an IPv4 mask every candidate
    /// lies below the subnet's broadcast address.
    pub closed spec fn wf(&self) -> bool {
        &&& self.used_ips@.finite()
        &&& (self.base_network is V4 && self.netmask is V4 ==> self.max_clients <= room_above(
            self.base_network->V4_0,
            self.netmask->V4_0,
        ))
        &&& self.used_ips@.len() <= self.max_clients
        &&& match self.base_network {
            IpAddress::V4(b) => forall|a: u32| #[trigger]
                self.used_ips@.contains(a) ==> b < a && a as int <= b as int
                    + self.max_clients as int,
            IpAddress::V6(_) => self.used_ips@.is_empty(),
        }
    }

    /// Offset `i` is a candidate that exists and is not leased.
    pub open spec fn is_free_offset(&self, i: int) -> bool {
        match self.base() {
            IpAddress::V4(b) => {
                &&& 1 <= i <= self.max()
                &&& offset_addr(b, i) <= u32::MAX
                &&& !self.leased().contains(offset_addr(b, i) as u32)
            },
            IpAddress::V6(_) => false,
        }
    }

    /// Offset `i` is the lowest free candidate.
    pub open spec fn is_lowest_free_offset(&self, i: int) -> bool {
        &&& self.is_free_offset(i)
        &&& forall|j: int| 1 <= j < i ==> !#[trigger] self.is_free_offset(j)
    }

    /// An empty pool. Under an IPv4 base and mask, `max_clients` is cut
    /// down to the number of addresses between the base and the subnet's
    /// broadcast address, so that the broadcast address is never a
    /// candidate.
    pub fn new(base_network: IpAddress, netmask: IpAddress, max_clients: usize) -> (r: Self)
        ensures
            r.wf(),
            r.base() == base_network,
            r.mask() == netmask,
            r.max() == capped_max(base_network, netmask, max_clients as nat),
            r.leased() == Set::<u32>::empty(),
    {
        let max_clients = match (base_network, netmask) {
            (IpAddress::V4(b), IpAddress::V4(m)) => {
                let broadcast = (b & m) | !m;
                let room: u32 = if broadcast > b {
                    broadcast - b - 1
                } else {
                    0
                };
                if (max_clients as u64) < (room as u64) {
                    max_clients
                } else {
                    room as usize
                }
            },
            _ => max_clients,
        };
        IpAllocator { base_network, netmask, used_ips: HashSet::new(), max_clients }
    }

    /// Leases the lowest free candidate address.
    ///
    /// Returns `None`, leaving the pool unchanged, when `max_clients`
    /// addresses are leased, when the base is IPv6, or when no candidate
    /// is free.
    pub fn allocate_ip(&mut self) -> (r: Option<IpAddress>)
        requires
            old(self).wf(),
        ensures
            final(self).wf(),
            allocated(*old(self), *final(self), r),
    {
        if self.used_ips.len() >= self.max_clients {
            return None;
        }
        match self.base_network {
            IpAddress::V4(base) => {
                let mut i: u64 = 1;
                while i <= self.max_clients as u64
                    invariant
                        *self == *old(self),
                        self.wf(),
                        self.base_network == IpAddress::V4(base),
                        self.used_ips@.len() < self.max_clients,
                        1 <= i <= self.max_clients + 1,
                        forall|j: int| 1 <= j < i ==> !#[trigger] self.is_free_offset(j),
                    decreases self.max_clients + 1 - i,
                {
                    if i > 0xffff_ffff - base as u64 {
                        assert forall|j: int| i <= j implies !#[trigger] self.is_free_offset(j) by {}
                        assert(!exists|j: int| self.is_free_offset(j));
                        return None;
                    }
                    assert(i as int <= 0xffff_ffff - base as int);
                    let ip: u32 = base + i as u32;
                    if !self.used_ips.contains(&ip) {
                        proof {
                            assert(self.is_free_offset(i as int));
                            assert(self.is_lowest_free_offset(i as int));
                            if self.netmask is V4 {
                                lemma_subnet_bounds(base, self.netmask->V4_0);
                            }
                        }
                        let ghost prev = self.used_ips@;
                        self.used_ips.insert(ip);
                        assert(self.used_ips@.len() == prev.len() + 1);
                        return Some(IpAddress::V4(ip));
                    }
                    i = i + 1;
                }
                assert forall|j: int| #![trigger self.is_free_offset(j)] true implies !self.is_free_offset(j) by {}
                proof {
                    if base + self.max_clients <= u32::MAX {
                        assert forall|j: int| 1 <= j <= self.max_clients implies #[trigger] self.used_ips@.contains(
                            (base + j) as u32) by {
                            assert(!self.is_free_offset(j));
                        }
                        lemma_covered_len(self.used_ips@, base as int, self.max_clients as int);
                    }
                }
                None
            },
            IpAddress::V6(_) => None,
        }
    }

    /// Ends the lease of `ip`; returns whether it was leased.
    pub fn release_ip(&mut self, ip: IpAddress) -> (r: bool)
        requires
            old(self).wf(),
        ensures
            final(self).wf(),
            final(self).base() == old(self).base(),
            final(self).mask() == old(self).mask(),
            final(self).max() == old(self).max(),
            match ip {
                IpAddress::V4(a) => {
                    &&& r == old(self).leased().contains(a)
                    &&& final(self).leased() == old(self).leased().remove(a)
                },
                IpAddress::V6(_) => !r && final(self).leased() == old(self).leased(),
            },
    {
        match ip {
            IpAddress::V4(a) => {
                let r = self.used_ips.remove(&a);
                r
            },
            IpAddress::V6(_) => false,
        }
    }
}

} // verus!
