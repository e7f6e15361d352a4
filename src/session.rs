use dashmap::DashMap;
use vstd::prelude::*;

use crate::addr::{ipv4_destination, ipv4_destination_of, IpAddress};
use crate::handshake::{is_disconnect, is_server_hello, lease_of, server_handshake, HandshakeReply};
use crate::ip_allocator::{allocated, lemma_released_is_free, offset_addr, IpAllocator};
use crate::protocol::Message;
use crate::user_db::UserDatabase;

verus! {

#[verifier::external_type_specification]
#[verifier::external_body]
#[verifier::reject_recursive_types(K)]
#[verifier::reject_recursive_types(V)]
#[verifier::reject_recursive_types(S)]
pub struct ExDashMap<K, V, S>(DashMap<K, V, S>);

/// A table of sessions keyed by IPv4 address.
pub type SessionTable = DashMap<u32, String>;

/// What a table of sessions holds: each assigned IPv4 address with the
/// username of the client it was given to.
pub uninterp spec fn session_entries(m: SessionTable) -> Map<u32, Seq<char>>;

/// Relies on `DashMap::new`: a new map is empty.
#[verifier::external_body]
fn table_new() -> (r: SessionTable)
    ensures
        session_entries(r).dom().is_empty(),
{
    DashMap::new()
}

/// Relies on `DashMap::insert`: the key now maps to the value, and the
/// value it replaced, if any, is returned.
#[verifier::external_body]
fn table_insert(m: &mut SessionTable, ip: u32, username: String) -> (r: Option<String>)
    ensures
        session_entries(*final(m)) == session_entries(*old(m)).insert(ip, username@),
        r is Some <==> session_entries(*old(m)).contains_key(ip),
        r matches Some(v) ==> v@ == session_entries(*old(m))[ip],
{
    m.insert(ip, username)
}

/// Relies on `DashMap::remove`: the key no longer maps to anything, and
/// the value it mapped to, if any, is returned.
#[verifier::external_body]
fn table_remove(m: &mut SessionTable, ip: u32) -> (r: Option<String>)
    ensures
        session_entries(*final(m)) == session_entries(*old(m)).remove(ip),
        r is Some <==> session_entries(*old(m)).contains_key(ip),
        r matches Some(v) ==> v@ == session_entries(*old(m))[ip],
{
    m.remove(&ip).map(|e| e.1)
}

/// Relies on `DashMap::contains_key`: whether the key maps to a value.
#[verifier::external_body]
fn table_contains(m: &SessionTable, ip: u32) -> (r: bool)
    ensures
        r == session_entries(*m).contains_key(ip),
{
    m.contains_key(&ip)
}

/// The server's sessions: the address pool, and the table from each
/// leased address to the client that holds it.
pub struct SessionManager {
    pool: IpAllocator,
    sessions: SessionTable,
}

impl SessionManager {
    pub closed spec fn pool(&self) -> IpAllocator {
        self.pool
    }

    /// Each live session's address to its client's username.
    pub closed spec fn sessions(&self) -> Map<u32, Seq<char>> {
        session_entries(self.sessions)
    }

    /// The pool is well formed, and an address is leased exactly when a
    /// session holds it.
    pub closed spec fn wf(&self) -> bool {
        &&& self.pool.wf()
        &&& self.pool.leased() == session_entries(self.sessions).dom()
    }

    /// A manager with no sessions, over a pool with no leases.
    pub fn new(pool: IpAllocator) -> (r: Self)
        requires
            pool.wf(),
            pool.leased() == Set::<u32>::empty(),
        ensures
            r.wf(),
            r.pool() == pool,
            r.sessions() == Map::<u32, Seq<char>>::empty(),
    {
        let sessions = table_new();
        assert(session_entries(sessions).dom() =~= Set::<u32>::empty());
        assert(session_entries(sessions) =~= Map::<u32, Seq<char>>::empty());
        SessionManager { pool, sessions }
    }

    /// Runs the server's side of the handshake on a connection's first
    /// message and registers the session it opens.
    pub fn handle_client_hello(
        &mut self,
        first: Message,
        users: &UserDatabase,
        server_version: &String,
        subnet_mask: IpAddress,
        mtu: u16,
    ) -> (r: HandshakeReply)
        requires
            old(self).wf(),
            users.wf(),
        ensures
            final(self).wf(),
            !(first is ClientHello) ==> {
                &&& is_disconnect(r.reply, "Expected ClientHello"@)
                &&& r.session is None
                &&& final(self).pool() == old(self).pool()
                &&& final(self).sessions() == old(self).sessions()
            },
            first matches Message::ClientHello { username, password, .. } ==> {
                let authentic = users.users().contains_key(username@) && users.users()[username@]
                    == password@;
                &&& !authentic ==> is_disconnect(r.reply, "Authentication failed"@) && r.session
                    is None && final(self).pool() == old(self).pool() && final(self).sessions()
                    == old(self).sessions()
                &&& authentic ==> {
                        let lease = lease_of(r.session);
                        &&& allocated(old(self).pool(), final(self).pool(), lease)
                        &&& lease is None ==> is_disconnect(r.reply, "No available IP addresses"@)
                            && r.session is None && final(self).sessions() == old(self).sessions()
                        &&& lease matches Some(ip) ==> !old(self).sessions().contains_key(ip->V4_0)
                        &&& lease matches Some(ip) ==> (r.session matches Some((name, a))
                            && name@ == username@ && a == ip) && is_server_hello(
                            r.reply,
                            server_version@,
                            ip,
                            subnet_mask,
                            mtu,
                        ) && final(self).sessions() == old(self).sessions().insert(
                            ip->V4_0,
                            username@,
                        )
                    }
            },
    {
        let r = server_handshake(first, users, &mut self.pool, server_version, subnet_mask, mtu);
        match &r.session {
            Some((username, IpAddress::V4(a))) => {
                let ghost before = session_entries(self.sessions);
                let _ = table_insert(&mut self.sessions, *a, username.clone());
                assert(session_entries(self.sessions).dom() =~= before.dom().insert(*a));
            },
            _ => {},
        }
        r
    }

    /// Ends the session at `ip`: removes it from the table and ends its
    /// lease. Returns whether there was such a session; a second call for
    /// the same address finds none and releases nothing.
    pub fn end_session(&mut self, ip: u32) -> (r: bool)
        requires
            old(self).wf(),
        ensures
            final(self).wf(),
            r == old(self).sessions().contains_key(ip),
            final(self).sessions() == old(self).sessions().remove(ip),
            final(self).pool().leased() == old(self).pool().leased().remove(ip),
            final(self).pool().base() == old(self).pool().base(),
            final(self).pool().mask() == old(self).pool().mask(),
            final(self).pool().max() == old(self).pool().max(),
            r ==> exists|i: int|
                #[trigger] final(self).pool().is_free_offset(i) && offset_addr(
                    final(self).pool().base()->V4_0,
                    i,
                ) == ip,
    {
        let ghost before = session_entries(self.sessions);
        match table_remove(&mut self.sessions, ip) {
            Some(_) => {
                let _ = self.pool.release_ip(IpAddress::V4(ip));
                assert(session_entries(self.sessions).dom() =~= before.dom().remove(ip));
                proof {
                    lemma_released_is_free(old(self).pool, self.pool, ip);
                }
                true
            },
            None => {
                assert(before.remove(ip) =~= before);
                false
            },
        }
    }

    /// Where a packet read from the server's interface goes: the address
    /// of the session it is destined to, or `None` when it is not IPv4 or
    /// no session holds its destination, in which case it is dropped.
    pub fn route(&self, packet: &[u8]) -> (r: Option<u32>)
        ensures
            r matches Some(a) ==> ipv4_destination_of(packet@) == Some(IpAddress::V4(a))
                && self.sessions().contains_key(a),
            r is None ==> match ipv4_destination_of(packet@) {
                Some(IpAddress::V4(a)) => !self.sessions().contains_key(a),
                _ => true,
            },
    {
        match ipv4_destination(packet) {
            Some(IpAddress::V4(a)) => {
                if table_contains(&self.sessions, a) {
                    Some(a)
                } else {
                    None
                }
            },
            _ => None,
        }
    }

    /// Whether a session holds `ip`.
    pub fn has_session(&self, ip: u32) -> (r: bool)
        ensures
            r == self.sessions().contains_key(ip),
    {
        table_contains(&self.sessions, ip)
    }
}

} // verus!
