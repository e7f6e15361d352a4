use quicvpn::addr::{ipv4_destination, IpAddress};
use quicvpn::ip_allocator::IpAllocator;
use quicvpn::user_db::UserDatabase;

fn net_24() -> IpAllocator {
    IpAllocator::new(IpAddress::v4(10, 8, 0, 0), IpAddress::v4(255, 255, 255, 0), 3)
}

#[test]
fn v4_builds_big_endian_integer() {
    assert_eq!(IpAddress::v4(10, 8, 0, 1), IpAddress::V4(0x0a08_0001));
    assert_eq!(IpAddress::v4(255, 255, 255, 0), IpAddress::V4(0xffff_ff00));
}

#[test]
fn three_leases_then_exhausted_then_lowest_reused() {
    let mut pool = net_24();
    let a = pool.allocate_ip();
    let b = pool.allocate_ip();
    let c = pool.allocate_ip();
    assert_eq!(a, Some(IpAddress::v4(10, 8, 0, 1)));
    assert_eq!(b, Some(IpAddress::v4(10, 8, 0, 2)));
    assert_eq!(c, Some(IpAddress::v4(10, 8, 0, 3)));
    assert_ne!(a, b);
    assert_ne!(b, c);
    assert_ne!(a, c);
    assert_eq!(pool.allocate_ip(), None);
    assert!(pool.release_ip(IpAddress::v4(10, 8, 0, 2)));
    assert_eq!(pool.allocate_ip(), Some(IpAddress::v4(10, 8, 0, 2)));
    assert_eq!(pool.allocate_ip(), None);
}

#[test]
fn full_subnet_never_gives_network_or_broadcast() {
    let mut pool =
        IpAllocator::new(IpAddress::v4(192, 168, 1, 0), IpAddress::v4(255, 255, 255, 0), 254);
    let mut seen = Vec::new();
    while let Some(ip) = pool.allocate_ip() {
        assert_ne!(ip, IpAddress::v4(192, 168, 1, 0));
        assert_ne!(ip, IpAddress::v4(192, 168, 1, 255));
        assert!(!seen.contains(&ip));
        seen.push(ip);
    }
    assert_eq!(seen.len(), 254);
    assert_eq!(seen[253], IpAddress::v4(192, 168, 1, 254));
}

#[test]
fn release_reports_whether_leased() {
    let mut pool = net_24();
    assert!(!pool.release_ip(IpAddress::v4(10, 8, 0, 1)));
    pool.allocate_ip();
    assert!(pool.release_ip(IpAddress::v4(10, 8, 0, 1)));
    assert!(!pool.release_ip(IpAddress::v4(10, 8, 0, 1)));
    assert!(!pool.release_ip(IpAddress::V6(1)));
}

#[test]
fn ipv6_base_is_unsupported() {
    let mut pool = IpAllocator::new(IpAddress::V6(0xfd00 << 112), IpAddress::V6(u128::MAX << 64), 3);
    assert_eq!(pool.allocate_ip(), None);
}

#[test]
fn zero_max_clients_allocates_nothing() {
    let mut pool = IpAllocator::new(IpAddress::v4(10, 0, 0, 0), IpAddress::v4(255, 0, 0, 0), 0);
    assert_eq!(pool.allocate_ip(), None);
}

#[test]
fn small_subnet_keeps_broadcast_out() {
    let mut pool =
        IpAllocator::new(IpAddress::v4(10, 0, 0, 0), IpAddress::v4(255, 255, 255, 252), 3);
    assert_eq!(pool.allocate_ip(), Some(IpAddress::v4(10, 0, 0, 1)));
    assert_eq!(pool.allocate_ip(), Some(IpAddress::v4(10, 0, 0, 2)));
    assert_eq!(pool.allocate_ip(), None);
}

#[test]
fn base_inside_subnet_stops_below_broadcast() {
    let mut pool =
        IpAllocator::new(IpAddress::v4(10, 8, 0, 250), IpAddress::v4(255, 255, 255, 0), 10);
    let mut seen = Vec::new();
    while let Some(ip) = pool.allocate_ip() {
        seen.push(ip);
    }
    assert_eq!(
        seen,
        vec![
            IpAddress::v4(10, 8, 0, 251),
            IpAddress::v4(10, 8, 0, 252),
            IpAddress::v4(10, 8, 0, 253),
            IpAddress::v4(10, 8, 0, 254)
        ]
    );
}

#[test]
fn top_of_address_space_gives_no_broadcast() {
    let mut pool =
        IpAllocator::new(IpAddress::v4(255, 255, 255, 254), IpAddress::v4(255, 255, 255, 254), 3);
    assert_eq!(pool.allocate_ip(), None);
}

#[test]
fn authenticate_exact_pairs_only() {
    let mut db = UserDatabase::new();
    db.add_user("alice".to_string(), "correct".to_string());
    db.add_user("bob".to_string(), "hunter2".to_string());
    assert!(db.authenticate("alice", "correct"));
    assert!(db.authenticate("bob", "hunter2"));
    assert!(!db.authenticate("alice", "wrong"));
    assert!(!db.authenticate("alice", "hunter2"));
    assert!(!db.authenticate("carol", "correct"));
    assert!(!db.authenticate("", ""));
}

#[test]
fn add_user_replaces_password() {
    let mut db = UserDatabase::new();
    db.add_user("alice".to_string(), "old".to_string());
    db.add_user("alice".to_string(), "new".to_string());
    assert!(!db.authenticate("alice", "old"));
    assert!(db.authenticate("alice", "new"));
    assert_eq!(db.entries().len(), 1);
}

#[test]
fn remove_user_reports_presence() {
    let mut db = UserDatabase::new();
    db.add_user("alice".to_string(), "pw".to_string());
    db.add_user("bob".to_string(), "pw2".to_string());
    assert!(db.remove_user("alice"));
    assert!(!db.remove_user("alice"));
    assert!(!db.authenticate("alice", "pw"));
    assert!(db.authenticate("bob", "pw2"));
    assert_eq!(db.entries(), vec![("bob".to_string(), "pw2".to_string())]);
}

#[test]
fn destination_of_ipv4_packet() {
    let mut p = vec![0u8; 28];
    p[0] = 0x45;
    p[16] = 10;
    p[17] = 8;
    p[18] = 0;
    p[19] = 7;
    assert_eq!(ipv4_destination(&p), Some(IpAddress::v4(10, 8, 0, 7)));
    p[0] = 0x60;
    assert_eq!(ipv4_destination(&p), None);
    let mut header_only = vec![0u8; 20];
    header_only[0] = 0x45;
    header_only[16] = 192;
    header_only[19] = 9;
    assert_eq!(ipv4_destination(&header_only), Some(IpAddress::v4(192, 0, 0, 9)));
    let mut short = vec![0u8; 19];
    short[0] = 0x45;
    assert_eq!(ipv4_destination(&short), None);
}
