use spa_device::addr::IpAddr;
use spa_device::grant::{monotonic_ns, GateConfig, Grant, MAX_GRANT_PORTS};

fn grant(ports: &[u16]) -> Grant {
    let mut g = Grant {
        expiry_ns: 0,
        ports: [0; MAX_GRANT_PORTS],
        port_count: ports.len() as u8,
        _pad: [0; 7],
    };
    g.ports[..ports.len()].copy_from_slice(ports);
    g
}

#[test]
fn allows_listed_ports_only() {
    let g = grant(&[22, 8443]);
    assert!(g.allows_port(22));
    assert!(g.allows_port(8443));
    assert!(!g.allows_port(80));
}

#[test]
fn empty_grant_allows_nothing() {
    assert!(!grant(&[]).allows_port(22));
}

#[test]
fn count_is_clamped_to_capacity() {
    let mut g = grant(&[22]);
    g.port_count = 255;
    assert!(g.allows_port(22));
    assert!(!g.allows_port(80));
}

#[test]
fn layout_is_stable() {
    assert_eq!(core::mem::size_of::<Grant>(), 32);
    assert_eq!(core::mem::align_of::<Grant>(), 8);
    assert_eq!(core::mem::size_of::<GateConfig>(), 8);
}

#[test]
fn issued_grants_hold_their_ports_and_expiry() {
    let g = Grant::issue(&[22, 80], 1_000, 400);
    assert_eq!(g.expiry_ns, 1_400);
    assert_eq!(g.port_count, 2);
    assert_eq!(g.ports, [22, 80, 0, 0, 0, 0, 0, 0]);
    let many = Grant::issue(&[1, 2, 3, 4, 5, 6, 7, 8, 9], u64::MAX, 1);
    assert_eq!(many.expiry_ns, u64::MAX);
    assert_eq!(many.port_count, 8);
    assert!(many.allows_port(8));
    assert!(!many.allows_port(9));
}

#[test]
fn monotonic_time_saturates() {
    assert_eq!(monotonic_ns(3, 7), 3_000_000_007);
    assert_eq!(monotonic_ns(u64::MAX, 7), u64::MAX);
    assert_eq!(monotonic_ns(18_446_744_073, 709_551_616), u64::MAX);
}

#[test]
fn address_keys_unify_both_families() {
    assert_eq!(
        IpAddr::V4([10, 0, 0, 7]).key(),
        [0, 0, 0, 0, 0, 0, 0, 0, 0, 0, 0xff, 0xff, 10, 0, 0, 7]
    );
    assert_eq!(IpAddr::V6([9; 16]).key(), [9; 16]);
}

#[test]
fn mapped_sources_are_ipv4_sources() {
    let octets = [10, 0, 0, 7];
    assert_eq!(IpAddr::V4(octets).v4(), Some(octets));
    assert_eq!(IpAddr::V6(IpAddr::V4(octets).key()).v4(), Some(octets));
    assert_eq!(IpAddr::V6([0; 16]).v4(), None);
    assert_eq!(IpAddr::V6([0xff; 16]).v4(), None);
}
