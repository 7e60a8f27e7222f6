use spa_device::addr::IpAddr;
use spa_device::filter::{
    keys, parse, rate_ok, source_allowed, spa_gate, Action, FlowUpdate, Lookups, RateState,
    RateUpdate, Verdict, FLOW_IDLE_NS, RATE_WINDOW_NS, TCP_ACK, TCP_FIN, TCP_RST, TCP_SYN,
};
use spa_device::grant::Grant;

const SRC: [u8; 4] = [10, 0, 0, 7];
const DST: [u8; 4] = [10, 0, 0, 1];

fn v4(proto: u8, l4: &[u8]) -> Vec<u8> {
    let mut p = vec![0u8; 12];
    p.extend_from_slice(&[0x08, 0x00]);
    let mut ip = vec![0x45u8, 0, 0, 0, 0, 0, 0, 0, 64, proto, 0, 0];
    ip.extend_from_slice(&SRC);
    ip.extend_from_slice(&DST);
    p.extend_from_slice(&ip);
    p.extend_from_slice(l4);
    p
}

fn v6(next: u8, l4: &[u8]) -> Vec<u8> {
    let mut p = vec![0u8; 12];
    p.extend_from_slice(&[0x86, 0xDD]);
    p.extend_from_slice(&[0x60, 0, 0, 0, 0, 0, next, 64]);
    p.extend_from_slice(&[1u8; 16]);
    p.extend_from_slice(&[2u8; 16]);
    p.extend_from_slice(l4);
    p
}

fn tcp(sport: u16, dport: u16, flags: u8) -> Vec<u8> {
    let mut t = Vec::new();
    t.extend_from_slice(&sport.to_be_bytes());
    t.extend_from_slice(&dport.to_be_bytes());
    t.extend_from_slice(&[0; 8]);
    t.push(0x50);
    t.push(flags);
    t.extend_from_slice(&[0; 6]);
    t
}

fn udp(dport: u16, payload: usize) -> Vec<u8> {
    let mut u = vec![0x12, 0x34];
    u.extend_from_slice(&dport.to_be_bytes());
    u.extend_from_slice(&[0; 4]);
    u.extend_from_slice(&vec![0xAA; payload]);
    u
}

fn nothing() -> Lookups {
    Lookups {
        knock_port: Some(62201),
        protected: true,
        last_seen: None,
        grant: None,
        rate: None,
    }
}

fn act(v: Verdict) -> (Action, FlowUpdate) {
    (v.action, v.flow)
}

#[test]
fn both_families_parse_to_unified_keys() {
    let flow = keys(&v4(6, &tcp(4000, 22, TCP_SYN))).unwrap();
    assert_eq!(flow.saddr, IpAddr::V4(SRC).key());
    assert_eq!(flow.daddr, IpAddr::V4(DST).key());
    assert_eq!((flow.sport, flow.dport), (4000, 22));
    let flow6 = keys(&v6(6, &tcp(4000, 22, TCP_SYN))).unwrap();
    assert_eq!(flow6.saddr, IpAddr::V6([1; 16]).key());
    assert_eq!(flow6.daddr, [2; 16]);
    let p = parse(&v4(6, &[])).unwrap().unwrap();
    assert_eq!((p.proto, p.l4_off), (6, 34));
    let p6 = parse(&v6(17, &[])).unwrap().unwrap();
    assert_eq!((p6.proto, p6.l4_off), (17, 54));
}

#[test]
fn ip_options_move_the_transport_header() {
    let mut packet = v4(6, &[]);
    packet[14] = 0x46;
    packet.extend_from_slice(&[9; 4]);
    packet.extend_from_slice(&tcp(1, 22, TCP_SYN));
    assert_eq!(parse(&packet).unwrap().unwrap().l4_off, 38);
    assert_eq!(keys(&packet).unwrap().dport, 22);
}

#[test]
fn what_is_not_understood_passes() {
    assert!(parse(&[0; 13]).is_err());
    assert!(parse(&[0; 14]).unwrap().is_none());
    let mut bad = v4(6, &tcp(1, 22, TCP_SYN));
    bad[14] = 0x44;
    assert!(parse(&bad).unwrap().is_none());
    assert!(parse(&v6(0, &tcp(1, 22, TCP_SYN))).unwrap().is_none());
    let cut = v4(6, &tcp(1, 22, TCP_SYN));
    for n in 0..47 {
        assert_eq!(
            spa_gate(&cut[..n], &nothing(), 5).action,
            Action::Pass,
            "len {n}"
        );
    }
    assert_eq!(spa_gate(&cut[..48], &nothing(), 5).action, Action::Drop);
    assert_eq!(
        spa_gate(&v4(1, &[0; 40]), &nothing(), 5).action,
        Action::Pass
    );
}

#[test]
fn protected_ports_are_cloaked() {
    for flags in [TCP_SYN, TCP_ACK, TCP_SYN | TCP_ACK, TCP_RST, TCP_FIN, 0] {
        assert_eq!(
            act(spa_gate(&v4(6, &tcp(1, 22, flags)), &nothing(), 1_000)),
            (Action::Drop, FlowUpdate::Keep)
        );
        assert_eq!(
            act(spa_gate(&v6(6, &tcp(1, 22, flags)), &nothing(), 1_000)),
            (Action::Drop, FlowUpdate::Keep)
        );
    }
    let mut open = nothing();
    open.protected = false;
    assert_eq!(
        spa_gate(&v4(6, &tcp(1, 80, TCP_SYN)), &open, 1_000).action,
        Action::Pass
    );
}

#[test]
fn a_live_grant_admits_a_pure_syn_only() {
    let mut found = nothing();
    found.grant = Some(Grant::issue(&[22], 1_000, 400));
    let syn = v4(6, &tcp(1, 22, TCP_SYN));
    assert_eq!(
        act(spa_gate(&syn, &found, 1_399)),
        (Action::Pass, FlowUpdate::SeenAt(1_399))
    );
    assert_eq!(spa_gate(&syn, &found, 1_400).action, Action::Drop);
    assert_eq!(
        spa_gate(&v4(6, &tcp(1, 23, TCP_SYN)), &found, 1_100).action,
        Action::Drop
    );
    assert_eq!(
        spa_gate(&v4(6, &tcp(1, 22, TCP_SYN | TCP_ACK)), &found, 1_100).action,
        Action::Drop
    );
    assert!(source_allowed(&found.grant, 22, 1_399));
    assert!(!source_allowed(&None, 22, 0));
}

#[test]
fn established_flows_outlive_the_grant() {
    let mut found = nothing();
    found.last_seen = Some(1_000);
    let data = v4(6, &tcp(1, 22, TCP_ACK));
    let now = 1_000 + FLOW_IDLE_NS - 1;
    assert_eq!(
        act(spa_gate(&data, &found, now)),
        (Action::Pass, FlowUpdate::SeenAt(now))
    );
    assert_eq!(
        act(spa_gate(&v4(6, &tcp(1, 22, TCP_FIN | TCP_ACK)), &found, now)),
        (Action::Pass, FlowUpdate::Forget)
    );
    assert_eq!(
        act(spa_gate(&data, &found, now + 1)),
        (Action::Drop, FlowUpdate::Forget)
    );
    found.grant = Some(Grant::issue(&[22], now, 400));
    assert_eq!(
        act(spa_gate(&v4(6, &tcp(1, 22, TCP_SYN)), &found, now + 1)),
        (Action::Pass, FlowUpdate::SeenAt(now + 1))
    );
}

#[test]
fn knocks_are_filtered_by_size() {
    for (size, action) in [
        (179, Action::Drop),
        (180, Action::Pass),
        (260, Action::Pass),
        (261, Action::Drop),
    ] {
        assert_eq!(
            spa_gate(&v4(17, &udp(62201, size)), &nothing(), 7).action,
            action,
            "{size}"
        );
        assert_eq!(
            spa_gate(&v6(17, &udp(62201, size)), &nothing(), 7).action,
            action
        );
    }
    assert_eq!(
        spa_gate(&v4(17, &udp(53, 10)), &nothing(), 7).action,
        Action::Pass
    );
    let mut unset = nothing();
    unset.knock_port = None;
    assert_eq!(
        spa_gate(&v4(17, &udp(62201, 10)), &unset, 7).action,
        Action::Pass
    );
}

#[test]
fn knocks_are_limited_per_window() {
    let packet = v4(17, &udp(62201, 200));
    let mut found = nothing();
    let mut passed = 0;
    for i in 0..15u64 {
        let verdict = spa_gate(&packet, &found, 1_000 + i);
        if verdict.action == Action::Pass {
            passed += 1;
        }
        if let RateUpdate::Store(next) = verdict.rate {
            found.rate = Some(next);
        }
    }
    assert_eq!(passed, 10);
    assert_eq!(
        found.rate,
        Some(RateState {
            window_ns: 1_000,
            count: 10,
            _pad: 0
        })
    );
    assert_eq!(
        rate_ok(&found.rate, 1_000 + RATE_WINDOW_NS),
        Some(RateState {
            window_ns: 1_000 + RATE_WINDOW_NS,
            count: 1,
            _pad: 0
        })
    );
    assert_eq!(rate_ok(&found.rate, 1_000 + RATE_WINDOW_NS - 1), None);
}

#[test]
fn an_opening_lets_its_source_connect() {
    let source = IpAddr::V6(IpAddr::V4(SRC).key());
    let mut allow = std::collections::HashMap::new();
    allow.insert(source.key(), Grant::issue(&[22], 1_000, 400));
    let syn = v4(6, &tcp(1, 22, TCP_SYN));
    let look = |packet: &[u8]| {
        let mut found = nothing();
        found.grant = allow.get(&keys(packet).unwrap().saddr).copied();
        found
    };
    assert_eq!(
        act(spa_gate(&syn, &look(&syn), 1_399)),
        (Action::Pass, FlowUpdate::SeenAt(1_399))
    );
    assert_eq!(spa_gate(&syn, &look(&syn), 1_400).action, Action::Drop);
    let mut other = syn.clone();
    other[29] ^= 1;
    assert_eq!(spa_gate(&other, &look(&other), 1_200).action, Action::Drop);
}
