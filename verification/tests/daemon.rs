use spa_device::addr::IpAddr;
use spa_device::audit::{bundle, control_plane, floor, knock, startup, Event};
use spa_device::control::{
    bundle_changed, bundle_url, chain, identity_body, identity_url, parse_gate_id, settle_anchor,
    settle_gate_id, uses_bundle, ControlError,
};
use spa_device::gatekeeper::{Decision, Reject};
use spa_device::client::Error;
use spa_device::mesh::{
    dial_error, has_landed, prefix_to_mask, tun_step, Attempt, FlowStep, Listeners, MeshPort,
    Splice, TunRead, TunStep, DIAL_ATTEMPTS,
};
use spa_device::nft::{install_floor, set_ports, timeout_secs};

#[test]
fn floor_script_is_exact() {
    assert_eq!(
        install_floor(&[22, 8443]),
        "add table inet spa\n\
         flush table inet spa\n\
         table inet spa {\n\
         \x20 set allow4 { type ipv4_addr; flags timeout; }\n\
         \x20 set ports { type inet_service; }\n\
         \x20 chain input {\n\
         \x20   type filter hook input priority filter; policy accept;\n\
         \x20   ct state established,related accept\n\
         \x20   tcp dport @ports ip saddr @allow4 accept\n\
         \x20   tcp dport @ports drop\n\
         \x20 }\n\
         }\n\
         add element inet spa ports { 22 }\n\
         add element inet spa ports { 8443 }\n"
    );
    assert_eq!(
        set_ports(&[1]),
        "flush set inet spa ports\nadd element inet spa ports { 1 }\n"
    );
}

#[test]
fn grants_are_mirrored_for_at_least_a_second() {
    assert_eq!(spa_device::nft::allow([10, 0, 0, 255], 0), "{ 10.0.0.255 timeout 1s }");
    assert_eq!(spa_device::nft::allow([1, 2, 3, 4], 12), "{ 1.2.3.4 timeout 12s }");
    assert_eq!(timeout_secs(0), 0);
    assert_eq!(timeout_secs(1), 1);
    assert_eq!(timeout_secs(1_000_000_000), 1);
    assert_eq!(timeout_secs(1_000_000_001), 2);
}

#[test]
fn knock_events_tell_the_decision() {
    let source = IpAddr::V4([1, 2, 3, 4]);
    match knock(source, &Decision::Opened { ports: vec![22] }) {
        Event::Knock {
            source: s,
            outcome,
            ports,
            reason,
        } => {
            assert_eq!(s, source);
            assert_eq!(outcome, "open");
            assert_eq!(ports, Some(vec![22]));
            assert_eq!(reason, None);
        }
        _ => panic!("wrong event"),
    }
    for (reject, name) in [
        (Reject::Undecryptable, "Undecryptable"),
        (Reject::WrongGate, "WrongGate"),
        (Reject::Expired, "Expired"),
        (Reject::UnknownClient, "UnknownClient"),
        (Reject::BadSignature, "BadSignature"),
        (Reject::PortNotAllowed, "PortNotAllowed"),
        (Reject::Replay, "Replay"),
    ] {
        assert_eq!(format!("{reject:?}"), name);
        match knock(source, &Decision::Rejected(reject)) {
            Event::Knock {
                outcome,
                ports,
                reason,
                ..
            } => {
                assert_eq!(outcome, "deny");
                assert_eq!(ports, None);
                assert_eq!(reason, Some(name));
            }
            _ => panic!("wrong event"),
        }
    }
}

#[test]
fn other_events_carry_their_fields() {
    match startup("eth0", 62201, "fips", &[22], 3, 1, true) {
        Event::Startup {
            interface,
            knock_port,
            suite,
            protected,
            clients,
            tokens,
            nft_floor,
        } => {
            assert_eq!(interface, "eth0");
            assert_eq!(knock_port, 62201);
            assert_eq!(suite, "fips");
            assert_eq!(protected, vec![22]);
            assert_eq!((clients, tokens, nft_floor), (3, 1, true));
        }
        _ => panic!("wrong event"),
    }
    assert!(matches!(floor(&[1, 2]), Event::Floor { protected } if protected == vec![1, 2]));
    assert!(matches!(
        bundle("loaded", Some(3), None),
        Event::Bundle {
            action: "loaded",
            generation: Some(3),
            detail: None
        }
    ));
    assert!(
        matches!(control_plane("registered", "ab".into()), Event::ControlPlane { step, about } if step == "registered" && about == "ab")
    );
}

#[test]
fn control_plane_messages_are_exact() {
    assert_eq!(
        identity_body("ab", "10.0.0.59", 62201),
        "{\"public_key_hex\":\"ab\",\"address\":\"10.0.0.59\",\"knock_port\":62201}"
    );
    assert_eq!(identity_url("https://cp/"), "https://cp/api/gate/identity");
    assert_eq!(bundle_url("https://cp"), "https://cp/api/gate/bundle");
    assert_eq!(bundle_url("//"), "/api/gate/bundle");
    assert_eq!(chain(&[]), "");
    assert_eq!(chain(&["a".into()]), "a");
    assert_eq!(chain(&["a".into(), "b".into(), "c".into()]), "a: b: c");
}

#[test]
fn pinned_values_win_over_told_ones() {
    assert_eq!(
        settle_anchor(Some(vec![1]), Some("zz")).unwrap(),
        Some(vec![1])
    );
    assert_eq!(settle_anchor(None, Some("0a")).unwrap(), Some(vec![10]));
    assert_eq!(settle_anchor(None, None).unwrap(), None);
    assert_eq!(
        settle_anchor(None, Some("0")).err().unwrap().message(),
        "control-plane config_anchor: Odd number of digits"
    );
    assert_eq!(settle_gate_id(Some([1; 16]), None).unwrap(), [1; 16]);
    assert_eq!(
        settle_gate_id(None, Some(&"0f".repeat(16))).unwrap(),
        [15; 16]
    );
    assert_eq!(settle_gate_id(None, None), Err(ControlError::NoGateId));
    assert_eq!(
        ControlError::NoGateId.message(),
        "no gate_id: set gate_id_hex, or configure [control_plane]"
    );
    assert_eq!(
        parse_gate_id("00").err().unwrap().message(),
        "control-plane gate_id: expected 16 bytes, got 1"
    );
    assert_eq!(
        parse_gate_id("x0").err().unwrap().message(),
        "control-plane gate_id: Invalid character 'x' at position 0"
    );
    assert!(uses_bundle(&Some(vec![]), &Some("p".into())));
    assert!(!uses_bundle(&Some(vec![]), &None));
    assert!(!uses_bundle(&None, &Some("p".into())));
    assert!(bundle_changed(None, b"a"));
    assert!(bundle_changed(Some(b"b"), b"a"));
    assert!(!bundle_changed(Some(b"a"), b"a"));
}

#[test]
fn netmasks_have_leading_ones() {
    for (prefix, mask) in [
        (0u8, 0u32),
        (1, 0x8000_0000),
        (10, 0xffc0_0000),
        (24, 0xffff_ff00),
        (31, 0xffff_fffe),
        (32, 0xffff_ffff),
    ] {
        assert_eq!(prefix_to_mask(prefix), mask);
    }
}

#[test]
fn splices_keep_order_both_ways() {
    let mut s = Splice::new();
    assert!(s.wants_mesh() && s.wants_backend());
    assert!(!s.alive(false));
    s.from_mesh(b"hello");
    assert!(!s.wants_mesh());
    assert_eq!(s.backend_took(Attempt::WouldBlock), FlowStep::Continue);
    assert_eq!(s.backend_took(Attempt::Moved(2)), FlowStep::Continue);
    assert_eq!(s.for_backend(), b"llo");
    s.from_mesh(b"!");
    assert_eq!(s.for_backend(), b"llo!");
    assert!(s.alive(false));
    assert_eq!(s.backend_took(Attempt::Moved(4)), FlowStep::Continue);
    assert_eq!(
        s.backend_gave(b"world__", Attempt::Moved(5)),
        FlowStep::Continue
    );
    assert_eq!(s.for_mesh(), b"world");
    s.mesh_took(3);
    assert_eq!(s.for_mesh(), b"ld");
    assert_eq!(s.backend_gave(b"", Attempt::Moved(0)), FlowStep::CloseMesh);
    assert_eq!(s.backend_gave(b"", Attempt::Failed), FlowStep::Finish);
    assert_eq!(s.backend_took(Attempt::Failed), FlowStep::Finish);
    s.mesh_took(2);
    assert!(!s.alive(false));
    assert!(s.alive(true));
}

#[test]
fn tunnel_and_listener_steps() {
    assert_eq!(tun_step(TunRead::Bytes(0)), TunStep::Stop);
    assert_eq!(tun_step(TunRead::Bytes(9)), TunStep::Forward(9));
    assert_eq!(tun_step(TunRead::Interrupted), TunStep::Retry);
    assert_eq!(tun_step(TunRead::Broken), TunStep::Stop);
    assert!(has_landed(false, true));
    assert!(!has_landed(true, true));
    assert!(!has_landed(false, false));
}

#[test]
fn landed_listeners_are_replaced() {
    let ssh = MeshPort {
        ip: [100, 64, 0, 1],
        port: 22,
    };
    let web = MeshPort {
        ip: [100, 64, 0, 1],
        port: 443,
    };
    let mut listeners: Listeners<u32> = Listeners::new();
    assert_eq!(listeners.len(), 0);
    listeners.listen(ssh, 7);
    listeners.listen(web, 8);
    listeners.listen(ssh, 9);
    assert_eq!(listeners.len(), 2);
    assert_eq!(listeners.at(0), (ssh, 9));
    assert_eq!(listeners.at(1), (web, 8));
}

#[test]
fn dial_failures_are_told_in_words() {
    assert_eq!(
        dial_error(&Error::Unreachable("refused".into())),
        "backend unreachable after knocking: refused"
    );
    assert_eq!(dial_error(&Error::Io("gone".into())), "io: gone");
}

#[test]
fn a_flow_is_knocked_for_once_more() {
    assert_eq!(DIAL_ATTEMPTS, 2);
}
