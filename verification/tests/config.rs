use spa_device::config::{
    find_suite, name_suite, saturating_mul, Config, ControlPlane, RawClient, RawConfig, RawToken,
};
use spa_device::envelope::GateKeypair;
use spa_device::provision::{write_key, KeyMaterial, Provision};
use spa_device::wire::Suite;

fn raw() -> RawConfig {
    RawConfig {
        interface: "eth0".into(),
        knock_port: 62201,
        suite: "modern".into(),
        gate_private_hex: "11".repeat(32),
        gate_id_hex: Some("22".repeat(16)),
        bpf_object: "/opt/filter".into(),
        pinhole_ms: None,
        skew_seconds: None,
        nftables_floor: None,
        config_anchor_hex: None,
        bundle_path: None,
        protected_ports: vec![22],
        client: vec![RawClient {
            thumbprint_hex: "33".repeat(32),
            public_key_hex: "aBcD".into(),
            ports: vec![22, 80],
        }],
        token: vec![RawToken {
            token_id_hex: "44".repeat(32),
            secret_hex: "".into(),
            ports: vec![9999],
        }],
        control_plane: None,
    }
}

fn fault(raw: RawConfig) -> String {
    Config::from_raw(raw).err().unwrap().message()
}

#[test]
fn defaults_fill_in() {
    let c = Config::from_raw(raw()).unwrap();
    assert_eq!(c.interface, "eth0");
    assert_eq!(c.suite, Suite::Modern);
    assert_eq!(c.gate_private, vec![0x11; 32]);
    assert_eq!(c.gate_id, Some([0x22; 16]));
    assert_eq!((c.pinhole_ms, c.skew_seconds, c.nftables_floor), (400, 2, true));
    assert_eq!(c.config_anchor, None);
    assert_eq!(c.clients.len(), 1);
    assert_eq!(c.clients[0].thumbprint, [0x33; 32]);
    assert_eq!(c.clients[0].public_key, vec![0xab, 0xcd]);
    assert_eq!(c.clients[0].ports, vec![22, 80]);
    assert_eq!(c.tokens[0].token_id, [0x44; 32]);
    assert!(c.tokens[0].secret.is_empty());
    let policy = c.gate_policy([5; 16]);
    assert_eq!(policy.gate_id, [5; 16]);
    assert_eq!(policy.skew_nanos, 2_000_000_000);
    assert_eq!(policy.pinhole_nanos, 400_000_000);
    assert_eq!(c.replay_window_nanos(), 5_000_000_000);
}

#[test]
fn set_values_are_kept() {
    let mut r = raw();
    r.suite = "fips".into();
    r.pinhole_ms = Some(u64::MAX);
    r.skew_seconds = Some(7);
    r.nftables_floor = Some(false);
    r.config_anchor_hex = Some("0102".into());
    r.bundle_path = Some("/etc/spa/bundle.spa".into());
    r.gate_id_hex = None;
    r.control_plane = Some(ControlPlane {
        url: "https://cp".into(),
        gate_token: "t".into(),
        address: "a".into(),
        ca_cert: None,
    });
    let c = Config::from_raw(r).unwrap();
    assert_eq!(c.suite, Suite::Fips);
    assert_eq!(c.gate_id, None);
    assert_eq!(c.config_anchor, Some(vec![1, 2]));
    assert!(!c.nftables_floor);
    assert_eq!(c.gate_policy([0; 16]).pinhole_nanos, u64::MAX);
    assert_eq!(c.replay_window_nanos(), 15_000_000_000);
    assert_eq!(c.control_plane.unwrap().url, "https://cp");
}

#[test]
fn each_fault_is_named() {
    let mut r = raw();
    r.suite = "rot13".into();
    assert_eq!(fault(r), "unknown suite \"rot13\"");
    let mut r = raw();
    r.config_anchor_hex = Some("0".into());
    assert_eq!(fault(r), "config_anchor_hex: Odd number of digits");
    let mut r = raw();
    r.gate_private_hex = "11".into();
    assert_eq!(fault(r), "gate_private_hex: expected 32 bytes, got 1");
    let mut r = raw();
    r.gate_id_hex = Some("2222".into());
    assert_eq!(fault(r), "gate_id_hex: expected 16 bytes, got 2");
    let mut r = raw();
    r.client[0].thumbprint_hex = "3".into();
    assert_eq!(fault(r), "thumbprint_hex: Odd number of digits");
    let mut r = raw();
    r.client[0].public_key_hex = "0g".into();
    assert_eq!(
        fault(r),
        "public_key_hex: Invalid character 'g' at position 1"
    );
    let mut r = raw();
    r.token[0].token_id_hex = "".into();
    assert_eq!(fault(r), "token_id_hex: expected 32 bytes, got 0");
    let mut r = raw();
    r.token[0].secret_hex = "é!".into();
    assert_eq!(fault(r), "secret_hex: Odd number of digits");
    let mut r = raw();
    r.token[0].secret_hex = "é".into();
    assert_eq!(fault(r), "secret_hex: Invalid character 'Ã' at position 0");
}

#[test]
fn the_first_fault_is_reported() {
    let mut r = raw();
    r.client[0].public_key_hex = "x".into();
    r.token[0].secret_hex = "x".into();
    r.gate_private_hex = "x".into();
    assert_eq!(fault(r), "gate_private_hex: Odd number of digits");
    let mut r = raw();
    r.client.push(RawClient {
        thumbprint_hex: "zz".into(),
        public_key_hex: "".into(),
        ports: vec![],
    });
    r.client.push(RawClient {
        thumbprint_hex: "z".into(),
        public_key_hex: "".into(),
        ports: vec![],
    });
    assert_eq!(
        fault(r),
        "thumbprint_hex: Invalid character 'z' at position 0"
    );
}

#[test]
fn suites_have_names() {
    for suite in [Suite::Fips, Suite::Modern] {
        assert_eq!(find_suite(name_suite(suite)), Some(suite));
    }
    assert_eq!(find_suite("Fips"), None);
    assert_eq!(saturating_mul(3, 4), 12);
    assert_eq!(saturating_mul(u64::MAX, 2), u64::MAX);
}

#[test]
fn generated_material_makes_an_accepted_file() {
    for (suite, name) in [(Suite::Fips, "fips"), (Suite::Modern, "modern")] {
        let m = KeyMaterial::generate(suite).unwrap();
        assert_eq!(m.gate_private.len(), 32);
        let mut r = raw();
        r.suite = name.into();
        r.gate_private_hex = write_key(&m.gate_private);
        r.gate_id_hex = Some(write_key(&m.gate_id));
        r.client = vec![RawClient {
            thumbprint_hex: write_key(m.client.thumbprint()),
            public_key_hex: write_key(m.client.public_key()),
            ports: vec![9999],
        }];
        r.token = Vec::new();
        let c = Config::from_raw(r).unwrap();
        assert_eq!(c.suite, suite);
        assert_eq!(c.gate_private, m.gate_private);
        assert_eq!(c.gate_id, Some(m.gate_id));
        assert_eq!(c.clients.len(), 1);
        assert_eq!(&c.clients[0].thumbprint, m.client.thumbprint());
        assert_eq!(c.clients[0].public_key, m.client.public_key());
        let gate = GateKeypair::from_raw_private(c.suite, &c.gate_private).unwrap();
        assert_eq!(gate.public_key(), m.gate.public_key());
    }
}

#[test]
fn provisioned_key_makes_an_accepted_file() {
    let args: Vec<String> = ["eth0", "/o", "https://cp/", "tok", "1.2.3.4"]
        .iter()
        .map(|a| a.to_string())
        .collect();
    let text = Provision::from_args(&args, Some("fips"), None)
        .unwrap()
        .generate()
        .unwrap();
    let start = text.find("gate_private_hex = \"").unwrap() + 20;
    let mut r = raw();
    r.suite = "fips".into();
    r.gate_private_hex = text[start..start + 64].to_string();
    assert!(text[start + 64..].starts_with("\"\n"));
    r.gate_id_hex = None;
    r.client = Vec::new();
    r.token = Vec::new();
    let c = Config::from_raw(r).unwrap();
    assert_eq!(c.gate_id, None);
    assert!(GateKeypair::from_raw_private(c.suite, &c.gate_private).is_ok());
}
