use spa_device::client::{bind_address, fresh_from, parse_suite, Attempts, Enroller, Error, Freshness, Knocker, Next};
use spa_device::envelope::GateKeypair;
use spa_device::gatekeeper::Crypto;
use spa_device::identity::ClientKey;
use spa_device::provision::{
    drawn_array, read_key, write_key, KeyMaterial, Provision, ProvisionError, TokenMaterial,
};
use spa_device::wire::Suite;

fn fault<T>(r: Result<T, Error>) -> String {
    match r {
        Ok(_) => panic!("accepted"),
        Err(e) => e.message(),
    }
}

#[test]
fn suites_parse_by_name() {
    assert_eq!(parse_suite("fips").unwrap(), Suite::Fips);
    assert_eq!(parse_suite("modern").unwrap(), Suite::Modern);
    assert_eq!(
        fault(parse_suite("Modern")),
        "unknown suite \"Modern\" (use fips|modern)"
    );
}

#[test]
fn generated_files_read_back() {
    for suite in [Suite::Fips, Suite::Modern] {
        let m = KeyMaterial::generate(suite).unwrap();
        let (knocker, ports) = Knocker::from_knock_text(&m.knock()).unwrap();
        assert_eq!(ports, vec![9999]);
        let packet = knocker.seal(&ports).unwrap();
        let opened = m.gate.open(&packet).unwrap();
        assert_eq!(opened.auth.gate_id, m.gate_id);
        assert_eq!(opened.auth.ports, vec![9999]);
        assert_eq!(&opened.auth.key_thumbprint, m.client.thumbprint());
        assert!(opened.auth.timestamp_nanos > 1_600_000_000_000_000_000);
        let again = m.gate.open(&knocker.seal(&ports).unwrap()).unwrap();
        assert_ne!(again.auth.nonce, opened.auth.nonce);

        let t = TokenMaterial::generate().unwrap();
        let (enroller, ports) = Enroller::from_texts(&m.knock(), &t.enroll()).unwrap();
        let packet = enroller.seal(&ports).unwrap();
        let opened = m.gate.open(&packet).unwrap();
        assert_eq!(opened.auth.key_thumbprint, t.token_id);
        assert!(m
            .gate
            .verify_mac(&t.secret, &opened.signing_bytes, &opened.auth.signature));
        assert!(!m
            .gate
            .verify_mac(b"", &opened.signing_bytes, &opened.auth.signature));
    }
}

#[test]
fn knock_texts_are_read_leniently() {
    let m = KeyMaterial::generate(Suite::Modern).unwrap();
    let text = format!(
        "# comment\r\n port = 80 \nsuite=fips\n\t suite\u{a0}= modern\t\ngate_pubkey_hex={}\ngate_id_hex={}\nclient_pkcs8_hex={}\nport=+0022",
        hex::encode(m.gate.public_key()),
        hex::encode(m.gate_id),
        hex::encode(m.client.to_pkcs8().unwrap()).to_uppercase(),
    );
    let (knocker, ports) = Knocker::from_knock_text(&text).unwrap();
    assert_eq!(ports, vec![22]);
    let fresh = Freshness {
        nonce: [5; 16],
        timestamp_nanos: 77,
    };
    let opened = m
        .gate
        .open(&knocker.seal_with(&[1, 2], &fresh).unwrap())
        .unwrap();
    assert_eq!(opened.auth.nonce, [5; 16]);
    assert_eq!(opened.auth.timestamp_nanos, 77);
    assert_eq!(opened.auth.ports, vec![1, 2]);
}

#[test]
fn knock_text_faults_are_named() {
    let m = KeyMaterial::generate(Suite::Modern).unwrap();
    let good = m.knock();
    let with = |key: &str, value: &str| {
        let text = format!("{good}{key}={value}\n");
        fault(Knocker::from_knock_text(&text))
    };
    let without = |key: &str| {
        let text: Vec<&str> = good.lines().filter(|l| !l.starts_with(key)).collect();
        fault(Knocker::from_knock_text(&text.join("\n")))
    };
    assert_eq!(
        with("suite", "none"),
        "unknown suite \"none\" (use fips|modern)"
    );
    assert_eq!(
        with("gate_pubkey_hex", "abc"),
        "bad hex: Odd number of digits"
    );
    assert_eq!(with("gate_id_hex", "ab"), "expected 16 bytes, got 1");
    assert_eq!(
        with("client_pkcs8_hex", "0z"),
        "bad hex: Invalid character 'z' at position 1"
    );
    assert_eq!(with("client_pkcs8_hex", "00"), "crypto: Key");
    for bad in ["65536", "", "+", "-1", "1 2", "0x10"] {
        assert_eq!(with("port", bad), "invalid port", "{bad}");
    }
    assert_eq!(without("suite"), "missing suite");
    assert_eq!(without("gate_pubkey_hex"), "missing gate_pubkey_hex");
    assert_eq!(without("gate_id_hex"), "missing gate_id_hex");
    assert_eq!(without("client_pkcs8_hex"), "missing client_pkcs8_hex");
    assert_eq!(without("port"), "missing port");
    let enroll = |text: &str| fault(Enroller::from_texts(&good, text));
    assert_eq!(enroll(""), "missing token_id_hex");
    assert_eq!(enroll("token_id_hex=00"), "expected 32 bytes, got 1");
    assert_eq!(
        enroll(&format!("token_id_hex={}", "00".repeat(32))),
        "missing secret_hex"
    );
}

#[test]
fn sealing_faults_are_named() {
    let gate = GateKeypair::generate(Suite::Modern).unwrap();
    let client = ClientKey::generate(Suite::Modern).unwrap();
    let pkcs8 = client.to_pkcs8().unwrap();
    let knocker = Knocker::new(
        Suite::Modern,
        gate.public_key().to_vec(),
        [1; 16],
        &pkcs8,
    )
    .unwrap();
    assert_eq!(fault(knocker.seal(&[])), "crypto: Encode");
    let lost = Knocker::new(Suite::Modern, vec![1, 2], [1; 16], &pkcs8).unwrap();
    assert_eq!(fault(lost.seal(&[22])), "crypto: Crypto");
    assert_eq!(
        fault(Knocker::new(Suite::Fips, vec![], [1; 16], &pkcs8)),
        "crypto: Key"
    );
    let enroller = Enroller::new(Suite::Modern, vec![], [1; 16], [2; 32], vec![3]);
    assert_eq!(fault(enroller.seal(&[22])), "crypto: Crypto");
    assert_eq!(fault(enroller.seal(&[22; 9])), "crypto: Encode");
    assert_eq!(Error::Io("gone".into()).message(), "io: gone");
}

#[test]
fn attempts_run_out() {
    for (asked, made) in [(0, 1), (1, 1), (3, 3)] {
        let mut attempts = Attempts::begin(asked);
        let mut tries = 0;
        let last = loop {
            tries += 1;
            match attempts.failed(format!("try {tries}")) {
                Next::Again(rest) => attempts = rest,
                Next::GiveUp(e) => break e.message(),
            }
        };
        assert_eq!(tries, made);
        assert_eq!(last, format!("unreachable after knocking: try {made}"));
    }
}

#[test]
fn generated_texts_are_exact() {
    let m = KeyMaterial::generate(Suite::Fips).unwrap();
    assert_eq!(
        m.gate_toml(),
        format!(
            "suite = \"fips\"\ngate_private_hex = \"{}\"\ngate_id_hex = \"{}\"\n\n[[client]]\nthumbprint_hex = \"{}\"\npublic_key_hex = \"{}\"\nports = [9999]\n",
            hex::encode(&m.gate_private),
            hex::encode(m.gate_id),
            hex::encode(m.client.thumbprint()),
            hex::encode(m.client.public_key()),
        )
    );
    assert_eq!(
        m.knock(),
        format!(
            "suite=fips\ngate_pubkey_hex={}\ngate_id_hex={}\nclient_pkcs8_hex={}\nport=9999\n",
            hex::encode(m.gate.public_key()),
            hex::encode(m.gate_id),
            hex::encode(m.client.to_pkcs8().unwrap()),
        )
    );
    let t = TokenMaterial {
        token_id: [0xab; 32],
        secret: [1; 32],
    };
    assert_eq!(
        t.token_toml(),
        format!(
            "[[token]]\ntoken_id_hex = \"{}\"\nsecret_hex = \"{}\"\nports = [9999]\n",
            "ab".repeat(32),
            "01".repeat(32)
        )
    );
    assert_eq!(
        t.enroll(),
        format!(
            "token_id_hex={}\nsecret_hex={}\n",
            "ab".repeat(32),
            "01".repeat(32)
        )
    );
}

fn args(n: usize) -> Vec<String> {
    ["eth0", "/o", "https://cp/", "tok", "1.2.3.4", "/ca.pem"][..n]
        .iter()
        .map(|s| s.to_string())
        .collect()
}

#[test]
fn provisioned_files_are_exact() {
    let p = Provision::from_args(&args(6), None, None).unwrap();
    assert_eq!(p.suite, Suite::Modern);
    assert_eq!(
        p.gated_toml(&[0xcd; 32]),
        format!(
            "interface = \"eth0\"\nknock_port = 62201\nbpf_object = \"/o\"\npinhole_ms = 2000\nskew_seconds = 2\nbundle_path = \"/etc/spa/bundle.spa\"\nsuite = \"modern\"\ngate_private_hex = \"{}\"\n\n[control_plane]\nurl        = \"https://cp/\"\ngate_token = \"tok\"\naddress    = \"1.2.3.4\"\nca_cert    = \"/ca.pem\"\n",
            "cd".repeat(32)
        )
    );
    let q = Provision::from_args(&args(5), Some("fips"), Some("4242")).unwrap();
    assert_eq!(q.knock_port, 4242);
    let text = q.generate().unwrap();
    assert!(text.contains("suite = \"fips\"\ngate_private_hex = \""));
    assert!(text.ends_with("address    = \"1.2.3.4\"\n"));
    let odd = Provision::from_args(&args(5), None, Some("x")).unwrap();
    assert_eq!(odd.knock_port, 62201);
}

#[test]
fn provision_faults_are_named() {
    let few = Provision::from_args(&args(4), Some("x"), None);
    assert!(matches!(few, Err(ProvisionError::Usage)));
    assert_eq!(
        few.err().unwrap().message(),
        "usage: provision <interface> <bpf_object> <control-plane-url> <gate-token> <gate-address> [ca_cert]"
    );
    assert_eq!(
        Provision::from_args(&args(5), Some("x"), None)
            .err()
            .unwrap()
            .message(),
        "unknown suite \"x\" (fips|modern)"
    );
}

#[test]
fn key_files_read_back() {
    let key = ClientKey::generate(Suite::Modern)
        .unwrap()
        .to_pkcs8()
        .unwrap();
    let text = write_key(&key);
    assert_eq!(text, hex::encode(&key));
    assert_eq!(read_key(&text).unwrap(), key);
    assert_eq!(read_key(&format!(" {text}\r\n")).unwrap(), key);
    assert_eq!(
        read_key("0").err().unwrap().message(),
        "Odd number of digits"
    );
}

#[test]
fn sockets_match_the_family_of_the_target() {
    assert_eq!(bind_address(true), "[::]:0");
    assert_eq!(bind_address(false), "0.0.0.0:0");
}

#[test]
fn draws_and_clock_readings_become_what_they_are() {
    let fresh = fresh_from(Some([9; 16]), Some((5 << 64) + 77)).unwrap();
    assert_eq!((fresh.nonce, fresh.timestamp_nanos), ([9; 16], 77));
    assert_eq!(
        fault(fresh_from(Some([9; 16]), None)),
        "system clock before epoch"
    );
    assert_eq!(fault(fresh_from(None, Some(1))), "rng failed");
    assert_eq!(fault(fresh_from(None, None)), "rng failed");

    assert_eq!(drawn_array::<3>(Some(vec![1, 2, 3])).unwrap(), [1, 2, 3]);
    assert_eq!(fault(drawn_array::<3>(None)), "rng failed");
    let token = TokenMaterial::from_draws(Ok([1; 32]), Ok([2; 32])).unwrap();
    assert_eq!((token.token_id, token.secret), ([1; 32], [2; 32]));
    assert_eq!(
        fault(TokenMaterial::from_draws(Ok([1; 32]), drawn_array(None))),
        "rng failed"
    );
    let a = TokenMaterial::generate().unwrap();
    let b = TokenMaterial::generate().unwrap();
    assert_ne!(a.token_id, b.token_id);
    assert_ne!(a.secret, b.secret);
}
