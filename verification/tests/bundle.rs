use spa_device::adapters::ConfigTrust;
use spa_device::audit::{applied, not_applied, Event};
use spa_device::bundle::{load_verify, sign_bundle, Bundle, RawBundle};
use spa_device::config::{ClientEntry, RawClient, RawToken, TokenEntry};
use spa_device::gatekeeper::TrustStore;
use spa_device::identity::ClientKey;
use spa_device::watch::{Outcome, Watch};
use spa_device::wire::Suite;

#[test]
fn signed_bundles_verify_to_their_text() {
    let anchor = ClientKey::generate(Suite::Modern).unwrap();
    let data = sign_bundle(&anchor, "generation = 7\n".as_bytes()).unwrap();
    assert_eq!(data.len(), 64 + 15);
    let mut expected = anchor.sign_detached(b"generation = 7\n").unwrap();
    expected.extend_from_slice(b"generation = 7\n");
    assert_eq!(data, expected);
    assert_eq!(
        load_verify(&data, anchor.public_key()).unwrap(),
        "generation = 7\n"
    );
    let empty = sign_bundle(&anchor, b"").unwrap();
    assert_eq!(load_verify(&empty, anchor.public_key()).unwrap(), "");
}

#[test]
fn bad_bundles_are_refused() {
    let anchor = ClientKey::generate(Suite::Modern).unwrap();
    let other = ClientKey::generate(Suite::Modern).unwrap();
    let data = sign_bundle(&anchor, b"generation = 7\n").unwrap();
    let fault = |data: &[u8], key: &[u8]| load_verify(data, key).err().unwrap().message();
    assert_eq!(
        fault(&data[..63], anchor.public_key()),
        "bundle shorter than its signature"
    );
    assert_eq!(fault(&data, other.public_key()), "bundle signature invalid");
    let mut changed = data.clone();
    changed[70] ^= 1;
    assert_eq!(
        fault(&changed, anchor.public_key()),
        "bundle signature invalid"
    );
    let binary = sign_bundle(&anchor, &[b'a', 0xff]).unwrap();
    assert_eq!(
        fault(&binary, anchor.public_key()),
        "invalid utf-8 sequence of 1 bytes from index 1"
    );
}

#[test]
fn payloads_are_checked() {
    let ok = Bundle::from_raw(RawBundle {
        generation: 9,
        protected_ports: vec![22],
        client: vec![RawClient {
            thumbprint_hex: "01".repeat(32),
            public_key_hex: "02".into(),
            ports: vec![22],
        }],
        token: vec![],
    })
    .unwrap();
    assert_eq!(ok.generation, 9);
    assert_eq!(ok.clients[0].public_key, vec![2]);
    let bad = Bundle::from_raw(RawBundle {
        generation: 9,
        protected_ports: vec![],
        client: vec![],
        token: vec![RawToken {
            token_id_hex: "01".into(),
            secret_hex: "".into(),
            ports: vec![],
        }],
    });
    assert_eq!(
        bad.err().unwrap().message(),
        "token_id_hex: expected 32 bytes, got 1"
    );
}

fn bundle(generation: u64, ports: &[u16], id: u8) -> Bundle {
    Bundle {
        generation,
        protected_ports: ports.to_vec(),
        clients: vec![ClientEntry {
            thumbprint: [id; 32],
            public_key: vec![id],
            ports: vec![22],
        }],
        tokens: vec![TokenEntry {
            token_id: [id + 100; 32],
            secret: vec![],
            ports: vec![22],
        }],
    }
}

#[test]
fn newer_bundles_take_over_and_older_are_ignored() {
    let mut trust = ConfigTrust::new(Suite::Modern);
    let mut watch = Watch::new(Some(1), vec![22, 80], 4);
    match watch.apply(&mut trust, Ok(bundle(5, &[80, 443, 443], 1))) {
        Outcome::Applied { add, remove } => {
            assert_eq!(add, vec![443]);
            assert_eq!(remove, vec![22]);
        }
        _ => panic!("newer bundle refused"),
    }
    assert!(trust.lookup(&[1; 32]).is_some());
    assert!(trust.lookup(&[101; 32]).is_some());

    let outcome = watch.apply(&mut trust, Ok(bundle(5, &[1], 2)));
    assert!(matches!(
        outcome,
        Outcome::Ignored {
            generation: 5,
            applied: 5
        }
    ));
    match not_applied(&outcome) {
        Some(Event::Bundle {
            action,
            generation,
            detail,
        }) => {
            assert_eq!(action, "ignored");
            assert_eq!(generation, Some(5));
            assert_eq!(detail.unwrap(), "<= applied 5");
        }
        _ => panic!("no event"),
    }
    assert!(trust.lookup(&[1; 32]).is_some());
    assert!(trust.lookup(&[2; 32]).is_none());

    let outcome = watch.apply(&mut trust, Err("no such file".to_string()));
    match not_applied(&outcome) {
        Some(Event::Bundle { action, detail, .. }) => {
            assert_eq!(action, "rejected");
            assert_eq!(detail.unwrap(), "no such file");
        }
        _ => panic!("no event"),
    }
    assert!(trust.lookup(&[1; 32]).is_some());

    let outcome = watch.apply(&mut trust, Ok(bundle(6, &[80, 443], 3)));
    assert!(matches!(&outcome, Outcome::Applied { add, remove } if add.is_empty() && remove.is_empty()));
    assert!(not_applied(&outcome).is_none());
    assert!(trust.lookup(&[1; 32]).is_none());
    assert!(trust.lookup(&[3; 32]).is_some());
}

#[test]
fn only_a_new_time_is_a_change() {
    let mut watch = Watch::new(None, vec![], 0);
    assert!(!watch.changed(None));
    assert!(watch.changed(Some(5)));
    assert!(!watch.changed(Some(5)));
    assert!(!watch.changed(None));
    assert!(watch.changed(Some(4)));
}

#[test]
fn applied_bundles_are_logged_in_words() {
    match applied(7, 2, 1, &[22, 443]) {
        Event::Bundle {
            action,
            generation,
            detail,
        } => {
            assert_eq!(action, "applied");
            assert_eq!(generation, Some(7));
            assert_eq!(detail.unwrap(), "2 clients, 1 tokens, ports [22, 443]");
        }
        _ => panic!("wrong event"),
    }
    match applied(7, 0, 0, &[]) {
        Event::Bundle { detail, .. } => {
            assert_eq!(detail.unwrap(), "0 clients, 0 tokens, ports []");
        }
        _ => panic!("wrong event"),
    }
}
