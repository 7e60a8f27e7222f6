use spa_device::catalog::{
    catalog_request, signing_message, Catalog, Descriptor, Device, Endpoint, Service,
};
use spa_device::envelope::{verify_signature, GateKeypair};
use spa_device::identity::ClientKey;
use spa_device::wire::{Suite, GATE_ID_LEN};

fn endpoint(gate_id_hex: String, gate_pubkey_hex: String, address: &str) -> Endpoint {
    Endpoint {
        protocol: "tcp".into(),
        port: 22,
        address: "10.0.0.59".into(),
        descriptor: Descriptor {
            gate_id_hex,
            gate_pubkey_hex,
            suite: "modern".into(),
            address: address.into(),
            knock_port: 62201,
        },
    }
}

#[test]
fn signing_message_is_the_pinned_contract() {
    assert_eq!(
        signing_message(1_700_000_000),
        "GET\n/api/client/catalog\n1700000000"
    );
}

#[test]
fn endpoint_builds_a_knocker_and_target() {
    let client = ClientKey::generate(Suite::Modern).unwrap();
    let pkcs8 = client.to_pkcs8().unwrap();
    let gate = GateKeypair::generate(Suite::Modern).unwrap();
    let ep = Endpoint {
        protocol: "tcp".into(),
        port: 22,
        address: "10.0.0.59".into(),
        descriptor: Descriptor {
            gate_id_hex: hex::encode([7u8; GATE_ID_LEN]),
            gate_pubkey_hex: hex::encode(gate.public_key()),
            suite: "modern".into(),
            address: "10.0.0.59".into(),
            knock_port: 62201,
        },
    };
    let (_knocker, target) = ep.knocker(&pkcs8).unwrap();
    assert_eq!(target, "10.0.0.59:62201");
}

#[test]
fn ipv6_targets_are_bracketed() {
    let client = ClientKey::generate(Suite::Modern).unwrap();
    let ep = endpoint("00".repeat(16), "ab".into(), "fd00::1");
    let (_knocker, target) = ep.knocker(&client.to_pkcs8().unwrap()).unwrap();
    assert_eq!(target, "[fd00::1]:62201");
}

#[test]
fn bad_descriptors_are_named() {
    let pkcs8 = ClientKey::generate(Suite::Modern)
        .unwrap()
        .to_pkcs8()
        .unwrap();
    let words = |ep: Endpoint, key: &[u8]| ep.knocker(key).err().unwrap().message();
    assert_eq!(
        words(endpoint("00".into(), "ab".into(), "h"), &pkcs8),
        "gate_id_hex: expected 16 bytes, got 1"
    );
    assert_eq!(
        words(endpoint("00".repeat(16), "abc".into(), "h"), &pkcs8),
        "Odd number of digits"
    );
    assert_eq!(
        words(endpoint("00".repeat(16), "zz".into(), "h"), &pkcs8),
        "Invalid character 'z' at position 0"
    );
    let mut unknown = endpoint("00".repeat(16), "ab".into(), "h");
    unknown.descriptor.suite = "so\"so".into();
    assert_eq!(
        words(unknown, &pkcs8),
        "unknown suite \"so\\\"so\" (use fips|modern)"
    );
    assert_eq!(
        words(endpoint("00".repeat(16), "ab".into(), "h"), b"no key"),
        "crypto: Key"
    );
}

#[test]
fn catalog_requests_are_signed() {
    let key = ClientKey::generate(Suite::Modern).unwrap();
    let request = catalog_request("https://cp.example//", &key, 17).unwrap();
    assert_eq!(request.url, "https://cp.example/api/client/catalog");
    assert_eq!(request.timestamp, "17");
    assert_eq!(request.thumbprint, hex::encode(key.thumbprint()));
    let sig = hex::decode(&request.signature).unwrap();
    assert!(verify_signature(
        Suite::Modern,
        key.public_key(),
        b"GET\n/api/client/catalog\n17",
        &sig
    ));
    let detached = key.sign_detached(b"GET\n/api/client/catalog\n17").unwrap();
    assert_eq!(request.signature, hex::encode(detached));
}

#[test]
fn listing_names_services_and_endpoints() {
    let mut catalog = Catalog {
        device: Device {
            name: "macos".into(),
            thumbprint: "85aa".into(),
        },
        mesh_cidr: "100.64.0.0/10".into(),
        services: Vec::new(),
    };
    assert_eq!(
        catalog.listing(),
        "device macos (85aa)  mesh 100.64.0.0/10\n  (no reachable services — check policy)\n"
    );
    catalog.services.push(Service {
        name: "demo-svc".into(),
        mesh_ip: "100.64.0.1".into(),
        endpoints: vec![endpoint("bee2".into(), "ab".into(), "10.0.0.59")],
    });
    assert_eq!(
        catalog.listing(),
        "device macos (85aa)  mesh 100.64.0.0/10\n  demo-svc  ->  100.64.0.1\n      tcp/22  via gate 10.0.0.59 (knock 62201)\n"
    );
}
