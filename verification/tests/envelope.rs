use spa_device::envelope::{
    decrypt, read_plaintext, seal_packet, split_packet, thumbprint_of, verify_signature,
    CryptoError, GateKeypair,
};
use spa_device::gatekeeper::Crypto;
use spa_device::identity::{seal_psk, ClientKey, KnockRequest};
use spa_device::wire::{Authorization, Suite, GATE_ID_LEN, NONCE_LEN, VERSION};

const GATE_ID: [u8; GATE_ID_LEN] = [0x42; GATE_ID_LEN];
const NONCE: [u8; NONCE_LEN] = [0x11; NONCE_LEN];

fn seals_and_opens(suite: Suite) {
    let gate = GateKeypair::generate(suite).unwrap();
    let client = ClientKey::generate(suite).unwrap();

    let packet = client
        .seal(gate.public_key(), GATE_ID, &[22, 8443], NONCE, 1_234)
        .unwrap();

    let opened = gate.open(&packet).unwrap();
    assert_eq!(opened.auth.gate_id, GATE_ID);
    assert_eq!(opened.auth.nonce, NONCE);
    assert_eq!(opened.auth.timestamp_nanos, 1_234);
    assert_eq!(opened.auth.ports, vec![22, 8443]);
    assert_eq!(&opened.auth.key_thumbprint, client.thumbprint());

    assert!(gate.verify(
        suite,
        client.public_key(),
        &opened.signing_bytes,
        &opened.auth.signature
    ));
}

#[test]
fn round_trip_fips() {
    seals_and_opens(Suite::Fips);
}

#[test]
fn round_trip_modern() {
    seals_and_opens(Suite::Modern);
}

#[test]
fn thumbprint_is_sha256_of_pubkey() {
    let client = ClientKey::generate(Suite::Fips).unwrap();
    assert_eq!(client.thumbprint(), &thumbprint_of(client.public_key()));
}

#[test]
fn tampered_ciphertext_fails_open() {
    let gate = GateKeypair::generate(Suite::Fips).unwrap();
    let client = ClientKey::generate(Suite::Fips).unwrap();
    let mut packet = client
        .seal(gate.public_key(), GATE_ID, &[22], NONCE, 1)
        .unwrap();
    let last = packet.len() - 1;
    packet[last] ^= 0x01;
    assert!(gate.open(&packet).is_err());
}

#[test]
fn tampered_header_fails_open() {
    let gate = GateKeypair::generate(Suite::Fips).unwrap();
    let client = ClientKey::generate(Suite::Fips).unwrap();
    let mut packet = client
        .seal(gate.public_key(), GATE_ID, &[22], NONCE, 1)
        .unwrap();
    packet[10] ^= 0x01;
    assert!(gate.open(&packet).is_err());
}

#[test]
fn wrong_gate_cannot_open() {
    let gate = GateKeypair::generate(Suite::Fips).unwrap();
    let other_gate = GateKeypair::generate(Suite::Fips).unwrap();
    let client = ClientKey::generate(Suite::Fips).unwrap();
    let packet = client
        .seal(gate.public_key(), GATE_ID, &[22], NONCE, 1)
        .unwrap();
    assert!(other_gate.open(&packet).is_err());
}

#[test]
fn suite_mismatch_fails_open() {
    let fips_gate = GateKeypair::generate(Suite::Fips).unwrap();
    let modern_gate = GateKeypair::generate(Suite::Modern).unwrap();
    let client = ClientKey::generate(Suite::Modern).unwrap();
    let packet = client
        .seal(modern_gate.public_key(), GATE_ID, &[22], NONCE, 1)
        .unwrap();
    assert!(fips_gate.open(&packet).is_err());
}

#[test]
fn verify_rejects_wrong_pubkey() {
    let gate = GateKeypair::generate(Suite::Fips).unwrap();
    let client = ClientKey::generate(Suite::Fips).unwrap();
    let impostor = ClientKey::generate(Suite::Fips).unwrap();
    let packet = client
        .seal(gate.public_key(), GATE_ID, &[22], NONCE, 1)
        .unwrap();
    let opened = gate.open(&packet).unwrap();
    assert!(!gate.verify(
        Suite::Fips,
        impostor.public_key(),
        &opened.signing_bytes,
        &opened.auth.signature
    ));
}

#[test]
fn truncated_packet_fails_open() {
    let gate = GateKeypair::generate(Suite::Fips).unwrap();
    let client = ClientKey::generate(Suite::Fips).unwrap();
    let packet = client
        .seal(gate.public_key(), GATE_ID, &[22], NONCE, 1)
        .unwrap();
    for cut in 0..packet.len() {
        assert!(gate.open(&packet[..cut]).is_err(), "len {cut}");
    }
}

#[test]
fn sha256_test_vector() {
    let expected: [u8; 32] = [
        0xba, 0x78, 0x16, 0xbf, 0x8f, 0x01, 0xcf, 0xea, 0x41, 0x41, 0x40, 0xde, 0x5d, 0xae, 0x22,
        0x23, 0xb0, 0x03, 0x61, 0xa3, 0x96, 0x17, 0x7a, 0x9c, 0xb4, 0x10, 0xff, 0x61, 0xf2, 0x00,
        0x15, 0xad,
    ];
    assert_eq!(thumbprint_of(b"abc"), expected);
}

#[test]
fn sealed_sizes_stay_within_the_filter() {
    for (suite, public_len, base) in [(Suite::Fips, 65, 221), (Suite::Modern, 32, 188)] {
        let gate = GateKeypair::generate(suite).unwrap();
        assert_eq!(gate.public_key().len(), public_len);
        let client = ClientKey::generate(suite).unwrap();
        for n in 1..=8usize {
            let ports: Vec<u16> = (1..=n as u16).collect();
            let packet = client
                .seal(gate.public_key(), GATE_ID, &ports, NONCE, 1)
                .unwrap();
            assert_eq!(packet.len(), base + 2 * n);
            assert!((180..=260).contains(&packet.len()));
        }
    }
}

#[test]
fn seal_refuses_no_ports_and_bad_gate_keys() {
    let client = ClientKey::generate(Suite::Modern).unwrap();
    let gate = GateKeypair::generate(Suite::Modern).unwrap();
    assert_eq!(
        client.seal(gate.public_key(), GATE_ID, &[], NONCE, 1),
        Err(CryptoError::Encode)
    );
    assert_eq!(
        client.seal(gate.public_key(), GATE_ID, &[1; 9], NONCE, 1),
        Err(CryptoError::Encode)
    );
    assert_eq!(
        client.seal(&[1, 2, 3], GATE_ID, &[22], NONCE, 1),
        Err(CryptoError::Crypto)
    );
}

#[test]
fn keys_are_rebuilt_from_what_was_stored() {
    for suite in [Suite::Fips, Suite::Modern] {
        let (gate, raw) = GateKeypair::generate_raw(suite).unwrap();
        let again = GateKeypair::from_raw_private(suite, &raw).unwrap();
        assert_eq!(gate.public_key(), again.public_key());
        assert!(GateKeypair::from_raw_private(suite, &raw[..31]).is_err());

        let client = ClientKey::generate(suite).unwrap();
        let pkcs8 = client.to_pkcs8().unwrap();
        let loaded = ClientKey::from_pkcs8(suite, &pkcs8).unwrap();
        assert_eq!(client.public_key(), loaded.public_key());
        assert_eq!(client.thumbprint(), loaded.thumbprint());
        let packet = loaded
            .seal(gate.public_key(), GATE_ID, &[22], NONCE, 1)
            .unwrap();
        assert!(again.open(&packet).is_ok());
        assert!(ClientKey::from_pkcs8(suite, &[1, 2, 3]).is_err());
    }
    assert_eq!(
        ClientKey::from_pkcs8(Suite::Modern, b"").err(),
        Some(CryptoError::Key)
    );
}

#[test]
fn detached_signatures_verify() {
    for suite in [Suite::Fips, Suite::Modern] {
        let client = ClientKey::generate(suite).unwrap();
        let sig = client.sign_detached(b"message").unwrap();
        assert_eq!(sig.len(), 64);
        assert!(verify_signature(suite, client.public_key(), b"message", &sig));
        assert!(!verify_signature(suite, client.public_key(), b"massage", &sig));
    }
}

#[test]
fn packet_parts_decrypt_under_the_shared_secret() {
    let plaintext = Authorization {
        nonce: NONCE,
        timestamp_nanos: 5,
        gate_id: GATE_ID,
        key_thumbprint: [1; 32],
        ports: vec![80],
        signature: [2; 64],
    }
    .encode()
    .unwrap();
    for (suite, n) in [(Suite::Fips, 65), (Suite::Modern, 32)] {
        let eph = vec![3u8; n];
        let packet = seal_packet(suite, &eph, b"shared secret", &plaintext).unwrap();
        assert_eq!(packet[0], 1);
        assert_eq!(packet[1], suite.to_byte());
        let parts = split_packet(suite, &packet).unwrap();
        assert_eq!(parts.eph_pub, &eph[..]);
        assert_eq!(parts.header.len(), 2 + n);
        assert_eq!(parts.sealed.len(), plaintext.len() + 16);
        assert_ne!(&parts.sealed[..plaintext.len()], &plaintext[..]);
        assert_eq!(
            decrypt(suite, b"shared secret", &parts),
            Some(plaintext.clone())
        );
        assert_eq!(decrypt(suite, b"other secret", &parts), None);
        let opened = read_plaintext(&plaintext).unwrap();
        assert_eq!(opened.auth.ports, vec![80]);
        assert_eq!(opened.signing_bytes.len(), plaintext.len() - 64);
    }
    assert!(read_plaintext(b"no authorization").is_err());
}

#[test]
fn mac_is_checked_exactly() {
    // HMAC-SHA512 with key "key" over "The quick brown fox jumps over the lazy dog".
    let tag: [u8; 64] = [
        0xb4, 0x2a, 0xf0, 0x90, 0x57, 0xba, 0xc1, 0xe2, 0xd4, 0x17, 0x08, 0xe4, 0x8a, 0x90, 0x2e,
        0x09, 0xb5, 0xff, 0x7f, 0x12, 0xab, 0x42, 0x8a, 0x4f, 0xe8, 0x66, 0x53, 0xc7, 0x3d, 0xd2,
        0x48, 0xfb, 0x82, 0xf9, 0x48, 0xa5, 0x49, 0xf7, 0xb7, 0x91, 0xa5, 0xb4, 0x19, 0x15, 0xee,
        0x4d, 0x1e, 0xc3, 0x93, 0x53, 0x57, 0xe4, 0xe2, 0x31, 0x72, 0x50, 0xd0, 0x37, 0x2a, 0xfa,
        0x2e, 0xbe, 0xeb, 0x3a,
    ];
    let gate = GateKeypair::generate(Suite::Modern).unwrap();
    let text = b"The quick brown fox jumps over the lazy dog";
    assert!(gate.verify_mac(b"key", text, &tag));
    assert!(!gate.verify_mac(b"kez", text, &tag));
    assert!(!gate.verify_mac(b"key", text, &tag[..63]));
}

#[test]
fn sealed_knocks_begin_with_version_and_suite() {
    for (suite, byte, fixed) in [(Suite::Fips, 0x01, 221), (Suite::Modern, 0x02, 188)] {
        let gate = GateKeypair::generate(suite).unwrap();
        let client = ClientKey::generate(suite).unwrap();
        let packet = client
            .seal(gate.public_key(), GATE_ID, &[22, 80, 443], NONCE, 1)
            .unwrap();
        assert_eq!(packet[0], VERSION);
        assert_eq!(packet[1], byte);
        assert_eq!(packet.len(), fixed + 2 * 3);
    }
}

#[test]
fn damaged_knocks_fail_open_in_both_suites() {
    for suite in [Suite::Fips, Suite::Modern] {
        let gate = GateKeypair::generate(suite).unwrap();
        let client = ClientKey::generate(suite).unwrap();
        let packet = client
            .seal(gate.public_key(), GATE_ID, &[22], NONCE, 1)
            .unwrap();
        assert!(gate.open(&packet).is_ok());
        for cut in 0..packet.len() {
            assert!(gate.open(&packet[..cut]).is_err(), "len {cut}");
        }
        for at in 0..packet.len() {
            let mut other = packet.clone();
            other[at] ^= 0x80;
            // The top bit of an X25519 key takes no part in the agreement, but it
            // is authenticated with the header.
            assert!(gate.open(&other).is_err(), "byte {at}");
        }
    }
}

#[test]
fn public_keys_have_their_encoding() {
    for suite in [Suite::Fips, Suite::Modern] {
        let len = match suite {
            Suite::Fips => 65,
            Suite::Modern => 32,
        };
        let client = ClientKey::generate(suite).unwrap();
        let gate = GateKeypair::generate(suite).unwrap();
        let (raw_gate, raw) = GateKeypair::generate_raw(suite).unwrap();
        let again = GateKeypair::from_raw_private(suite, &raw).unwrap();
        for public in [
            client.public_key(),
            gate.public_key(),
            raw_gate.public_key(),
            again.public_key(),
        ] {
            assert_eq!(public.len(), len);
            if suite == Suite::Fips {
                assert_eq!(public[0], 0x04);
            }
        }
    }
}

#[test]
fn modern_signatures_are_settled_by_key_and_message() {
    let client = ClientKey::generate(Suite::Modern).unwrap();
    let first = client.sign_detached(b"message").unwrap();
    assert_eq!(client.sign_detached(b"message").unwrap(), first);
    assert_ne!(client.sign_detached(b"massage").unwrap(), first);
    let gate = GateKeypair::generate(Suite::Modern).unwrap();
    let packet = client
        .seal(gate.public_key(), GATE_ID, &[22], NONCE, 1)
        .unwrap();
    let opened = gate.open(&packet).unwrap();
    assert_eq!(
        client.sign_detached(&opened.signing_bytes).unwrap(),
        opened.auth.signature.to_vec()
    );
}

#[test]
fn gate_keys_that_cannot_be_agreed_with_are_refused() {
    for suite in [Suite::Fips, Suite::Modern] {
        let client = ClientKey::generate(suite).unwrap();
        let gate = GateKeypair::generate(suite).unwrap();
        let good = gate.public_key();
        let request = KnockRequest {
            gate_id: GATE_ID,
            ports: &[22],
            nonce: NONCE,
            timestamp_nanos: 1,
        };
        let mut long = good.to_vec();
        long.push(0);
        let zeros = vec![0u8; good.len()];
        for bad in [&[][..], &[0], &[1, 2, 3], &good[1..], &long, &zeros] {
            assert_eq!(
                client.seal(bad, GATE_ID, &[22], NONCE, 1),
                Err(CryptoError::Crypto)
            );
            assert_eq!(
                seal_psk(bad, suite, b"secret", [7; 32], &request),
                Err(CryptoError::Crypto)
            );
        }
        assert!(seal_psk(good, suite, b"secret", [7; 32], &request).is_ok());
    }
}

#[test]
fn gate_keys_in_der_form_are_agreed_with() {
    let client = ClientKey::generate(Suite::Modern).unwrap();
    let gate = GateKeypair::generate(Suite::Modern).unwrap();
    let mut der = vec![
        0x30, 0x2a, 0x30, 0x05, 0x06, 0x03, 0x2b, 0x65, 0x6e, 0x03, 0x21, 0x00,
    ];
    der.extend_from_slice(gate.public_key());
    let packet = client.seal(&der, GATE_ID, &[22], NONCE, 1).unwrap();
    assert_eq!(gate.open(&packet).unwrap().auth.ports, vec![22]);
}
