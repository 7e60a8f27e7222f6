use spa_device::wire::{
    Authorization, Suite, WireError, GATE_ID_LEN, MAX_PORTS, NONCE_LEN, SIG_LEN, THUMBPRINT_LEN,
    VERSION,
};

fn sample() -> Authorization {
    Authorization {
        nonce: [7u8; NONCE_LEN],
        timestamp_nanos: 0x0102_0304_0506_0708,
        gate_id: [9u8; GATE_ID_LEN],
        key_thumbprint: [0xAB; THUMBPRINT_LEN],
        ports: vec![22, 8443],
        signature: [0xCD; SIG_LEN],
    }
}

#[test]
fn round_trip() {
    let a = sample();
    let bytes = a.encode().unwrap();
    let b = Authorization::decode(&bytes).unwrap();
    assert_eq!(a, b);
}

#[test]
fn signing_bytes_excludes_signature() {
    let a = sample();
    let signing = a.signing_bytes().unwrap();
    let full = a.encode().unwrap();
    assert_eq!(full.len(), signing.len() + SIG_LEN);
    assert_eq!(&full[..signing.len()], signing.as_slice());
}

#[test]
fn truncated_is_rejected() {
    let bytes = sample().encode().unwrap();
    for cut in 0..bytes.len() {
        assert!(
            Authorization::decode(&bytes[..cut]).is_err(),
            "len {cut} should fail"
        );
    }
}

#[test]
fn trailing_bytes_rejected() {
    let mut bytes = sample().encode().unwrap();
    bytes.push(0);
    assert_eq!(Authorization::decode(&bytes), Err(WireError::TrailingBytes));
}

#[test]
fn bad_version_rejected() {
    let mut bytes = sample().encode().unwrap();
    bytes[0] = VERSION + 1;
    assert_eq!(
        Authorization::decode(&bytes),
        Err(WireError::BadVersion(VERSION + 1))
    );
}

#[test]
fn zero_ports_rejected() {
    let mut a = sample();
    a.ports.clear();
    assert_eq!(a.encode(), Err(WireError::BadPortCount(0)));
}

#[test]
fn too_many_ports_rejected() {
    let mut a = sample();
    a.ports = vec![1; MAX_PORTS + 1];
    assert_eq!(a.encode(), Err(WireError::BadPortCount(MAX_PORTS + 1)));
}

#[test]
fn max_ports_ok() {
    let mut a = sample();
    a.ports = (0..MAX_PORTS as u16).collect();
    let bytes = a.encode().unwrap();
    assert_eq!(
        Authorization::decode(&bytes).unwrap().ports.len(),
        MAX_PORTS
    );
}

#[test]
fn suite_round_trips() {
    for s in [Suite::Fips, Suite::Modern] {
        assert_eq!(Suite::from_byte(s.to_byte()).unwrap(), s);
    }
    assert_eq!(Suite::from_byte(0xFF), Err(WireError::BadSuite(0xFF)));
}

#[test]
fn encoding_is_byte_exact() {
    let bytes = sample().encode().unwrap();
    let mut expected = vec![1u8];
    expected.extend_from_slice(&[7u8; 16]);
    expected.extend_from_slice(&[1, 2, 3, 4, 5, 6, 7, 8]);
    expected.extend_from_slice(&[9u8; 16]);
    expected.extend_from_slice(&[0xAB; 32]);
    expected.push(2);
    expected.extend_from_slice(&[0, 22, 0x20, 0xFB]);
    expected.extend_from_slice(&[0xCD; 64]);
    assert_eq!(bytes, expected);
}

#[test]
fn truncation_and_port_count_errors() {
    let bytes = sample().encode().unwrap();
    assert_eq!(Authorization::decode(&[]), Err(WireError::TooShort));
    assert_eq!(
        Authorization::decode(&bytes[..bytes.len() - 1]),
        Err(WireError::TooShort)
    );
    let mut none = bytes.clone();
    none[73] = 0;
    assert_eq!(
        Authorization::decode(&none),
        Err(WireError::BadPortCount(0))
    );
    let mut many = bytes;
    many[73] = 9;
    assert_eq!(
        Authorization::decode(&many),
        Err(WireError::BadPortCount(9))
    );
}

#[test]
fn signing_region_differs_with_each_field() {
    let base = sample().signing_bytes().unwrap();
    let mut a = sample();
    a.ports = vec![22, 8444];
    assert_ne!(a.signing_bytes().unwrap(), base);
    let mut b = sample();
    b.gate_id[0] ^= 1;
    assert_ne!(b.signing_bytes().unwrap(), base);
    let mut c = sample();
    c.signature[0] ^= 1;
    assert_eq!(c.signing_bytes().unwrap(), base);
}

#[test]
fn clone_keeps_every_field() {
    let a = sample();
    assert_eq!(a.clone(), a);
}
