use std::cell::RefCell;
use std::collections::HashMap;
use std::collections::HashSet;
use std::rc::Rc;

use spa_device::adapters::{
    clock_reading, to_timestamp, ConfigTrust, GateQueue, MemReplay, SystemClock,
};
use spa_device::addr::IpAddr;
use spa_device::config::TokenEntry;
use spa_device::envelope::GateKeypair;
use spa_device::gatekeeper::{
    ports_permitted, Auth, ClientPolicy, Clock, Config, Crypto, Decision, GateWriter, Gatekeeper,
    OpenError, Opened, Reject, ReplayGuard, TrustStore,
};
use spa_device::identity::{seal_psk, ClientKey, KnockRequest};
use spa_device::wire::{
    Authorization, Suite, GATE_ID_LEN, NONCE_LEN, SIG_LEN, THUMBPRINT_LEN,
};

const GATE: [u8; GATE_ID_LEN] = [1u8; GATE_ID_LEN];
const THUMB: [u8; THUMBPRINT_LEN] = [2u8; THUMBPRINT_LEN];
const NONCE: [u8; NONCE_LEN] = [3u8; NONCE_LEN];

/// One recorded gate opening: (source, ports, ttl).
type GateOpen = (IpAddr, Vec<u16>, u64);

fn auth(gate: [u8; GATE_ID_LEN], ts: u64, ports: Vec<u16>) -> Authorization {
    Authorization {
        nonce: NONCE,
        timestamp_nanos: ts,
        gate_id: gate,
        key_thumbprint: THUMB,
        ports,
        signature: [9u8; SIG_LEN],
    }
}

struct FakeClock(u64);
impl Clock for FakeClock {
    fn now_unix_nanos(&self) -> u64 {
        self.0
    }
}

/// `open` yields a preset knock (or fails), `verify` returns a preset bool.
/// Records whether verify was called, to check the order.
struct FakeCrypto {
    opened: Option<Authorization>,
    verify_ok: bool,
    verify_called: RefCell<bool>,
}
impl Crypto for FakeCrypto {
    fn open(&self, _packet: &[u8]) -> Result<Opened, OpenError> {
        match &self.opened {
            Some(a) => Ok(Opened {
                auth: a.clone(),
                signing_bytes: vec![0xAA],
            }),
            None => Err(OpenError),
        }
    }
    fn verify(&self, _s: Suite, _pk: &[u8], _m: &[u8], _sig: &[u8]) -> bool {
        *self.verify_called.borrow_mut() = true;
        self.verify_ok
    }
    fn verify_mac(&self, _key: &[u8], _m: &[u8], _mac: &[u8]) -> bool {
        *self.verify_called.borrow_mut() = true;
        self.verify_ok
    }
}

struct FakeTrust {
    policy: Option<Vec<u16>>,
    auth: Auth,
    single_use: bool,
    consumed: Rc<RefCell<bool>>,
}
impl TrustStore for FakeTrust {
    fn lookup(&self, _t: &[u8; THUMBPRINT_LEN]) -> Option<ClientPolicy> {
        if *self.consumed.borrow() {
            return None; // a burned one-time token is no longer known
        }
        self.policy.as_ref().map(|ports| ClientPolicy {
            public_key: vec![0u8; 65],
            suite: Suite::Fips,
            allowed_ports: ports.clone(),
            auth: self.auth,
            single_use: self.single_use,
        })
    }
    fn consume(&mut self, _t: &[u8; THUMBPRINT_LEN]) {
        *self.consumed.borrow_mut() = true;
    }
}

struct FakeReplay {
    seen: HashSet<[u8; NONCE_LEN]>,
}
impl ReplayGuard for FakeReplay {
    fn admit_nonce(&mut self, nonce: &[u8; NONCE_LEN]) -> bool {
        self.seen.insert(*nonce)
    }
}

#[derive(Default)]
struct FakeGate {
    opens: Vec<GateOpen>,
}
impl GateWriter for FakeGate {
    fn open(&mut self, source: IpAddr, ports: &[u16], ttl: u64) {
        self.opens.push((source, ports.to_vec(), ttl));
    }
}

struct Harness {
    now: u64,
    opened: Option<Authorization>,
    verify_ok: bool,
    trust_ports: Option<Vec<u16>>,
    auth: Auth,
    single_use: bool,
    seen: HashSet<[u8; NONCE_LEN]>,
}
impl Harness {
    fn ok() -> Self {
        Harness {
            now: 1_000,
            opened: Some(auth(GATE, 1_000, vec![22])),
            verify_ok: true,
            trust_ports: Some(vec![22, 8443]),
            auth: Auth::Signature,
            single_use: false,
            seen: HashSet::new(),
        }
    }
    fn run(self, source: IpAddr) -> (Decision, bool, Vec<GateOpen>) {
        let (d, v, o, _consumed) = self.run_full(source);
        (d, v, o)
    }
    fn run_full(self, source: IpAddr) -> (Decision, bool, Vec<GateOpen>, bool) {
        let crypto = FakeCrypto {
            opened: self.opened,
            verify_ok: self.verify_ok,
            verify_called: RefCell::new(false),
        };
        let consumed = Rc::new(RefCell::new(false));
        let mut gk = Gatekeeper::new(
            Config {
                gate_id: GATE,
                skew_nanos: 100,
                pinhole_nanos: 400,
            },
            FakeClock(self.now),
            crypto,
            FakeTrust {
                policy: self.trust_ports,
                auth: self.auth,
                single_use: self.single_use,
                consumed: consumed.clone(),
            },
            FakeReplay { seen: self.seen },
            FakeGate::default(),
        );
        let decision = gk.admit_packet(b"packet", source);
        let verify_called = *gk.crypto.verify_called.borrow();
        let burned = *consumed.borrow();
        (decision, verify_called, gk.gate.opens, burned)
    }
}

fn src() -> IpAddr {
    IpAddr::V4([10, 0, 0, 7])
}

#[test]
fn accepts_valid_knock_and_opens_gate() {
    let (d, _, opens) = Harness::ok().run(src());
    assert_eq!(d, Decision::Opened { ports: vec![22] });
    assert_eq!(opens, vec![(src(), vec![22], 400)]);
}

#[test]
fn undecryptable_is_rejected() {
    let mut h = Harness::ok();
    h.opened = None;
    let (d, verified, opens) = h.run(src());
    assert_eq!(d, Decision::Rejected(Reject::Undecryptable));
    assert!(!verified, "must not verify when open() failed");
    assert!(opens.is_empty());
}

#[test]
fn wrong_gate_is_rejected_before_verify() {
    let mut h = Harness::ok();
    h.opened = Some(auth([0xFF; GATE_ID_LEN], 1_000, vec![22]));
    let (d, verified, opens) = h.run(src());
    assert_eq!(d, Decision::Rejected(Reject::WrongGate));
    assert!(!verified);
    assert!(opens.is_empty());
}

#[test]
fn timestamp_outside_window_is_expired() {
    for ts in [1_000 - 101, 1_000 + 101] {
        let mut h = Harness::ok();
        h.opened = Some(auth(GATE, ts, vec![22]));
        let (d, verified, _) = h.run(src());
        assert_eq!(d, Decision::Rejected(Reject::Expired));
        assert!(!verified);
    }
}

#[test]
fn timestamp_on_window_edge_is_accepted() {
    for ts in [1_000 - 100, 1_000 + 100] {
        let mut h = Harness::ok();
        h.opened = Some(auth(GATE, ts, vec![22]));
        let (d, _, _) = h.run(src());
        assert_eq!(d, Decision::Opened { ports: vec![22] });
    }
}

#[test]
fn unknown_client_is_rejected_before_verify() {
    let mut h = Harness::ok();
    h.trust_ports = None;
    let (d, verified, _) = h.run(src());
    assert_eq!(d, Decision::Rejected(Reject::UnknownClient));
    assert!(!verified, "must not verify for an unknown client (DoS)");
}

#[test]
fn bad_signature_is_rejected() {
    let mut h = Harness::ok();
    h.verify_ok = false;
    let (d, verified, opens) = h.run(src());
    assert_eq!(d, Decision::Rejected(Reject::BadSignature));
    assert!(verified);
    assert!(opens.is_empty());
}

#[test]
fn requesting_disallowed_port_is_rejected() {
    let mut h = Harness::ok();
    h.opened = Some(auth(GATE, 1_000, vec![22, 9999]));
    h.trust_ports = Some(vec![22, 8443]);
    let (d, _, opens) = h.run(src());
    assert_eq!(d, Decision::Rejected(Reject::PortNotAllowed));
    assert!(opens.is_empty());
}

#[test]
fn replayed_nonce_is_rejected() {
    let mut seen = HashSet::new();
    seen.insert(NONCE);
    let mut h = Harness::ok();
    h.seen = seen;
    let (d, _, opens) = h.run(src());
    assert_eq!(d, Decision::Rejected(Reject::Replay));
    assert!(opens.is_empty(), "a replay must not open anything");
}

#[test]
fn replay_recorded_only_after_full_validation() {
    let mut replay = FakeReplay {
        seen: HashSet::new(),
    };
    assert!(replay.admit_nonce(&NONCE));
    assert!(!replay.admit_nonce(&NONCE));

    let mut real = MemReplay::new(5_000_000_000);
    assert!(real.admit_nonce(&NONCE));
    assert!(!real.admit_nonce(&NONCE));
}

#[test]
fn ports_permitted_logic() {
    assert!(ports_permitted(&[22], &[22, 8443]));
    assert!(ports_permitted(&[22, 8443], &[8443, 22]));
    assert!(!ports_permitted(&[22, 1], &[22]));
    assert!(!ports_permitted(&[1], &[]));
    assert!(ports_permitted(&[], &[22]));
}

#[test]
fn distinct_clients_distinct_policies() {
    let mut map: HashMap<[u8; THUMBPRINT_LEN], Vec<u16>> = HashMap::new();
    map.insert([1; THUMBPRINT_LEN], vec![22]);
    map.insert([2; THUMBPRINT_LEN], vec![443]);
    assert_eq!(map.get(&[1; THUMBPRINT_LEN]), Some(&vec![22]));
    assert_eq!(map.get(&[2; THUMBPRINT_LEN]), Some(&vec![443]));
    assert_eq!(map.get(&[3; THUMBPRINT_LEN]), None);

    let mut trust = ConfigTrust::new(Suite::Fips);
    trust.insert([1; THUMBPRINT_LEN], vec![5], vec![22]);
    trust.insert([2; THUMBPRINT_LEN], vec![6], vec![443]);
    let first = trust.lookup(&[1; THUMBPRINT_LEN]).unwrap();
    assert_eq!(first.allowed_ports, vec![22]);
    assert_eq!(first.public_key, vec![5]);
    assert_eq!(first.auth, Auth::Signature);
    assert!(!first.single_use);
    let second = trust.lookup(&[2; THUMBPRINT_LEN]).unwrap();
    assert_eq!(second.allowed_ports, vec![443]);
    assert!(trust.lookup(&[3; THUMBPRINT_LEN]).is_none());
    trust.insert([1; THUMBPRINT_LEN], vec![7], vec![80]);
    assert_eq!(
        trust.lookup(&[1; THUMBPRINT_LEN]).unwrap().allowed_ports,
        vec![80]
    );
    assert_eq!(
        trust.lookup(&[2; THUMBPRINT_LEN]).unwrap().public_key,
        vec![6]
    );
}

#[test]
fn psk_knock_is_accepted_via_hmac() {
    let mut h = Harness::ok();
    h.auth = Auth::Psk;
    let (d, verified, opens) = h.run(src());
    assert_eq!(d, Decision::Opened { ports: vec![22] });
    assert!(verified, "the PSK path still runs an authenticator check");
    assert_eq!(opens.len(), 1);
}

#[test]
fn psk_bad_mac_is_rejected() {
    let mut h = Harness::ok();
    h.auth = Auth::Psk;
    h.verify_ok = false;
    let (d, _, opens) = h.run(src());
    assert_eq!(d, Decision::Rejected(Reject::BadSignature));
    assert!(opens.is_empty());
}

#[test]
fn single_use_token_is_consumed_after_valid_knock() {
    let mut h = Harness::ok();
    h.auth = Auth::Psk;
    h.single_use = true;
    let (d, _, opens, consumed) = h.run_full(src());
    assert_eq!(d, Decision::Opened { ports: vec![22] });
    assert!(consumed, "a one-time token must be burned on use");
    assert_eq!(opens.len(), 1);
}

#[test]
fn single_use_token_not_consumed_on_bad_mac() {
    let mut h = Harness::ok();
    h.auth = Auth::Psk;
    h.single_use = true;
    h.verify_ok = false;
    let (d, _, _, consumed) = h.run_full(src());
    assert_eq!(d, Decision::Rejected(Reject::BadSignature));
    assert!(!consumed, "a forged knock must not be able to burn tokens");
}

#[test]
fn signature_client_is_not_consumed() {
    let (_, _, _, consumed) = Harness::ok().run_full(src());
    assert!(!consumed, "steady-state credentials are not single-use");
}

type RealGate = Gatekeeper<FakeClock, GateKeypair, ConfigTrust, MemReplay, GateQueue>;

fn real_gate(suite: Suite, now: u64) -> RealGate {
    Gatekeeper::new(
        Config {
            gate_id: GATE,
            skew_nanos: 2_000_000_000,
            pinhole_nanos: 400_000_000,
        },
        FakeClock(now),
        GateKeypair::generate(suite).unwrap(),
        ConfigTrust::new(suite),
        MemReplay::new(5_000_000_000),
        GateQueue::new(),
    )
}

#[test]
fn sealed_knock_opens_its_ports_once() {
    for suite in [Suite::Fips, Suite::Modern] {
        let now = 1_700_000_000_000_000_000;
        let mut gk = real_gate(suite, now);
        let client = ClientKey::generate(suite).unwrap();
        gk.trust.insert(
            *client.thumbprint(),
            client.public_key().to_vec(),
            vec![22, 8443],
        );
        let packet = client
            .seal(gk.crypto.public_key(), GATE, &[8443, 22], NONCE, now - 1)
            .unwrap();
        assert_eq!(
            gk.admit_packet(&packet, src()),
            Decision::Opened {
                ports: vec![8443, 22]
            }
        );
        let opened = gk.gate.drain();
        assert_eq!(opened.len(), 1);
        assert_eq!(opened[0].source, src());
        assert_eq!(opened[0].ports, vec![8443, 22]);
        assert_eq!(opened[0].ttl_nanos, 400_000_000);
        assert_eq!(
            gk.admit_packet(&packet, src()),
            Decision::Rejected(Reject::Replay)
        );
        assert!(gk.gate.drain().is_empty());
        gk.clock = FakeClock(now + 3_000_000_000);
        assert_eq!(
            gk.admit_packet(&packet, src()),
            Decision::Rejected(Reject::Expired)
        );
    }
}

#[test]
fn token_knock_burns_the_token_for_good() {
    let now = 1_700_000_000_000_000_000;
    let mut gk = real_gate(Suite::Modern, now);
    let token = TokenEntry {
        token_id: [8; THUMBPRINT_LEN],
        secret: vec![1, 2, 3],
        ports: vec![9999],
    };
    gk.trust.set_tokens(&[token.clone()]);
    let public = gk.crypto.public_key().to_vec();
    let knock = |nonce: u8, secret: &[u8]| {
        let request = KnockRequest {
            gate_id: GATE,
            ports: &[9999],
            nonce: [nonce; NONCE_LEN],
            timestamp_nanos: now,
        };
        seal_psk(&public, Suite::Modern, secret, [8; THUMBPRINT_LEN], &request).unwrap()
    };
    assert_eq!(
        gk.admit_packet(&knock(1, b"forged"), src()),
        Decision::Rejected(Reject::BadSignature)
    );
    assert_eq!(
        gk.admit_packet(&knock(2, &[1, 2, 3]), src()),
        Decision::Opened { ports: vec![9999] }
    );
    assert_eq!(
        gk.admit_packet(&knock(3, &[1, 2, 3]), src()),
        Decision::Rejected(Reject::UnknownClient)
    );
    gk.trust.set_tokens(&[token]);
    assert_eq!(
        gk.admit_packet(&knock(4, &[1, 2, 3]), src()),
        Decision::Rejected(Reject::UnknownClient)
    );
}

#[test]
fn relayed_knock_is_refused() {
    let now = 1_700_000_000_000_000_000;
    let mut gk = real_gate(Suite::Modern, now);
    let client = ClientKey::generate(Suite::Modern).unwrap();
    gk.trust
        .insert(*client.thumbprint(), client.public_key().to_vec(), vec![22]);
    let packet = client
        .seal(
            gk.crypto.public_key(),
            [0x55; GATE_ID_LEN],
            &[22],
            NONCE,
            now,
        )
        .unwrap();
    assert_eq!(
        gk.admit_packet(&packet, src()),
        Decision::Rejected(Reject::WrongGate)
    );
}

#[test]
fn replay_window_is_exact() {
    let mut replay = MemReplay::new(100);
    assert!(replay.admit_at(&NONCE, 1_000));
    assert!(!replay.admit_at(&NONCE, 1_099));
    assert!(replay.admit_at(&[4; NONCE_LEN], 1_099));
    assert!(replay.admit_at(&NONCE, 1_100));
    assert!(!replay.admit_at(&NONCE, 900));
    let mut none = MemReplay::new(0);
    assert!(none.admit_at(&NONCE, 5));
    assert!(none.admit_at(&NONCE, 5));
}

#[test]
fn clients_are_replaced_as_a_whole() {
    let mut trust = ConfigTrust::new(Suite::Modern);
    trust.insert([1; THUMBPRINT_LEN], vec![5], vec![22]);
    trust.set(&[spa_device::config::ClientEntry {
        thumbprint: [2; THUMBPRINT_LEN],
        public_key: vec![6],
        ports: vec![80],
    }]);
    assert!(trust.lookup(&[1; THUMBPRINT_LEN]).is_none());
    assert_eq!(
        trust.lookup(&[2; THUMBPRINT_LEN]).unwrap().public_key,
        vec![6]
    );
    trust.set_tokens(&[TokenEntry {
        token_id: [7; THUMBPRINT_LEN],
        secret: vec![9],
        ports: vec![1],
    }]);
    let policy = trust.lookup(&[7; THUMBPRINT_LEN]).unwrap();
    assert_eq!(policy.auth, Auth::Psk);
    assert!(policy.single_use);
}

#[test]
fn system_clock_tells_a_recent_time() {
    assert!(SystemClock.now_unix_nanos() > 1_600_000_000_000_000_000);
}

#[test]
fn clock_readings_keep_their_low_order_bits() {
    assert_eq!(clock_reading(None), 0);
    assert_eq!(clock_reading(Some(1_700_000_000_000_000_000)), 1_700_000_000_000_000_000);
    assert_eq!(clock_reading(Some((1 << 64) + 3)), 3);
    assert_eq!(to_timestamp(u128::MAX), u64::MAX);
}
