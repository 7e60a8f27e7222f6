//! The decision core. [`Gatekeeper::admit_packet`] is the whole policy: given a
//! received packet and the source it came from, it decides whether to open
//! ports. Cryptography, clock, trust, replay state and gate programming are
//! injected through traits.

use vstd::prelude::*;

use crate::addr::IpAddr;
use crate::bytes::same;
use crate::wire::{
    Authorization, AuthorizationView, Suite, GATE_ID_LEN, NONCE_LEN, THUMBPRINT_LEN,
};

verus! {

/// Static policy for a gate.
pub struct Config {
    /// This gate's identity; a knock must name it.
    pub gate_id: [u8; GATE_ID_LEN],
    /// Largest difference, in nanoseconds, between a knock's timestamp and now.
    pub skew_nanos: u64,
    /// How long an admitted source stays open, in nanoseconds.
    pub pinhole_nanos: u64,
}

/// A decrypted, decoded knock plus the exact bytes its signature covers. The
/// signature is not yet checked.
pub struct Opened {
    pub auth: Authorization,
    pub signing_bytes: Vec<u8>,
}

/// What an [`Opened`] knock says.
#[verifier::ext_equal]
pub struct OpenedView {
    pub auth: AuthorizationView,
    pub signing_bytes: Seq<u8>,
}

impl View for Opened {
    type V = OpenedView;

    open spec fn view(&self) -> OpenedView {
        OpenedView { auth: self.auth@, signing_bytes: self.signing_bytes@ }
    }
}

/// How a client's knock is authenticated.
#[derive(Debug, Clone, Copy, PartialEq, Eq, Structural)]
pub enum Auth {
    /// Asymmetric signature verified against `public_key` (steady state).
    Signature,
    /// HMAC keyed by the shared secret in `public_key` (enrollment token).
    Psk,
}

/// What the trust store knows about an authorized client.
pub struct ClientPolicy {
    /// Verification key material: the public key (`Signature`) or the shared
    /// secret (`Psk`).
    pub public_key: Vec<u8>,
    /// Suite of the client's key; ignored for `Psk`.
    pub suite: Suite,
    /// Ports this client may request.
    pub allowed_ports: Vec<u16>,
    /// Which authenticator must be checked.
    pub auth: Auth,
    /// Whether the credential is consumed by one successful knock.
    pub single_use: bool,
}

/// What a [`ClientPolicy`] says.
#[verifier::ext_equal]
pub struct PolicyView {
    pub public_key: Seq<u8>,
    pub suite: Suite,
    pub allowed_ports: Seq<u16>,
    pub auth: Auth,
    pub single_use: bool,
}

impl View for ClientPolicy {
    type V = PolicyView;

    open spec fn view(&self) -> PolicyView {
        PolicyView {
            public_key: self.public_key@,
            suite: self.suite,
            allowed_ports: self.allowed_ports@,
            auth: self.auth,
            single_use: self.single_use,
        }
    }
}

/// One opening: `ports` for `source`, for `ttl_nanos`.
#[verifier::ext_equal]
pub struct OpeningView {
    pub source: IpAddr,
    pub ports: Seq<u16>,
    pub ttl_nanos: u64,
}

/// Opaque decryption failure. The core never inspects the cause.
#[derive(Debug, Clone, Copy, PartialEq, Eq, Structural)]
pub struct OpenError;

/// Wall clock. The only source of "now" the core trusts.
pub trait Clock {
    /// Whether this clock can tell `now`.
    closed spec fn tells(&self, now: u64) -> bool {
        arbitrary()
    }

    fn now_unix_nanos(&self) -> (now: u64)
        ensures
            self.tells(now),
    ;
}

/// Decrypts and decodes the envelope, and verifies client authenticators. Split
/// so that the cheap checks and the trust lookup run before the expensive
/// verification.
pub trait Crypto {
    /// What a packet opens to, or `None` for anything malformed or not sealed
    /// to this gate.
    closed spec fn opening(&self, packet: Seq<u8>) -> Option<OpenedView> {
        arbitrary()
    }

    /// Whether `signature` signs `message` under `public_key`.
    closed spec fn signature_valid(
        &self,
        suite: Suite,
        public_key: Seq<u8>,
        message: Seq<u8>,
        signature: Seq<u8>,
    ) -> bool {
        arbitrary()
    }

    /// Whether `mac` authenticates `message` under `key`.
    closed spec fn mac_valid(&self, key: Seq<u8>, message: Seq<u8>, mac: Seq<u8>) -> bool {
        arbitrary()
    }

    /// Decrypt and decode a received packet.
    fn open(&self, packet: &[u8]) -> (r: Result<Opened, OpenError>)
        ensures
            match r {
                Ok(opened) => self.opening(packet@) == Some(opened@),
                Err(_) => self.opening(packet@) is None,
            },
    ;

    /// Verify `signature` over `message` under `public_key`.
    fn verify(&self, suite: Suite, public_key: &[u8], message: &[u8], signature: &[u8]) -> (r: bool)
        ensures
            r == self.signature_valid(suite, public_key@, message@, signature@),
    ;

    /// Verify the HMAC `mac` over `message` under the shared `key`.
    fn verify_mac(&self, key: &[u8], message: &[u8], mac: &[u8]) -> (r: bool)
        ensures
            r == self.mac_valid(key@, message@, mac@),
    ;
}

/// Maps a client key thumbprint, or a token id, to its policy.
pub trait TrustStore {
    /// The policy for a thumbprint, or `None` if it is not authorized.
    closed spec fn policy(&self, thumbprint: Seq<u8>) -> Option<PolicyView> {
        arbitrary()
    }

    fn lookup(&self, thumbprint: &[u8; THUMBPRINT_LEN]) -> (r: Option<ClientPolicy>)
        ensures
            match r {
                Some(policy) => self.policy(thumbprint@) == Some(policy@),
                None => self.policy(thumbprint@) is None,
            },
    ;

    /// Burn a one-time credential after a fully validated knock: it is known no
    /// longer, and every other credential stays as it was.
    fn consume(&mut self, thumbprint: &[u8; THUMBPRINT_LEN])
        requires
            old(self).policy(thumbprint@) is Some,
            old(self).policy(thumbprint@)->0.single_use,
        ensures
            final(self).policy(thumbprint@) is None,
            forall|t: Seq<u8>|
                t != thumbprint@ ==> #[trigger] final(self).policy(t) == old(self).policy(t),
    ;
}

/// Anti-replay state. Asked only about otherwise valid knocks, so junk cannot
/// exhaust it.
pub trait ReplayGuard {
    /// The nonces on record.
    closed spec fn recorded(&self) -> Set<Seq<u8>> {
        arbitrary()
    }

    /// How the guard goes on from `before` when it is asked about a nonce and
    /// answers `fresh`.
    closed spec fn answered(&self, before: &Self, nonce: Seq<u8>, fresh: bool) -> bool {
        arbitrary()
    }

    /// `true` if the nonce is fresh, which records it; `false` if it was seen.
    /// A nonce that is not on record is always fresh; one that is on record may
    /// be fresh again once the guard has let it lapse.
    fn admit_nonce(&mut self, nonce: &[u8; NONCE_LEN]) -> (fresh: bool)
        ensures
            !old(self).recorded().contains(nonce@) ==> fresh,
            fresh ==> final(self).recorded().contains(nonce@),
            final(self).recorded().subset_of(old(self).recorded().insert(nonce@)),
            final(self).answered(old(self), nonce@, fresh),
    ;
}

/// Programs the data-plane allow-list.
pub trait GateWriter {
    /// The openings ordered so far and not carried out yet, oldest first.
    closed spec fn openings(&self) -> Seq<OpeningView> {
        arbitrary()
    }

    fn open(&mut self, source: IpAddr, ports: &[u16], ttl_nanos: u64)
        ensures
            final(self).openings() == old(self).openings().push(
                OpeningView { source, ports: ports@, ttl_nanos },
            ),
    ;
}

/// Outcome of [`Gatekeeper::admit_packet`].
#[derive(Debug, PartialEq, Eq)]
pub enum Decision {
    /// Ports were opened for the source.
    Opened { ports: Vec<u16> },
    /// The knock was rejected; the reason is for audit only.
    Rejected(Reject),
}

/// Why a knock was rejected. Ordered as the checks run.
#[derive(Debug, Clone, Copy, PartialEq, Eq, Structural)]
pub enum Reject {
    /// Could not decrypt or decode, or not addressed to this gate's key.
    Undecryptable,
    /// `gate_id` did not match this gate.
    WrongGate,
    /// Timestamp outside the skew window.
    Expired,
    /// No authorized client for the key thumbprint.
    UnknownClient,
    /// Signature did not verify under the client's key.
    BadSignature,
    /// A requested port is not permitted for this client.
    PortNotAllowed,
    /// Nonce was already seen.
    Replay,
}

impl View for Decision {
    type V = Result<Seq<u16>, Reject>;

    open spec fn view(&self) -> Result<Seq<u16>, Reject> {
        match self {
            Decision::Opened { ports } => Ok(ports@),
            Decision::Rejected(reason) => Err(*reason),
        }
    }
}

impl Clone for Decision {
    fn clone(&self) -> (r: Self)
        ensures
            r@ == self@,
    {
        match self {
            Decision::Opened { ports } => {
                let copy = ports.clone();
                assert(copy@ =~= ports@);
                Decision::Opened { ports: copy }
            },
            Decision::Rejected(reason) => Decision::Rejected(*reason),
        }
    }
}

/// Whether `timestamp` lies within `skew` of `now`, on either side.
pub open spec fn within_skew(now: u64, timestamp: u64, skew: u64) -> bool {
    timestamp - skew <= now <= timestamp + skew
}

/// Whether every requested port is among the allowed ones.
pub open spec fn permitted(requested: Seq<u16>, allowed: Seq<u16>) -> bool {
    forall|i: int| 0 <= i < requested.len() ==> allowed.contains(#[trigger] requested[i])
}

/// The verdict on an opened knock before the replay guard is asked: the ports
/// it may have, or the first check that it fails.
pub open spec fn screened(
    config: Config,
    auth: AuthorizationView,
    now: u64,
    policy: Option<PolicyView>,
    authentic: bool,
) -> Result<Seq<u16>, Reject> {
    if auth.gate_id != config.gate_id@ {
        Err(Reject::WrongGate)
    } else if !within_skew(now, auth.timestamp_nanos, config.skew_nanos) {
        Err(Reject::Expired)
    } else if policy is None {
        Err(Reject::UnknownClient)
    } else if !authentic {
        Err(Reject::BadSignature)
    } else if !permitted(auth.ports, policy->0.allowed_ports) {
        Err(Reject::PortNotAllowed)
    } else {
        Ok(auth.ports)
    }
}

/// The decision core. Holds the static policy and the injected parts.
pub struct Gatekeeper<Cl, Cr, T, R, G> {
    pub config: Config,
    pub clock: Cl,
    pub crypto: Cr,
    pub trust: T,
    pub replay: R,
    pub gate: G,
}

impl<Cl, Cr, T, R, G> Gatekeeper<Cl, Cr, T, R, G> where
    Cl: Clock,
    Cr: Crypto,
    T: TrustStore,
    R: ReplayGuard,
    G: GateWriter,
 {
    /// Whether the authenticator of an opened knock checks out under a policy.
    pub open spec fn authentic(self, opened: OpenedView, policy: PolicyView) -> bool {
        match policy.auth {
            Auth::Signature => self.crypto.signature_valid(
                policy.suite,
                policy.public_key,
                opened.signing_bytes,
                opened.auth.signature,
            ),
            Auth::Psk => self.crypto.mac_valid(
                policy.public_key,
                opened.signing_bytes,
                opened.auth.signature,
            ),
        }
    }

    /// The verdict on an opened knock at `now`, before the replay guard is
    /// asked.
    pub open spec fn screen(self, opened: OpenedView, now: u64) -> Result<Seq<u16>, Reject> {
        let policy = self.trust.policy(opened.auth.key_thumbprint);
        screened(
            self.config,
            opened.auth,
            now,
            policy,
            policy is Some && self.authentic(opened, policy->0),
        )
    }

    /// What no knock changes.
    pub open spec fn unmoved(self, before: Self) -> bool {
        &&& self.config == before.config
        &&& self.clock == before.clock
        &&& self.crypto == before.crypto
    }

    /// How one opened knock from `source`, judged at `now`, takes a gatekeeper from
    /// `before` to `self`.
    pub open spec fn judged(
        self,
        before: Self,
        opened: OpenedView,
        source: IpAddr,
        now: u64,
        decision: Result<Seq<u16>, Reject>,
    ) -> bool {
        let auth = opened.auth;
        &&& self.unmoved(before)
        &&& match before.screen(opened, now) {
            Err(reason) => {
                &&& decision == Err::<Seq<u16>, Reject>(reason)
                &&& self == before
            },
            Ok(ports) => {
                &&& decision == Ok::<Seq<u16>, Reject>(ports) || decision == Err::<
                    Seq<u16>,
                    Reject,
                >(Reject::Replay)
                &&& !before.replay.recorded().contains(auth.nonce) ==> decision is Ok
                &&& self.replay.recorded().subset_of(before.replay.recorded().insert(auth.nonce))
                &&& self.replay.answered(&before.replay, auth.nonce, decision is Ok)
                &&& match decision {
                    Ok(_) => {
                        &&& self.replay.recorded().contains(auth.nonce)
                        &&& self.gate.openings() == before.gate.openings().push(
                            OpeningView { source, ports, ttl_nanos: before.config.pinhole_nanos },
                        )
                        &&& if before.trust.policy(auth.key_thumbprint)->0.single_use {
                            &&& self.trust.policy(auth.key_thumbprint) is None
                            &&& forall|t: Seq<u8>|
                                t != auth.key_thumbprint ==> #[trigger] self.trust.policy(t)
                                    == before.trust.policy(t)
                        } else {
                            self.trust == before.trust
                        }
                    },
                    Err(_) => {
                        &&& self.gate == before.gate
                        &&& self.trust == before.trust
                    },
                }
            },
        }
    }

    /// [`Self::judged`], at a time that the clock told.
    pub open spec fn judged_sometime(
        self,
        before: Self,
        opened: OpenedView,
        source: IpAddr,
        decision: Result<Seq<u16>, Reject>,
    ) -> bool {
        exists|now: u64|
            before.clock.tells(now) && #[trigger] self.judged(
                before,
                opened,
                source,
                now,
                decision,
            )
    }

    pub fn new(config: Config, clock: Cl, crypto: Cr, trust: T, replay: R, gate: G) -> (r: Self)
        ensures
            r == (Gatekeeper { config, clock, crypto, trust, replay, gate }),
    {
        Gatekeeper { config, clock, crypto, trust, replay, gate }
    }

    /// Evaluate one received packet from `source` and order an opening if it is
    /// valid.
    ///
    /// Checks run cheapest first; the expensive verification happens only once
    /// the client is known, and the replay nonce is recorded only once
    /// everything else has passed.
    pub fn admit_packet(&mut self, packet: &[u8], source: IpAddr) -> (decision: Decision)
        ensures
            match old(self).crypto.opening(packet@) {
                None => {
                    &&& decision@ == Err::<Seq<u16>, Reject>(Reject::Undecryptable)
                    &&& *final(self) == *old(self)
                },
                Some(opened) => final(self).judged_sometime(*old(self), opened, source, decision@),
            },
    {
        let opened = match self.crypto.open(packet) {
            Ok(opened) => opened,
            Err(_) => {
                return Decision::Rejected(Reject::Undecryptable);
            },
        };
        let now: u64 = self.clock.now_unix_nanos();
        let decision = self.admit_opened(&opened, source, now);
        assert(self.judged(*old(self), opened@, source, now, decision@));
        assert(self.judged_sometime(*old(self), opened@, source, decision@));
        decision
    }

    /// Judge a knock that has been opened, at the time `now`.
    pub fn admit_opened(&mut self, opened: &Opened, source: IpAddr, now: u64) -> (decision:
        Decision)
        ensures
            final(self).judged(*old(self), opened@, source, now, decision@),
    {
        let auth = &opened.auth;

        if !same(auth.gate_id.as_slice(), self.config.gate_id.as_slice()) {
            return Decision::Rejected(Reject::WrongGate);
        }
        let distance: u64 = if now >= auth.timestamp_nanos {
            now - auth.timestamp_nanos
        } else {
            auth.timestamp_nanos - now
        };
        if distance > self.config.skew_nanos {
            return Decision::Rejected(Reject::Expired);
        }
        let policy = match self.trust.lookup(&auth.key_thumbprint) {
            Some(policy) => policy,
            None => {
                return Decision::Rejected(Reject::UnknownClient);
            },
        };

        let authentic: bool = match policy.auth {
            Auth::Signature => self.crypto.verify(
                policy.suite,
                policy.public_key.as_slice(),
                opened.signing_bytes.as_slice(),
                auth.signature.as_slice(),
            ),
            Auth::Psk => self.crypto.verify_mac(
                policy.public_key.as_slice(),
                opened.signing_bytes.as_slice(),
                auth.signature.as_slice(),
            ),
        };
        if !authentic {
            return Decision::Rejected(Reject::BadSignature);
        }
        if !ports_permitted(auth.ports.as_slice(), policy.allowed_ports.as_slice()) {
            return Decision::Rejected(Reject::PortNotAllowed);
        }
        if !self.replay.admit_nonce(&auth.nonce) {
            return Decision::Rejected(Reject::Replay);
        }
        // A one-time credential burns only now that the knock is fully valid, so
        // a forged knock with a real token id cannot exhaust tokens.

        if policy.single_use {
            self.trust.consume(&auth.key_thumbprint);
        }
        self.gate.open(source, auth.ports.as_slice(), self.config.pinhole_nanos);
        let ports = auth.ports.clone();
        assert(ports@ =~= auth.ports@);
        Decision::Opened { ports }
    }
}

/// Whether every requested port is in the allowed set.
pub fn ports_permitted(requested: &[u16], allowed: &[u16]) -> (r: bool)
    ensures
        r == permitted(requested@, allowed@),
{
    let mut i: usize = 0;
    while i < requested.len()
        invariant
            i <= requested@.len(),
            forall|k: int| 0 <= k < i ==> allowed@.contains(#[trigger] requested@[k]),
        decreases requested@.len() - i,
    {
        if !contains_port(allowed, requested[i]) {
            assert(!allowed@.contains(requested@[i as int]));
            return false;
        }
        i += 1;
    }
    true
}

/// Whether `port` is one of `ports`.
pub fn contains_port(ports: &[u16], port: u16) -> (r: bool)
    ensures
        r == ports@.contains(port),
{
    let mut i: usize = 0;
    while i < ports.len()
        invariant
            i <= ports@.len(),
            forall|k: int| 0 <= k < i ==> ports@[k] != port,
        decreases ports@.len() - i,
    {
        if ports[i] == port {
            return true;
        }
        i += 1;
    }
    false
}

impl<Cl, Cr, T, R, G> Gatekeeper<Cl, Cr, T, R, G> where
    Cl: Clock,
    Cr: Crypto,
    T: TrustStore,
    R: ReplayGuard,
    G: GateWriter,
 {
    /// A knock opens ports only if it names this gate, is timely, comes from a
    /// known client, carries that client's authenticator, and asks for nothing
    /// but permitted ports; and what it opens is what it asked for.
    pub proof fn law_opened_only_if_every_check_passed(
        before: Self,
        after: Self,
        opened: OpenedView,
        source: IpAddr,
        now: u64,
        decision: Result<Seq<u16>, Reject>,
    )
        requires
            after.judged(before, opened, source, now, decision),
            decision is Ok,
        ensures
            opened.auth.gate_id == before.config.gate_id@,
            within_skew(now, opened.auth.timestamp_nanos, before.config.skew_nanos),
            before.trust.policy(opened.auth.key_thumbprint) is Some,
            before.authentic(opened, before.trust.policy(opened.auth.key_thumbprint)->0),
            permitted(
                opened.auth.ports,
                before.trust.policy(opened.auth.key_thumbprint)->0.allowed_ports,
            ),
            decision == Ok::<Seq<u16>, Reject>(opened.auth.ports),
    {
    }

    /// A rejected knock opens nothing and burns nothing.
    pub proof fn law_rejected_opens_nothing(
        before: Self,
        after: Self,
        opened: OpenedView,
        source: IpAddr,
        now: u64,
        decision: Result<Seq<u16>, Reject>,
    )
        requires
            after.judged(before, opened, source, now, decision),
            decision is Err,
        ensures
            after.gate == before.gate,
            after.trust == before.trust,
    {
    }

    /// A knock that does not carry its client's authenticator changes nothing
    /// at all: it cannot burn a token or spend a nonce.
    pub proof fn law_forged_knock_changes_nothing(
        before: Self,
        after: Self,
        opened: OpenedView,
        source: IpAddr,
        now: u64,
        decision: Result<Seq<u16>, Reject>,
    )
        requires
            after.judged(before, opened, source, now, decision),
            match before.trust.policy(opened.auth.key_thumbprint) {
                Some(policy) => !before.authentic(opened, policy),
                None => true,
            },
        ensures
            after == before,
            decision is Err,
    {
    }

    /// A one-time credential admits one knock: the next knock under the same
    /// id, whatever it says, is turned away and changes nothing. Where it names
    /// this gate and is timely, the reason is that the client is unknown.
    pub proof fn law_single_use_burns(
        first: Self,
        second: Self,
        third: Self,
        opened: OpenedView,
        source: IpAddr,
        now: u64,
        decision: Result<Seq<u16>, Reject>,
        again: OpenedView,
        source_again: IpAddr,
        now_again: u64,
        decision_again: Result<Seq<u16>, Reject>,
    )
        requires
            second.judged(first, opened, source, now, decision),
            decision is Ok,
            first.trust.policy(opened.auth.key_thumbprint)->0.single_use,
            again.auth.key_thumbprint == opened.auth.key_thumbprint,
            third.judged(second, again, source_again, now_again, decision_again),
        ensures
            third == second,
            decision_again is Err,
            again.auth.gate_id == second.config.gate_id@ && within_skew(
                now_again,
                again.auth.timestamp_nanos,
                second.config.skew_nanos,
            ) ==> decision_again == Err::<Seq<u16>, Reject>(Reject::UnknownClient),
    {
    }

    /// A knock made for one gate is refused by every gate with another id.
    pub proof fn law_relayed_knock_rejected(
        before: Self,
        after: Self,
        opened: OpenedView,
        source: IpAddr,
        now: u64,
        decision: Result<Seq<u16>, Reject>,
    )
        requires
            after.judged(before, opened, source, now, decision),
            opened.auth.gate_id != before.config.gate_id@,
        ensures
            decision == Err::<Seq<u16>, Reject>(Reject::WrongGate),
            after == before,
    {
    }
}

} // verus!
