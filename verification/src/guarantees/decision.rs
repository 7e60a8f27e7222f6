//! Deciding on a received knock.

use vstd::prelude::*;

use crate::addr::IpAddr;
use crate::gatekeeper::{
    contains_port, ports_permitted, Auth, Clock, Config, Crypto, Decision, GateWriter, Gatekeeper, Opened,
    OpenedView, OpeningView, PolicyView, Reject, ReplayGuard, TrustStore,
};

verus! {

/// A port is found among ports exactly where it stands at one of their places.
pub proof fn law_contains_port(ports: &[u16], port: u16, r: bool)
    requires
        call_ensures(contains_port, (ports, port), r),
    ensures
        r ==> exists|i: int| 0 <= i < ports@.len() && #[trigger] ports@[i] == port,
        forall|i: int| 0 <= i < ports@.len() && #[trigger] ports@[i] == port ==> r,
{
}

/// Ports are permitted exactly if each of them, wherever it stands, is an allowed
/// one.
pub proof fn law_ports_permitted(requested: &[u16], allowed: &[u16], r: bool)
    requires
        call_ensures(ports_permitted, (requested, allowed), r),
    ensures
        r ==> forall|i: int|
            0 <= i < requested@.len() ==> allowed@.contains(#[trigger] requested@[i]),
        forall|i: int|
            0 <= i < requested@.len() && !allowed@.contains(#[trigger] requested@[i]) ==> !r,
        !r ==> exists|i: int|
            0 <= i < requested@.len() && !allowed@.contains(#[trigger] requested@[i]),
{
}

/// The checks that an opened knock must pass, in their order: the first that it
/// fails is the reason for which it is turned away.
pub open spec fn first_failure<Cl, Cr, T, R, G>(
    before: Gatekeeper<Cl, Cr, T, R, G>,
    opened: OpenedView,
    now: u64,
    reason: Reject,
) -> bool where Cl: Clock, Cr: Crypto, T: TrustStore, R: ReplayGuard, G: GateWriter {
    let auth = opened.auth;
    let policy = before.trust.policy(auth.key_thumbprint);
    let named = auth.gate_id == before.config.gate_id@;
    let timely = now - auth.timestamp_nanos <= before.config.skew_nanos && auth.timestamp_nanos
        - now <= before.config.skew_nanos;
    let authentic = match policy->0.auth {
        Auth::Signature => before.crypto.signature_valid(
            policy->0.suite,
            policy->0.public_key,
            opened.signing_bytes,
            auth.signature,
        ),
        Auth::Psk => before.crypto.mac_valid(
            policy->0.public_key,
            opened.signing_bytes,
            auth.signature,
        ),
    };
    let beyond = exists|i: int|
        0 <= i < auth.ports.len() && !policy->0.allowed_ports.contains(#[trigger] auth.ports[i]);
    match reason {
        Reject::Undecryptable => false,
        Reject::WrongGate => !named,
        Reject::Expired => named && !timely,
        Reject::UnknownClient => named && timely && policy is None,
        Reject::BadSignature => named && timely && policy is Some && !authentic,
        Reject::PortNotAllowed => named && timely && policy is Some && authentic && beyond,
        Reject::Replay => named && timely && policy is Some && authentic && !beyond,
    }
}

/// What judging an opened knock does. A knock that fails a check is turned away for
/// that reason and changes nothing. One that passes them all, and whose nonce is
/// fresh, opens exactly the ports that it asks for, for its source, for the
/// configured time, and burns its credential where that is good for one knock; one
/// whose nonce is not fresh is a replay, and opens and burns nothing.
pub open spec fn decided<Cl, Cr, T, R, G>(
    before: Gatekeeper<Cl, Cr, T, R, G>,
    after: Gatekeeper<Cl, Cr, T, R, G>,
    opened: OpenedView,
    source: IpAddr,
    now: u64,
    decision: Decision,
) -> bool where Cl: Clock, Cr: Crypto, T: TrustStore, R: ReplayGuard, G: GateWriter {
    let auth = opened.auth;
    &&& after.config == before.config
    &&& after.clock == before.clock
    &&& after.crypto == before.crypto
    &&& forall|reason: Reject|
        reason != Reject::Replay && #[trigger] first_failure(before, opened, now, reason)
            ==> decision == Decision::Rejected(reason) && after == before
    &&& match decision {
        Decision::Rejected(reason) => {
            &&& first_failure(before, opened, now, reason)
            &&& after.gate == before.gate
            &&& after.trust == before.trust
            &&& reason == Reject::Replay ==> before.replay.recorded().contains(auth.nonce)
                && after.replay.answered(&before.replay, auth.nonce, false)
        },
        Decision::Opened { ports } => {
            &&& auth.gate_id == before.config.gate_id@
            &&& now - auth.timestamp_nanos <= before.config.skew_nanos
            &&& auth.timestamp_nanos - now <= before.config.skew_nanos
            &&& before.trust.policy(auth.key_thumbprint) is Some
            &&& forall|i: int|
                0 <= i < auth.ports.len() ==> before.trust.policy(
                    auth.key_thumbprint,
                )->0.allowed_ports.contains(#[trigger] auth.ports[i])
            &&& ports@ == auth.ports
            &&& after.gate.openings() == before.gate.openings().push(
                OpeningView {
                    source,
                    ports: auth.ports,
                    ttl_nanos: before.config.pinhole_nanos,
                },
            )
            &&& after.replay.answered(&before.replay, auth.nonce, true)
            &&& after.replay.recorded().contains(auth.nonce)
            &&& before.trust.policy(auth.key_thumbprint)->0.single_use ==> after.trust.policy(
                auth.key_thumbprint,
            ) is None
            &&& !before.trust.policy(auth.key_thumbprint)->0.single_use ==> after.trust
                == before.trust
            &&& forall|other: Seq<u8>|
                other != auth.key_thumbprint ==> #[trigger] after.trust.policy(other)
                    == before.trust.policy(other)
        },
    }
}

/// A gate's core is made of what it is given.
pub proof fn law_new_gatekeeper<Cl, Cr, T, R, G>(
    config: Config,
    clock: Cl,
    crypto: Cr,
    trust: T,
    replay: R,
    gate: G,
    r: Gatekeeper<Cl, Cr, T, R, G>,
) where Cl: Clock, Cr: Crypto, T: TrustStore, R: ReplayGuard, G: GateWriter
    requires
        call_ensures(
            Gatekeeper::<Cl, Cr, T, R, G>::new,
            (config, clock, crypto, trust, replay, gate),
            r,
        ),
    ensures
        r.config == config,
        r.clock == clock,
        r.crypto == crypto,
        r.trust == trust,
        r.replay == replay,
        r.gate == gate,
{
}

/// Judging an opened knock does what it is for.
pub proof fn law_opened_knock_is_decided<Cl, Cr, T, R, G>(
    gatekeeper: &mut Gatekeeper<Cl, Cr, T, R, G>,
    opened: &Opened,
    source: IpAddr,
    now: u64,
    decision: Decision,
) where Cl: Clock, Cr: Crypto, T: TrustStore, R: ReplayGuard, G: GateWriter
    requires
        call_ensures(
            Gatekeeper::<Cl, Cr, T, R, G>::admit_opened,
            (gatekeeper, opened, source, now),
            decision,
        ),
    ensures
        decided(*old(gatekeeper), *final(gatekeeper), opened@, source, now, decision),
{
}

/// A received packet that does not open changes nothing and is turned away as
/// undecryptable; one that does is judged as what it opens to, at a time that the
/// clock told.
pub proof fn law_received_packet_is_decided<Cl, Cr, T, R, G>(
    gatekeeper: &mut Gatekeeper<Cl, Cr, T, R, G>,
    packet: &[u8],
    source: IpAddr,
    decision: Decision,
) where Cl: Clock, Cr: Crypto, T: TrustStore, R: ReplayGuard, G: GateWriter
    requires
        call_ensures(
            Gatekeeper::<Cl, Cr, T, R, G>::admit_packet,
            (gatekeeper, packet, source),
            decision,
        ),
    ensures
        old(gatekeeper).crypto.opening(packet@) is None ==> decision == Decision::Rejected(
            Reject::Undecryptable,
        ) && *final(gatekeeper) == *old(gatekeeper),
        old(gatekeeper).crypto.opening(packet@) matches Some(opened) ==> exists|now: u64|
            old(gatekeeper).clock.tells(now) && #[trigger] decided(
                *old(gatekeeper),
                *final(gatekeeper),
                opened,
                source,
                now,
                decision,
            ),
{
    if let Some(opened) = old(gatekeeper).crypto.opening(packet@) {
        let now = choose|now: u64|
            old(gatekeeper).clock.tells(now) && #[trigger] final(gatekeeper).judged(
                *old(gatekeeper),
                opened,
                source,
                now,
                decision@,
            );
        assert(decided(*old(gatekeeper), *final(gatekeeper), opened, source, now, decision));
    }
}

/// A client's policy bounds what its knocks open: where one of the requested ports
/// is not an allowed one, wherever it stands, nothing is opened at all.
pub proof fn law_requested_ports_are_allowed_ones<Cl, Cr, T, R, G>(
    gatekeeper: &mut Gatekeeper<Cl, Cr, T, R, G>,
    opened: &Opened,
    source: IpAddr,
    now: u64,
    decision: Decision,
    policy: PolicyView,
) where Cl: Clock, Cr: Crypto, T: TrustStore, R: ReplayGuard, G: GateWriter
    requires
        call_ensures(
            Gatekeeper::<Cl, Cr, T, R, G>::admit_opened,
            (gatekeeper, opened, source, now),
            decision,
        ),
        old(gatekeeper).trust.policy(opened.auth.key_thumbprint@) == Some(policy),
    ensures
        decision is Opened ==> forall|i: int|
            0 <= i < opened.auth.ports@.len() ==> policy.allowed_ports.contains(
                #[trigger] opened.auth.ports@[i],
            ),
        forall|i: int|
            0 <= i < opened.auth.ports@.len() && !policy.allowed_ports.contains(
                #[trigger] opened.auth.ports@[i],
            ) ==> decision is Rejected && final(gatekeeper).gate == old(gatekeeper).gate
                && final(gatekeeper).trust == old(gatekeeper).trust,
{
    law_opened_knock_is_decided(gatekeeper, opened, source, now, decision);
}

} // verus!
