//! A knock from end to end: sealed by whom a gate trusts, received and decided.

use vstd::prelude::*;

use crate::adapters::ConfigTrust;
use crate::addr::IpAddr;
use crate::client::{Enroller, Error, Knocker};
use crate::envelope::{CryptoError, GateKeypair};
use crate::gatekeeper::{
    Auth, ClientPolicy, Clock, Crypto, Decision, GateWriter, Gatekeeper, OpenError, Opened,
    OpeningView, Reject, ReplayGuard, TrustStore,
};
use crate::primitives;
use crate::wire::{Suite, GATE_ID_LEN, THUMBPRINT_LEN};

verus! {

/// What becomes of an authentic knock. If each port that it asks for is allowed, those
/// ports are opened, all of them and no others, unless the knock is late or a replay;
/// if one is not, nothing is.
pub open spec fn settled<Cl, R, G>(
    before: Gatekeeper<Cl, GateKeypair, ConfigTrust, R, G>,
    after: Gatekeeper<Cl, GateKeypair, ConfigTrust, R, G>,
    ports: Seq<u16>,
    allowed: Seq<u16>,
    source: IpAddr,
    decision: Decision,
) -> bool where Cl: Clock, R: ReplayGuard, G: GateWriter {
    let late = decision == Decision::Rejected(Reject::Expired);
    let replay = decision == Decision::Rejected(Reject::Replay);
    let beyond = decision == Decision::Rejected(Reject::PortNotAllowed);
    if forall|i: int| 0 <= i < ports.len() ==> allowed.contains(#[trigger] ports[i]) {
        if decision is Opened {
            &&& decision->ports@ == ports
            &&& after.gate.openings() == before.gate.openings().push(
                OpeningView { source, ports, ttl_nanos: before.config.pinhole_nanos },
            )
        } else {
            (late || replay) && after.gate == before.gate
        }
    } else {
        (late || beyond) && after.gate == before.gate
    }
}

/// A client whose key its gate trusts is let in with the ports that it is trusted
/// with: its knock is never taken for unreadable, for another gate's, for a
/// stranger's or for a forgery.
pub proof fn law_trusted_client_is_let_in<Cl, R, G>(
    suite: Suite,
    gate_key: Vec<u8>,
    gate_id: [u8; GATE_ID_LEN],
    pkcs8: &[u8],
    knocker: Knocker,
    ports: &[u16],
    packet: Vec<u8>,
    raw: &[u8],
    gate: GateKeypair,
    gatekeeper: &mut Gatekeeper<Cl, GateKeypair, ConfigTrust, R, G>,
    id: &[u8; THUMBPRINT_LEN],
    policy: ClientPolicy,
    received: &[u8],
    opened: Result<Opened, OpenError>,
    source: IpAddr,
    decision: Decision,
) where Cl: Clock, R: ReplayGuard, G: GateWriter
    requires
        call_ensures(
            Knocker::new,
            (suite, gate_key, gate_id, pkcs8),
            Ok::<Knocker, Error>(knocker),
        ),
        call_ensures(Knocker::seal, (&knocker, ports), Ok::<Vec<u8>, Error>(packet)),
        call_ensures(
            GateKeypair::from_raw_private,
            (suite, raw),
            Ok::<GateKeypair, CryptoError>(gate),
        ),
        crate::guarantees::material::gate_public(suite, raw@) == Some(gate_key@),
        old(gatekeeper).crypto == gate,
        old(gatekeeper).config.gate_id@ == gate_id@,
        crate::guarantees::material::client_public(suite, pkcs8@) == Some(policy.public_key@),
        id@ == primitives::sha256(policy.public_key@),
        call_ensures(
            <ConfigTrust as TrustStore>::lookup,
            (&old(gatekeeper).trust, id),
            Some(policy),
        ),
        policy.suite == suite,
        policy.auth == Auth::Signature,
        received@ == packet@,
        call_ensures(<GateKeypair as Crypto>::open, (&gate, received), opened),
        call_ensures(
            Gatekeeper::<Cl, GateKeypair, ConfigTrust, R, G>::admit_packet,
            (gatekeeper, received, source),
            decision,
        ),
    ensures
        settled(
            *old(gatekeeper),
            *final(gatekeeper),
            ports@,
            policy.allowed_ports@,
            source,
            decision,
        ),
{
    crate::guarantees::material::law_client_knocks_with_its_material(
        suite,
        gate_key,
        gate_id,
        pkcs8,
        knocker,
        ports,
        packet,
        raw,
        gate,
        received,
        opened,
    );
    crate::guarantees::decision::law_received_packet_is_decided(
        gatekeeper,
        received,
        source,
        decision,
    );
    let found = opened->Ok_0@;
    assert(gate.opening(received@) == Some(found));
    let now = choose|now: u64|
        old(gatekeeper).clock.tells(now) && #[trigger] crate::guarantees::decision::decided(
            *old(gatekeeper),
            *final(gatekeeper),
            found,
            source,
            now,
            decision,
        );
    lemma_settled(*old(gatekeeper), *final(gatekeeper), opened->Ok_0, policy, source, now, decision);
}

/// A token that its gate trusts, and that was not used, lets its holder in likewise.
pub proof fn law_trusted_token_is_let_in<Cl, R, G>(
    suite: Suite,
    gate_key: Vec<u8>,
    gate_id: [u8; GATE_ID_LEN],
    token_id: [u8; THUMBPRINT_LEN],
    secret: Vec<u8>,
    enroller: Enroller,
    ports: &[u16],
    packet: Vec<u8>,
    raw: &[u8],
    gate: GateKeypair,
    gatekeeper: &mut Gatekeeper<Cl, GateKeypair, ConfigTrust, R, G>,
    id: &[u8; THUMBPRINT_LEN],
    policy: ClientPolicy,
    received: &[u8],
    opened: Result<Opened, OpenError>,
    source: IpAddr,
    decision: Decision,
    again: Option<ClientPolicy>,
) where Cl: Clock, R: ReplayGuard, G: GateWriter
    requires
        call_ensures(Enroller::new, (suite, gate_key, gate_id, token_id, secret), enroller),
        call_ensures(Enroller::seal, (&enroller, ports), Ok::<Vec<u8>, Error>(packet)),
        call_ensures(
            GateKeypair::from_raw_private,
            (suite, raw),
            Ok::<GateKeypair, CryptoError>(gate),
        ),
        crate::guarantees::material::gate_public(suite, raw@) == Some(gate_key@),
        old(gatekeeper).crypto == gate,
        old(gatekeeper).config.gate_id@ == gate_id@,
        id@ == token_id@,
        call_ensures(
            <ConfigTrust as TrustStore>::lookup,
            (&old(gatekeeper).trust, id),
            Some(policy),
        ),
        policy.auth == Auth::Psk,
        policy.single_use,
        policy.public_key@ == secret@,
        received@ == packet@,
        call_ensures(<GateKeypair as Crypto>::open, (&gate, received), opened),
        call_ensures(
            Gatekeeper::<Cl, GateKeypair, ConfigTrust, R, G>::admit_packet,
            (gatekeeper, received, source),
            decision,
        ),
        call_ensures(<ConfigTrust as TrustStore>::lookup, (&final(gatekeeper).trust, id), again),
    ensures
        settled(
            *old(gatekeeper),
            *final(gatekeeper),
            ports@,
            policy.allowed_ports@,
            source,
            decision,
        ),
        decision is Opened ==> again is None,
        decision is Rejected ==> crate::guarantees::trust::alike(again, Some(policy)),
{
    crate::guarantees::material::law_token_knocks_with_its_material(
        suite,
        gate_key,
        gate_id,
        token_id,
        secret,
        enroller,
        ports,
        packet,
        raw,
        gate,
        received,
        opened,
    );
    crate::guarantees::decision::law_received_packet_is_decided(
        gatekeeper,
        received,
        source,
        decision,
    );
    let found = opened->Ok_0@;
    assert(gate.opening(received@) == Some(found));
    let now = choose|now: u64|
        old(gatekeeper).clock.tells(now) && #[trigger] crate::guarantees::decision::decided(
            *old(gatekeeper),
            *final(gatekeeper),
            found,
            source,
            now,
            decision,
        );
    lemma_settled(*old(gatekeeper), *final(gatekeeper), opened->Ok_0, policy, source, now, decision);
}

proof fn lemma_settled<Cl, R, G>(
    before: Gatekeeper<Cl, GateKeypair, ConfigTrust, R, G>,
    after: Gatekeeper<Cl, GateKeypair, ConfigTrust, R, G>,
    opened: Opened,
    policy: ClientPolicy,
    source: IpAddr,
    now: u64,
    decision: Decision,
) where Cl: Clock, R: ReplayGuard, G: GateWriter
    requires
        crate::guarantees::decision::decided(before, after, opened@, source, now, decision),
        opened.auth.gate_id@ == before.config.gate_id@,
        before.trust.policy(opened.auth.key_thumbprint@) == Some(policy@),
        match policy.auth {
            Auth::Signature => crate::guarantees::sealing::valid(
                policy.suite,
                policy.public_key@,
                opened.signing_bytes@,
                opened.auth.signature@,
            ),
            Auth::Psk => opened.auth.signature@ == primitives::hmac_sha512(
                policy.public_key@,
                opened.signing_bytes@,
            ),
        },
    ensures
        settled(
            before,
            after,
            opened.auth.ports@,
            policy.allowed_ports@,
            source,
            decision,
        ),
{
    if let Decision::Rejected(reason) = decision {
        assert(crate::guarantees::decision::first_failure(before, opened@, now, reason));
    }
}

} // verus!
