//! What holds of the whole: the client's knock, the packet filter in front of a
//! gate, and that gate's decision fit together.

use vstd::prelude::*;

use crate::adapters::{MemReplay, SeenView};
use crate::addr::IpAddr;
use crate::envelope::GateKeypair;
use crate::filter::{Action, FlowUpdate, Lookups, PacketView};
use crate::gatekeeper::{
    Auth, Clock, Crypto, GateWriter, Gatekeeper, OpenedView, PolicyView, Reject, ReplayGuard,
    TrustStore,
};
use crate::grant::{Grant, MAX_GRANT_PORTS};
use crate::identity::{ClientKey, KnockRequest};
use crate::wire::{AuthorizationView, Suite, SIG_LEN};

verus! {

/// A knock that a known client seals to a gate for permitted ports, and that
/// reaches it in time and for the first time, opens exactly those ports.
pub proof fn law_sealed_knock_is_admitted<Cl, T, R, G>(
    before: Gatekeeper<Cl, GateKeypair, T, R, G>,
    after: Gatekeeper<Cl, GateKeypair, T, R, G>,
    client: ClientKey,
    request: KnockRequest,
    packet: Seq<u8>,
    policy: PolicyView,
    source: IpAddr,
    now: u64,
    decision: Result<Seq<u16>, Reject>,
) where Cl: Clock, T: TrustStore, R: ReplayGuard, G: GateWriter
    requires
        before.crypto.matched(),
        client.key_suite() == before.crypto.gate_suite(),
        client.knocks(before.crypto.gate_public(), request, packet),
        request.gate_id@ == before.config.gate_id@,
        crate::gatekeeper::within_skew(now, request.timestamp_nanos, before.config.skew_nanos),
        before.trust.policy(client.key_thumbprint()) == Some(policy),
        policy.auth == Auth::Signature,
        policy.suite == client.key_suite(),
        policy.public_key == client.key_public(),
        crate::gatekeeper::permitted(request.ports@, policy.allowed_ports),
        !before.replay.recorded().contains(request.nonce@),
        before.crypto.opening(packet) matches Some(opened) ==> after.judged(
            before,
            opened,
            source,
            now,
            decision,
        ),
    ensures
        before.crypto.opening(packet) is Some,
        decision == Ok::<Seq<u16>, Reject>(request.ports@),
{
    let region = request.region(client.key_thumbprint());
    let signature = choose|signature: Seq<u8>|
        signature.len() == SIG_LEN && #[trigger] crate::envelope::signature_holds(
            client.key_suite(),
            client.key_public(),
            region,
            signature,
        ) && crate::envelope::carries(
            client.key_suite(),
            before.crypto.gate_public(),
            packet,
            request.signed(client.key_thumbprint(), signature),
        );
    let auth = request.signed(client.key_thumbprint(), signature);
    assert(crate::envelope::envelope_opened(
        before.crypto.gate_suite(),
        before.crypto.gate_private(),
        packet,
    ) == Some(OpenedView { auth, signing_bytes: auth.signing_region() }));
    assert(auth.signing_region() == region);
}

/// A knock that is authenticated by an unused enrollment token, sealed to its
/// gate for the token's ports, timely and new, opens exactly those ports.
pub proof fn law_token_knock_is_admitted<Cl, T, R, G>(
    before: Gatekeeper<Cl, GateKeypair, T, R, G>,
    after: Gatekeeper<Cl, GateKeypair, T, R, G>,
    suite: Suite,
    secret: Seq<u8>,
    token_id: Seq<u8>,
    request: KnockRequest,
    packet: Seq<u8>,
    policy: PolicyView,
    source: IpAddr,
    now: u64,
    decision: Result<Seq<u16>, Reject>,
) where Cl: Clock, T: TrustStore, R: ReplayGuard, G: GateWriter
    requires
        before.crypto.matched(),
        suite == before.crypto.gate_suite(),
        crate::envelope::carries(
            suite,
            before.crypto.gate_public(),
            packet,
            request.signed(
                token_id,
                crate::primitives::hmac_sha512(secret, request.region(token_id)),
            ),
        ),
        request.gate_id@ == before.config.gate_id@,
        crate::gatekeeper::within_skew(now, request.timestamp_nanos, before.config.skew_nanos),
        before.trust.policy(token_id) == Some(policy),
        policy.auth == Auth::Psk,
        policy.public_key == secret,
        crate::gatekeeper::permitted(request.ports@, policy.allowed_ports),
        !before.replay.recorded().contains(request.nonce@),
        before.crypto.opening(packet) matches Some(opened) ==> after.judged(
            before,
            opened,
            source,
            now,
            decision,
        ),
    ensures
        before.crypto.opening(packet) is Some,
        decision == Ok::<Seq<u16>, Reject>(request.ports@),
{
    let auth = request.signed(
        token_id,
        crate::primitives::hmac_sha512(secret, request.region(token_id)),
    );
    assert(crate::envelope::envelope_opened(
        before.crypto.gate_suite(),
        before.crypto.gate_private(),
        packet,
    ) == Some(OpenedView { auth, signing_bytes: auth.signing_region() }));
    assert(auth.signing_region() == request.region(token_id));
}

/// Every knock that can be sealed has a size that the packet filter lets
/// through, in either suite and for any number of ports.
pub proof fn law_knock_passes_size_filter(
    suite: Suite,
    gate_public: Seq<u8>,
    packet: Seq<u8>,
    auth: AuthorizationView,
)
    requires
        crate::envelope::carries(suite, gate_public, packet, auth),
        auth.sized(),
        auth.encodable(),
    ensures
        crate::filter::knock_sized(packet.len() as int),
{
    crate::wire::lemma_encoding_len(auth);
}

/// A sealed knock begins with the version and its suite's byte, and its length is
/// settled by suite and number of ports.
pub proof fn law_sealed_knock_layout(
    suite: Suite,
    gate_public: Seq<u8>,
    packet: Seq<u8>,
    auth: AuthorizationView,
)
    requires
        crate::envelope::carries(suite, gate_public, packet, auth),
        auth.sized(),
        auth.encodable(),
    ensures
        packet[0] == crate::wire::VERSION,
        packet[1] == suite.byte(),
        packet.len() == 2 * auth.ports.len() + match suite {
            Suite::Fips => 221nat,
            Suite::Modern => 188nat,
        },
{
    crate::wire::lemma_encoding_len(auth);
}

/// A knock that was cut short anywhere, or whose tag was altered, does not open.
pub proof fn law_damaged_knock_fails_open(
    gate: GateKeypair,
    packet: Seq<u8>,
    auth: AuthorizationView,
    other: Seq<u8>,
)
    requires
        gate.matched(),
        crate::envelope::carries(gate.gate_suite(), gate.gate_public(), packet, auth),
        crate::envelope::damaged(packet, other),
    ensures
        gate.opening(other) is None,
{
}

/// Whatever opens, at whatever gate, holds a ciphertext that the suite's cipher
/// accepts under the key and nonce that this gate derives, with the header as
/// associated data, and opens to what that ciphertext decrypts to.
pub proof fn law_only_accepted_ciphertext_opens(gate: GateKeypair, packet: Seq<u8>)
    requires
        gate.opening(packet) is Some,
    ensures
        crate::envelope::parted(gate.gate_suite(), packet) is Some,
        crate::envelope::packet_keys(gate.gate_suite(), gate.gate_private(), packet) is Some,
        ({
            let parts = crate::envelope::parted(gate.gate_suite(), packet)->0;
            let (key, nonce) = crate::envelope::packet_keys(
                gate.gate_suite(),
                gate.gate_private(),
                packet,
            )->0;
            let plaintext = crate::envelope::aead_opened(
                gate.gate_suite(),
                key,
                nonce,
                parts.header,
                parts.sealed,
            );
            &&& plaintext is Some
            &&& gate.opening(packet) == crate::envelope::plaintext_opened(plaintext->0)
        }),
{
}

/// A knock whose ciphertext was altered, and nothing else, opens only if the
/// suite's cipher accepts the altered ciphertext under the knock's own key, nonce
/// and header: those under which the knock's ciphertext opens to its
/// authorization.
pub proof fn law_altered_ciphertext_opens_only_if_accepted(
    gate: GateKeypair,
    packet: Seq<u8>,
    auth: AuthorizationView,
    other: Seq<u8>,
)
    requires
        gate.matched(),
        crate::envelope::carries(gate.gate_suite(), gate.gate_public(), packet, auth),
        other.len() == packet.len(),
        other.take((2 + crate::envelope::eph_len(gate.gate_suite())) as int) == packet.take(
            (2 + crate::envelope::eph_len(gate.gate_suite())) as int,
        ),
    ensures
        crate::envelope::parted(gate.gate_suite(), packet) is Some,
        crate::envelope::packet_keys(gate.gate_suite(), gate.gate_private(), packet) is Some,
        ({
            let end = (2 + crate::envelope::eph_len(gate.gate_suite())) as int;
            let parts = crate::envelope::parted(gate.gate_suite(), packet)->0;
            let (key, nonce) = crate::envelope::packet_keys(
                gate.gate_suite(),
                gate.gate_private(),
                packet,
            )->0;
            &&& crate::envelope::aead_opened(
                gate.gate_suite(),
                key,
                nonce,
                parts.header,
                parts.sealed,
            ) == Some(auth.encoding())
            &&& gate.opening(other) == match crate::envelope::aead_opened(
                gate.gate_suite(),
                key,
                nonce,
                parts.header,
                other.skip(end),
            ) {
                Some(plaintext) => crate::envelope::plaintext_opened(plaintext),
                None => None,
            }
        }),
{
    let suite = gate.gate_suite();
    let end = (2 + crate::envelope::eph_len(suite)) as int;
    let parts = crate::envelope::parted(suite, packet)->0;
    assert(crate::envelope::envelope_opened(suite, gate.gate_private(), packet) == Some(
        OpenedView { auth, signing_bytes: auth.signing_region() },
    ));
    law_only_accepted_ciphertext_opens(gate, packet);
    let (key, nonce) = crate::envelope::packet_keys(suite, gate.gate_private(), packet)->0;
    let plaintext = crate::envelope::aead_opened(
        suite,
        key,
        nonce,
        parts.header,
        parts.sealed,
    )->0;
    crate::wire::law_encode_inverts_decode(plaintext);
    assert forall|i: int| 0 <= i < end implies #[trigger] other[i] == packet[i] by {
        assert(other.take(end)[i] == packet.take(end)[i]);
    }
    assert(other.subrange(0, end) =~= packet.subrange(0, end));
    assert(other.subrange(2, end) =~= packet.subrange(2, end));
    assert(other.subrange(end, other.len() as int) =~= other.skip(end));
}

/// A knock sealed in one suite does not open at a gate of the other.
pub proof fn law_other_suite_fails_open(
    gate: GateKeypair,
    suite: Suite,
    gate_public: Seq<u8>,
    packet: Seq<u8>,
    auth: AuthorizationView,
)
    requires
        crate::envelope::carries(suite, gate_public, packet, auth),
        gate.gate_suite() != suite,
    ensures
        gate.opening(packet) is None,
{
}

/// A packet that does not begin with the version does not open.
pub proof fn law_version_mismatch_fails_open(gate: GateKeypair, packet: Seq<u8>)
    requires
        packet.len() == 0 || packet[0] != crate::wire::VERSION,
    ensures
        gate.opening(packet) is None,
{
}

/// A gate of one suite does not open a packet that names another.
pub proof fn law_suite_mismatch_fails_open(gate: GateKeypair, packet: Seq<u8>)
    requires
        packet.len() < 2 || packet[1] != gate.gate_suite().byte(),
    ensures
        gate.opening(packet) is None,
{
}

/// A packet too short to hold a header and a tag does not open.
pub proof fn law_short_packet_fails_open(gate: GateKeypair, packet: Seq<u8>)
    requires
        packet.len() < 2 + crate::envelope::eph_len(gate.gate_suite())
            + crate::envelope::AEAD_TAG_LEN,
    ensures
        gate.opening(packet) is None,
{
}

/// The nonce of a knock is remembered for longer than the knock can stay timely:
/// where the two clocks advance alike, a knock that is presented again either is
/// late or comes while its nonce is still remembered.
pub proof fn law_replay_window_outlasts_timeliness(
    skew_seconds: u64,
    timestamp: u64,
    wall_first: u64,
    wall_again: u64,
    mono_first: u128,
    mono_again: u128,
)
    requires
        crate::gatekeeper::within_skew(
            wall_first,
            timestamp,
            crate::grant::at_most(skew_seconds * 1_000_000_000, u64::MAX as int) as u64,
        ),
        wall_again >= wall_first,
        mono_again - mono_first == wall_again - wall_first,
    ensures
        !crate::gatekeeper::within_skew(
            wall_again,
            timestamp,
            crate::grant::at_most(skew_seconds * 1_000_000_000, u64::MAX as int) as u64,
        ) || crate::adapters::elapsed(mono_first, mono_again) < (skew_seconds * 2 + 1)
            * 1_000_000_000,
{
}

/// A nonce opens once: whatever else was presented since, a knock with the nonce
/// of one that was admitted opens nothing and burns nothing until the replay
/// window is over.
pub proof fn law_nonce_opens_once<Cl, Cr, T, G>(
    first: Gatekeeper<Cl, Cr, T, MemReplay, G>,
    second: Gatekeeper<Cl, Cr, T, MemReplay, G>,
    third: Gatekeeper<Cl, Cr, T, MemReplay, G>,
    fourth: Gatekeeper<Cl, Cr, T, MemReplay, G>,
    nonce: Seq<u8>,
    at: u128,
    events: Seq<SeenView>,
    again: OpenedView,
    source: IpAddr,
    now: u64,
    decision: Result<Seq<u16>, Reject>,
    later: u128,
) where Cl: Clock, Cr: Crypto, T: TrustStore, G: GateWriter
    requires
        second.replay.answered_at(first.replay, nonce, true, at),
        third.replay.record() == crate::adapters::presented_all(
            second.replay.record(),
            second.replay.window(),
            events,
        ),
        third.replay.window() == second.replay.window(),
        forall|i: int| 0 <= i < events.len() ==> at <= (#[trigger] events[i]).at <= later,
        later - at < first.replay.window(),
        at <= later,
        again.auth.nonce == nonce,
        fourth.judged(third, again, source, now, decision),
        third.screen(again, now) is Ok ==> fourth.replay.answered_at(
            third.replay,
            nonce,
            decision is Ok,
            later,
        ),
    ensures
        decision is Err,
        fourth.gate == third.gate,
        fourth.trust == third.trust,
{
    crate::adapters::law_replay_refused_within_window(
        first.replay.record(),
        first.replay.window(),
        nonce,
        at,
        events,
        later,
    );
}

/// A captured knock never opens anything twice: where the two clocks advance
/// alike and the replay window is the configured one, a knock that was admitted
/// is turned away whenever it is presented again, either because it is late or
/// because its nonce is on record.
pub proof fn law_captured_knock_never_opens_again<Cl, Cr, T, G>(
    first: Gatekeeper<Cl, Cr, T, MemReplay, G>,
    second: Gatekeeper<Cl, Cr, T, MemReplay, G>,
    third: Gatekeeper<Cl, Cr, T, MemReplay, G>,
    fourth: Gatekeeper<Cl, Cr, T, MemReplay, G>,
    skew_seconds: u64,
    knock: OpenedView,
    source: IpAddr,
    now: u64,
    at: u128,
    ports: Seq<u16>,
    events: Seq<SeenView>,
    source_again: IpAddr,
    now_again: u64,
    later: u128,
    decision: Result<Seq<u16>, Reject>,
) where Cl: Clock, Cr: Crypto, T: TrustStore, G: GateWriter
    requires
        first.config.skew_nanos == crate::grant::at_most(
            skew_seconds * 1_000_000_000,
            u64::MAX as int,
        ),
        first.replay.window() == (skew_seconds * 2 + 1) * 1_000_000_000,
        second.judged(first, knock, source, now, Ok(ports)),
        second.replay.answered_at(first.replay, knock.auth.nonce, true, at),
        third.config == second.config,
        third.replay.record() == crate::adapters::presented_all(
            second.replay.record(),
            second.replay.window(),
            events,
        ),
        third.replay.window() == second.replay.window(),
        forall|i: int| 0 <= i < events.len() ==> at <= (#[trigger] events[i]).at <= later,
        now <= now_again,
        later - at == now_again - now,
        fourth.judged(third, knock, source_again, now_again, decision),
        third.screen(knock, now_again) is Ok ==> fourth.replay.answered_at(
            third.replay,
            knock.auth.nonce,
            decision is Ok,
            later,
        ),
    ensures
        decision is Err,
        fourth.gate == third.gate,
        fourth.trust == third.trust,
{
    if third.screen(knock, now_again) is Ok {
        law_replay_window_outlasts_timeliness(
            skew_seconds,
            knock.auth.timestamp_nanos,
            now,
            now_again,
            at,
            later,
        );
        law_nonce_opens_once(
            first,
            second,
            third,
            fourth,
            knock.auth.nonce,
            at,
            events,
            knock,
            source_again,
            now_again,
            decision,
            later,
        );
    }
}

/// The address under which the packet filter looks an IPv4 source up is the one
/// under which its grant was entered.
pub proof fn law_filter_finds_ipv4_grant(packet: Seq<u8>, found: PacketView, octets: [u8; 4])
    requires
        crate::filter::parsed(packet) == Ok::<Option<PacketView>, crate::filter::Truncated>(
            Some(found),
        ),
        crate::filter::be16_at(packet, 12) == Some(crate::filter::ETHERTYPE_IPV4),
        packet.subrange(26, 30) == octets@,
    ensures
        found.saddr == IpAddr::V4(octets).key_bytes(),
{
}

/// The address under which the packet filter looks an IPv6 source up is the one
/// under which its grant was entered.
pub proof fn law_filter_finds_ipv6_grant(packet: Seq<u8>, found: PacketView, octets: [u8; 16])
    requires
        crate::filter::parsed(packet) == Ok::<Option<PacketView>, crate::filter::Truncated>(
            Some(found),
        ),
        crate::filter::be16_at(packet, 12) == Some(crate::filter::ETHERTYPE_IPV6),
        packet.subrange(22, 38) == octets@,
    ensures
        found.saddr == IpAddr::V6(octets).key_bytes(),
{
}

/// What an allow-list, keyed by address, holds for the source of a packet.
pub open spec fn grant_for(allow: Map<Seq<u8>, Grant>, packet: Seq<u8>) -> Option<Grant> {
    match crate::filter::flow_of(packet) {
        Some(flow) if allow.contains_key(flow.saddr) => Some(allow[flow.saddr]),
        _ => None,
    }
}

/// An opening lets its source connect, and only while it lasts: with its grant
/// entered under the source's key, the first segment of a connection from that
/// source to an opened port passes until the time is up, and is tracked from
/// then on; after that it is dropped again, unless its flow is alive.
pub proof fn law_opening_admits_its_source(
    allow: Map<Seq<u8>, Grant>,
    source: IpAddr,
    ports: Seq<u16>,
    ttl_nanos: u64,
    issued_ns: u64,
    grant: Grant,
    packet: Seq<u8>,
    i: int,
    found: Lookups,
    now_ns: u64,
)
    requires
        grant.granted() == ports.take(
            crate::grant::at_most(ports.len() as int, MAX_GRANT_PORTS as int),
        ),
        grant.expiry_ns == crate::grant::at_most(issued_ns + ttl_nanos, u64::MAX as int),
        issued_ns + ttl_nanos <= u64::MAX,
        0 <= i < ports.len() <= MAX_GRANT_PORTS,
        crate::filter::tcp_segment(packet),
        crate::filter::pure_syn(crate::filter::tcp_flags(packet)),
        crate::filter::flow_of(packet)->0.saddr == source.key_bytes(),
        crate::filter::flow_of(packet)->0.dport == ports[i],
        found.protected,
        found.grant == grant_for(allow.insert(source.key_bytes(), grant), packet),
        !crate::filter::alive(found.last_seen, now_ns),
    ensures
        now_ns < issued_ns + ttl_nanos ==> {
            &&& crate::filter::verdict(packet, found, now_ns).action == Action::Pass
            &&& crate::filter::verdict(packet, found, now_ns).flow == FlowUpdate::SeenAt(now_ns)
        },
        now_ns >= issued_ns + ttl_nanos ==> crate::filter::verdict(packet, found, now_ns).action
            == Action::Drop,
{
    crate::grant::law_issued_grant_is_live(grant, ports, issued_ns, ttl_nanos, i, now_ns);
}

/// An opening is for its source only: what the allow-list holds for packets from
/// anywhere else stays as it was.
pub proof fn law_opening_admits_nobody_else(
    allow: Map<Seq<u8>, Grant>,
    source: IpAddr,
    grant: Grant,
    packet: Seq<u8>,
)
    requires
        crate::filter::flow_of(packet) matches Some(flow) ==> flow.saddr != source.key_bytes(),
    ensures
        grant_for(allow.insert(source.key_bytes(), grant), packet) == grant_for(allow, packet),
{
}

} // verus!
