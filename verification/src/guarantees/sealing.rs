//! Sealing a knock at the client, and opening it at its gate.

use vstd::prelude::*;
use vstd::string::*;

use crate::adapters::SystemClock;
use crate::bundle::{load_verify, sign_bundle, BundleError};
use crate::client::{Enroller, Error, ErrorView, Freshness, Knocker};
use crate::envelope::{
    decrypt, eph_pub_len, read_plaintext, seal_packet, split_packet, thumbprint_of,
    verify_signature, CryptoError, GateKeypair, Parts,
};
use crate::gatekeeper::{Clock, Crypto, OpenError, Opened};
use crate::identity::{seal_psk, ClientKey, KnockRequest};
use crate::primitives;
use crate::provision::{KeyMaterial, TokenMaterial};
use crate::wire::{Suite, GATE_ID_LEN, NONCE_LEN, THUMBPRINT_LEN};

verus! {

/// How many bytes an ephemeral public key has on the wire.
pub open spec fn key_len(suite: Suite) -> int {
    match suite {
        Suite::Fips => 65,
        Suite::Modern => 32,
    }
}

/// An ephemeral public key has as many bytes as its suite's keys have.
pub proof fn law_eph_pub_len(suite: Suite, n: usize)
    requires
        call_ensures(eph_pub_len, (suite,), n),
    ensures
        n == key_len(suite),
{
}

/// The byte that names a suite.
pub open spec fn suite_byte(suite: Suite) -> u8 {
    match suite {
        Suite::Fips => 1,
        Suite::Modern => 2,
    }
}

/// A signature is valid: ECDSA over P-256 in one suite, Ed25519 in the other.
pub open spec fn valid(suite: Suite, public: Seq<u8>, message: Seq<u8>, signature: Seq<u8>) -> bool {
    match suite {
        Suite::Fips => primitives::ecdsa_p256_valid(public, message, signature),
        Suite::Modern => primitives::ed25519_valid(public, message, signature),
    }
}

/// What a gate finds in a packet: the secret that it shares with the packet's
/// ephemeral key gives a key and a nonce, under which the rest decrypts, with all
/// that stands in front of it authenticated.
pub open spec fn unsealed(suite: Suite, private: Seq<u8>, packet: Seq<u8>) -> Option<Seq<u8>> {
    let end = 2 + key_len(suite);
    if packet.len() < end + 16 || packet[0] != 1 || packet[1] != suite_byte(suite) {
        None
    } else {
        let ephemeral = packet.subrange(2, end);
        let shared = match suite {
            Suite::Fips => primitives::p256_secret(private, ephemeral),
            Suite::Modern => primitives::x25519_secret(private, ephemeral),
        };
        match shared {
            None => None,
            Some(shared) => {
                let context = vstd::utf8::encode_utf8("spa-v1-envelope"@) + seq![suite_byte(suite)]
                    + ephemeral;
                match primitives::hkdf_sha256(shared, context, 44) {
                    None => None,
                    Some(keys) => match suite {
                        Suite::Fips => primitives::aes_256_gcm_opened(
                            keys.subrange(0, 32),
                            keys.subrange(32, 44),
                            packet.subrange(0, end),
                            packet.subrange(end, packet.len() as int),
                        ),
                        Suite::Modern => primitives::chacha20_poly1305_opened(
                            keys.subrange(0, 32),
                            keys.subrange(32, 44),
                            packet.subrange(0, end),
                            packet.subrange(end, packet.len() as int),
                        ),
                    },
                }
            },
        }
    }
}

/// Bytes that spell an authorization.
pub open spec fn well_formed(b: Seq<u8>) -> bool {
    b.len() >= 74 && b[0] == 1 && 1 <= b[73] <= 8 && b.len() == 138 + 2 * b[73]
}

/// A packet opens exactly if what a gate finds in it spells an authorization; it is
/// then that authorization, with all but its signature as what the signature covers.
pub proof fn law_open(gate: &GateKeypair, packet: &[u8], r: Result<Opened, OpenError>)
    requires
        call_ensures(<GateKeypair as Crypto>::open, (gate, packet), r),
    ensures
        ({
            let plaintext = unsealed(gate.gate_suite(), gate.gate_private(), packet@);
            &&& r is Ok == (plaintext is Some && well_formed(plaintext->0))
            &&& r matches Ok(opened) ==> {
                &&& crate::guarantees::format::spells(plaintext->0, opened.auth)
                &&& opened.signing_bytes@ == plaintext->0.take(plaintext->0.len() - 64)
            }
        }),
{
    let suite = gate.gate_suite();
    let end = 2 + key_len(suite);
    assert(seq![crate::wire::VERSION, suite.byte()] =~= seq![1u8, suite_byte(suite)]);
    let plaintext = unsealed(suite, gate.gate_private(), packet@);
    if let Some(b) = plaintext {
        assert(crate::envelope::plaintext_opened(b) == crate::envelope::envelope_opened(
            suite,
            gate.gate_private(),
            packet@,
        ));
        assert(crate::wire::decoded(b) is Ok == well_formed(b));
        if let Ok(opened) = r {
            crate::guarantees::format::lemma_decoded_spells(b, opened.auth);
            assert(b.take(b.len() - 64) =~= b.subrange(0, b.len() - 64));
        }
    }
}

/// A packet is taken apart at fixed places: two bytes, the ephemeral key, and the
/// rest, which holds a tag at least.
pub proof fn law_split_packet(suite: Suite, packet: &[u8], r: Option<Parts>)
    requires
        call_ensures(split_packet, (suite, packet), r),
    ensures
        r is Some == (packet@.len() >= 18 + key_len(suite) && packet@[0] == 1 && packet@[1]
            == suite_byte(suite)),
        r matches Some(parts) ==> {
            &&& parts.header@ == packet@.take(2 + key_len(suite))
            &&& parts.eph_pub@ == packet@.subrange(2, 2 + key_len(suite))
            &&& parts.sealed@ == packet@.skip(2 + key_len(suite))
        },
{
    if r is Some {
        let end = 2 + key_len(suite);
        assert(packet@.subrange(0, end) =~= packet@.take(end));
        assert(packet@.subrange(end, packet@.len() as int) =~= packet@.skip(end));
    }
}

/// The key and the nonce that a shared secret gives: 44 bytes, bound to the suite and
/// the ephemeral key.
pub open spec fn keys_of(suite: Suite, shared: Seq<u8>, eph_pub: Seq<u8>) -> Option<Seq<u8>> {
    primitives::hkdf_sha256(
        shared,
        vstd::utf8::encode_utf8("spa-v1-envelope"@) + seq![suite_byte(suite)] + eph_pub,
        44,
    )
}

/// The parts of a packet decrypt under the keys that the shared secret gives, with
/// the header authenticated.
pub proof fn law_decrypt(suite: Suite, shared: &[u8], parts: &Parts, r: Option<Vec<u8>>)
    requires
        call_ensures(decrypt, (suite, shared, parts), r),
    ensures
        primitives::contents(r) == match keys_of(suite, shared@, parts.eph_pub@) {
            None => None,
            Some(keys) => match suite {
                Suite::Fips => primitives::aes_256_gcm_opened(
                    keys.take(32),
                    keys.subrange(32, 44),
                    parts.header@,
                    parts.sealed@,
                ),
                Suite::Modern => primitives::chacha20_poly1305_opened(
                    keys.take(32),
                    keys.subrange(32, 44),
                    parts.header@,
                    parts.sealed@,
                ),
            },
        },
{
    if let Some(keys) = keys_of(suite, shared@, parts.eph_pub@) {
        assert(keys.subrange(0, 32) =~= keys.take(32));
    }
}

/// A packet is the version, the suite's byte and the ephemeral key, all of them
/// authenticated, and behind them the plaintext sealed under the keys that the shared
/// secret gives.
pub proof fn law_seal_packet(
    suite: Suite,
    eph_pub: &[u8],
    shared: &[u8],
    plaintext: &[u8],
    r: Option<Vec<u8>>,
)
    requires
        call_ensures(seal_packet, (suite, eph_pub, shared, plaintext), r),
    ensures
        ({
            let head = seq![1u8, suite_byte(suite)] + eph_pub@;
            let keys = keys_of(suite, shared@, eph_pub@);
            let sealed = match suite {
                Suite::Fips => primitives::aes_256_gcm_sealed(
                    keys->0.take(32),
                    keys->0.subrange(32, 44),
                    head,
                    plaintext@,
                ),
                Suite::Modern => primitives::chacha20_poly1305_sealed(
                    keys->0.take(32),
                    keys->0.subrange(32, 44),
                    head,
                    plaintext@,
                ),
            };
            &&& r is Some == (keys is Some && sealed is Some)
            &&& r is Some ==> r->0@ == head + sealed->0
        }),
{
    assert(seq![crate::wire::VERSION, suite.byte()] =~= seq![1u8, suite_byte(suite)]);
    if let Some(keys) = keys_of(suite, shared@, eph_pub@) {
        assert(keys.subrange(0, 32) =~= keys.take(32));
    }
}

/// A plaintext is read exactly if it spells an authorization, as that authorization,
/// with all but its signature as what the signature covers.
pub proof fn law_read_plaintext(plaintext: &[u8], r: Result<Opened, OpenError>)
    requires
        call_ensures(read_plaintext, (plaintext,), r),
    ensures
        r is Ok == well_formed(plaintext@),
        r matches Ok(opened) ==> crate::guarantees::format::spells(plaintext@, opened.auth)
            && opened.signing_bytes@ == plaintext@.take(plaintext@.len() - 64),
{
    let b = plaintext@;
    assert(crate::wire::decoded(b) is Ok == well_formed(b));
    if let Ok(opened) = r {
        crate::guarantees::format::lemma_decoded_spells(b, opened.auth);
        assert(b.take(b.len() - 64) =~= b.subrange(0, b.len() - 64));
    }
}

/// An authenticator is checked by the algorithm that it belongs to.
pub proof fn law_verify(
    gate: &GateKeypair,
    suite: Suite,
    key: &[u8],
    message: &[u8],
    signature: &[u8],
    by_gate: bool,
    by_mac: bool,
    alone: bool,
)
    requires
        call_ensures(
            <GateKeypair as Crypto>::verify,
            (gate, suite, key, message, signature),
            by_gate,
        ),
        call_ensures(<GateKeypair as Crypto>::verify_mac, (gate, key, message, signature), by_mac),
        call_ensures(verify_signature, (suite, key, message, signature), alone),
    ensures
        by_gate == valid(suite, key@, message@, signature@),
        alone == valid(suite, key@, message@, signature@),
        by_mac == (signature@ == primitives::hmac_sha512(key@, message@)),
{
}

/// A gate's key is made of its private half, and has the public half that belongs to
/// it.
pub proof fn law_gate_key(suite: Suite, raw: &[u8], r: Result<GateKeypair, CryptoError>)
    requires
        call_ensures(GateKeypair::from_raw_private, (suite, raw), r),
    ensures
        ({
            let public = match suite {
                Suite::Fips => primitives::p256_public(raw@),
                Suite::Modern => primitives::x25519_public(raw@),
            };
            match r {
                Ok(key) => {
                    &&& key.gate_suite() == suite
                    &&& key.gate_private() == raw@
                    &&& public == Some(key.gate_public())
                    &&& key.gate_public().len() == key_len(suite)
                },
                Err(e) => e == CryptoError::Key && public is None,
            }
        }),
{
}

/// A client's key is made of its document, and has the public key and the thumbprint
/// that belong to it.
pub proof fn law_client_key(suite: Suite, pkcs8: &[u8], r: Result<ClientKey, CryptoError>)
    requires
        call_ensures(ClientKey::from_pkcs8, (suite, pkcs8), r),
    ensures
        ({
            let public = match suite {
                Suite::Fips => primitives::ecdsa_p256_public(pkcs8@),
                Suite::Modern => primitives::ed25519_public(pkcs8@),
            };
            match r {
                Ok(key) => {
                    &&& key.key_suite() == suite
                    &&& key.key_pkcs8() == pkcs8@
                    &&& public == Some(key.key_public())
                    &&& key.key_thumbprint() == primitives::sha256(key.key_public())
                },
                Err(e) => e == CryptoError::Key && public is None,
            }
        }),
{
}

/// A thumbprint is the digest of the public key.
pub proof fn law_thumbprint(public_key: &[u8], out: [u8; THUMBPRINT_LEN])
    requires
        call_ensures(thumbprint_of, (public_key,), out),
    ensures
        out@ == primitives::sha256(public_key@),
{
}

/// What an opened knock says of the request that it was sealed for.
pub open spec fn says(
    opened: Opened,
    gate_id: Seq<u8>,
    ports: Seq<u16>,
    nonce: Seq<u8>,
    timestamp_nanos: u64,
    sender: Seq<u8>,
) -> bool {
    &&& opened.auth.gate_id@ == gate_id
    &&& opened.auth.ports@ == ports
    &&& opened.auth.nonce@ == nonce
    &&& opened.auth.timestamp_nanos == timestamp_nanos
    &&& opened.auth.key_thumbprint@ == sender
}

/// A knock that a client seals to a gate opens there, to what it was sealed for,
/// signed by that client over what the signature covers.
pub proof fn law_sealed_knock_opens(
    client: &ClientKey,
    gate_public: &[u8],
    gate_id: [u8; GATE_ID_LEN],
    ports: &[u16],
    nonce: [u8; NONCE_LEN],
    timestamp_nanos: u64,
    packet: Vec<u8>,
    gate: &GateKeypair,
    received: &[u8],
    r: Result<Opened, OpenError>,
)
    requires
        call_ensures(
            ClientKey::seal,
            (client, gate_public, gate_id, ports, nonce, timestamp_nanos),
            Ok::<Vec<u8>, CryptoError>(packet),
        ),
        gate.matched(),
        gate.gate_suite() == client.key_suite(),
        gate.gate_public() == gate_public@,
        received@ == packet@,
        call_ensures(<GateKeypair as Crypto>::open, (gate, received), r),
    ensures
        r is Ok,
        says(r->Ok_0, gate_id@, ports@, nonce@, timestamp_nanos, client.key_thumbprint()),
        valid(
            client.key_suite(),
            client.key_public(),
            r->Ok_0.signing_bytes@,
            r->Ok_0.auth.signature@,
        ),
        client.key_suite() == Suite::Modern ==> primitives::ed25519_signature(
            client.key_pkcs8(),
            r->Ok_0.signing_bytes@,
        ) == Some(r->Ok_0.auth.signature@),
{
    let request = KnockRequest { gate_id, ports, nonce, timestamp_nanos };
    lemma_knock_opens(*client, *gate, request, packet@, r, received@);
}

proof fn lemma_knock_opens(
    client: ClientKey,
    gate: GateKeypair,
    request: KnockRequest,
    packet: Seq<u8>,
    r: Result<Opened, OpenError>,
    received: Seq<u8>,
)
    requires
        client.knocks(gate.gate_public(), request, packet),
        gate.matched(),
        gate.gate_suite() == client.key_suite(),
        received == packet,
        match r {
            Ok(opened) => gate.opening(received) == Some(opened@),
            Err(_) => gate.opening(received) is None,
        },
    ensures
        r is Ok,
        says(
            r->Ok_0,
            request.gate_id@,
            request.ports@,
            request.nonce@,
            request.timestamp_nanos,
            client.key_thumbprint(),
        ),
        valid(
            client.key_suite(),
            client.key_public(),
            r->Ok_0.signing_bytes@,
            r->Ok_0.auth.signature@,
        ),
        client.key_suite() == Suite::Modern ==> primitives::ed25519_signature(
            client.key_pkcs8(),
            r->Ok_0.signing_bytes@,
        ) == Some(r->Ok_0.auth.signature@),
{
    let region = request.region(client.key_thumbprint());
    let signature = choose|signature: Seq<u8>|
        signature.len() == crate::wire::SIG_LEN && #[trigger] crate::envelope::signature_holds(
            client.key_suite(),
            client.key_public(),
            region,
            signature,
        ) && (client.key_suite() == Suite::Modern ==> primitives::ed25519_signature(
            client.key_pkcs8(),
            region,
        ) == Some(signature)) && crate::envelope::carries(
            client.key_suite(),
            gate.gate_public(),
            packet,
            request.signed(client.key_thumbprint(), signature),
        );
    let auth = request.signed(client.key_thumbprint(), signature);
    assert(crate::envelope::envelope_opened(gate.gate_suite(), gate.gate_private(), packet) == Some(
        crate::gatekeeper::OpenedView { auth, signing_bytes: auth.signing_region() },
    ));
    assert(auth.signing_region() == region);
}

/// How a sealed knock lies on the wire: the version, the suite's byte, and as many
/// bytes behind them as suite and number of ports ask for, which the packet filter
/// lets through.
pub open spec fn laid_out(packet: Seq<u8>, suite: Suite, ports: int) -> bool {
    &&& packet.len() == 2 + key_len(suite) + (138 + 2 * ports) + 16
    &&& packet[0] == 1
    &&& packet[1] == suite_byte(suite)
    &&& 180 <= packet.len() <= 260
}

/// `other` is what is left of a packet that was cut short, or the packet with other
/// bytes among its last sixteen.
pub open spec fn spoiled(packet: Seq<u8>, other: Seq<u8>) -> bool {
    ||| exists|n: int| 0 <= n < packet.len() && other == #[trigger] packet.take(n)
    ||| other.len() == packet.len() && other != packet && forall|i: int|
        0 <= i < packet.len() - 16 ==> #[trigger] other[i] == packet[i]
}

proof fn lemma_spoiled(packet: Seq<u8>, other: Seq<u8>)
    requires
        spoiled(packet, other),
        packet.len() >= 16,
    ensures
        crate::envelope::damaged(packet, other),
{
    if exists|n: int| 0 <= n < packet.len() && other == #[trigger] packet.take(n) {
        let n = choose|n: int| 0 <= n < packet.len() && other == #[trigger] packet.take(n);
        assert(other.len() == n);
    } else {
        assert(packet.take(packet.len() - 16) =~= other.take(other.len() - 16));
    }
}

/// A knock that a client seals has the layout of its suite, and once it is spoiled
/// it does not open.
pub proof fn law_spoiled_knock_does_not_open(
    client: &ClientKey,
    gate_public: &[u8],
    gate_id: [u8; GATE_ID_LEN],
    ports: &[u16],
    nonce: [u8; NONCE_LEN],
    timestamp_nanos: u64,
    packet: Vec<u8>,
    gate: &GateKeypair,
    received: &[u8],
    r: Result<Opened, OpenError>,
)
    requires
        call_ensures(
            ClientKey::seal,
            (client, gate_public, gate_id, ports, nonce, timestamp_nanos),
            Ok::<Vec<u8>, CryptoError>(packet),
        ),
        gate.matched(),
        gate.gate_suite() == client.key_suite(),
        gate.gate_public() == gate_public@,
        spoiled(packet@, received@),
        call_ensures(<GateKeypair as Crypto>::open, (gate, received), r),
    ensures
        laid_out(packet@, client.key_suite(), ports@.len() as int),
        r is Err,
{
    let request = KnockRequest { gate_id, ports, nonce, timestamp_nanos };
    let region = request.region(client.key_thumbprint());
    let signature = choose|signature: Seq<u8>|
        signature.len() == crate::wire::SIG_LEN && #[trigger] crate::envelope::signature_holds(
            client.key_suite(),
            client.key_public(),
            region,
            signature,
        ) && (client.key_suite() == Suite::Modern ==> primitives::ed25519_signature(
            client.key_pkcs8(),
            region,
        ) == Some(signature)) && crate::envelope::carries(
            client.key_suite(),
            gate.gate_public(),
            packet@,
            request.signed(client.key_thumbprint(), signature),
        );
    let auth = request.signed(client.key_thumbprint(), signature);
    client.lemma_thumbprint_len();
    crate::wire::lemma_encoding_len(auth);
    lemma_spoiled(packet@, received@);
}

/// A token's knock has the layout of its suite, and once it is spoiled it does not
/// open.
pub proof fn law_spoiled_token_knock_does_not_open(
    gate_public: &[u8],
    suite: Suite,
    secret: &[u8],
    token_id: [u8; THUMBPRINT_LEN],
    request: &KnockRequest,
    packet: Vec<u8>,
    gate: &GateKeypair,
    received: &[u8],
    r: Result<Opened, OpenError>,
)
    requires
        call_ensures(
            seal_psk,
            (gate_public, suite, secret, token_id, request),
            Ok::<Vec<u8>, CryptoError>(packet),
        ),
        gate.matched(),
        gate.gate_suite() == suite,
        gate.gate_public() == gate_public@,
        spoiled(packet@, received@),
        call_ensures(<GateKeypair as Crypto>::open, (gate, received), r),
    ensures
        r is Err,
        packet@.len() >= 16,
{
    lemma_spoiled(packet@, received@);
}

/// A knock is refused as one that cannot be encoded exactly where it asks for no
/// port or for more than eight, and never sealed to a key that nothing can be agreed
/// with.
pub proof fn law_seal_refusals(
    client: &ClientKey,
    gate_public: &[u8],
    gate_id: [u8; GATE_ID_LEN],
    ports: &[u16],
    nonce: [u8; NONCE_LEN],
    timestamp_nanos: u64,
    r: Result<Vec<u8>, CryptoError>,
    suite: Suite,
    secret: &[u8],
    token_id: [u8; THUMBPRINT_LEN],
    request: &KnockRequest,
    q: Result<Vec<u8>, CryptoError>,
)
    requires
        call_ensures(
            ClientKey::seal,
            (client, gate_public, gate_id, ports, nonce, timestamp_nanos),
            r,
        ),
        call_ensures(seal_psk, (gate_public, suite, secret, token_id, request), q),
    ensures
        r == Err::<Vec<u8>, CryptoError>(CryptoError::Encode) <==> (ports@.len() == 0
            || ports@.len() > 8),
        r != Err::<Vec<u8>, CryptoError>(CryptoError::Key),
        r is Ok ==> crate::envelope::peer_accepted(client.key_suite(), gate_public@),
        q == Err::<Vec<u8>, CryptoError>(CryptoError::Encode) <==> (request.ports@.len() == 0
            || request.ports@.len() > 8),
        q != Err::<Vec<u8>, CryptoError>(CryptoError::Key),
        q != Err::<Vec<u8>, CryptoError>(CryptoError::Sign),
        q is Ok ==> crate::envelope::peer_accepted(suite, gate_public@),
{
}

/// Under the keys that this secret gives, the suite's cipher seals nothing.
pub open spec fn seals_nothing(
    suite: Suite,
    shared: Seq<u8>,
    eph_pub: Seq<u8>,
    plaintext: Seq<u8>,
) -> bool {
    let head = seq![1u8, suite_byte(suite)] + eph_pub;
    match keys_of(suite, shared, eph_pub) {
        None => true,
        Some(keys) => match suite {
            Suite::Fips => primitives::aes_256_gcm_sealed(
                keys.take(32),
                keys.subrange(32, 44),
                head,
                plaintext,
            ) is None,
            Suite::Modern => primitives::chacha20_poly1305_sealed(
                keys.take(32),
                keys.subrange(32, 44),
                head,
                plaintext,
            ) is None,
        },
    }
}

/// An exchange with a gate gave these.
pub open spec fn agreed(suite: Suite, peer: Seq<u8>, public: Seq<u8>, secret: Seq<u8>) -> bool {
    match suite {
        Suite::Fips => primitives::p256_exchanged(peer, public, secret),
        Suite::Modern => primitives::x25519_exchanged(peer, public, secret),
    }
}

/// No secret was agreed on with a gate, or the cipher did not seal so many bytes
/// under the one that was.
pub open spec fn unsealable(suite: Suite, gate_public: Seq<u8>, n: nat) -> bool {
    ||| suite == Suite::Fips && primitives::p256_exchange_failed(gate_public)
    ||| suite == Suite::Modern && primitives::x25519_exchange_failed(gate_public)
    ||| exists|public: Seq<u8>, secret: Seq<u8>, plaintext: Seq<u8>|
        #![trigger agreed(suite, gate_public, public, secret), seals_nothing(suite, secret, public, plaintext)]
        agreed(suite, gate_public, public, secret) && seals_nothing(
            suite,
            secret,
            public,
            plaintext,
        ) && plaintext.len() == n
}

/// A message of so many bytes could not be signed.
pub open spec fn unsignable(suite: Suite, pkcs8: Seq<u8>, n: nat) -> bool {
    exists|message: Seq<u8>| #[trigger] refused(suite, pkcs8, message) && message.len() == n
}

/// This message could not be signed.
pub open spec fn refused(suite: Suite, pkcs8: Seq<u8>, message: Seq<u8>) -> bool {
    match suite {
        Suite::Fips => primitives::ecdsa_p256_sign_failed(pkcs8, message),
        Suite::Modern => primitives::ed25519_signature(pkcs8, message) is None,
    }
}

proof fn lemma_unsealable(suite: Suite, gate_public: Seq<u8>, plaintext: Seq<u8>)
    requires
        crate::envelope::sealing_failed(suite, gate_public, plaintext),
    ensures
        unsealable(suite, gate_public, plaintext.len()),
{
    assert(seq![crate::wire::VERSION, suite.byte()] =~= seq![1u8, suite_byte(suite)]);
    if !crate::envelope::exchange_failed(suite, gate_public) {
        let (public, secret) = choose|public: Seq<u8>, secret: Seq<u8>| #[trigger]
            crate::envelope::exchanged(suite, gate_public, public, secret)
                && crate::envelope::envelope_sealed(suite, public, secret, plaintext) is None;
        assert(agreed(suite, gate_public, public, secret));
        if let Some(keys) = keys_of(suite, secret, public) {
            assert(keys.subrange(0, 32) =~= keys.take(32));
        }
        assert(seals_nothing(suite, secret, public, plaintext));
    }
}

proof fn lemma_knock_failed(
    client: ClientKey,
    gate_public: Seq<u8>,
    request: KnockRequest,
    e: CryptoError,
)
    requires
        1 <= request.ports@.len() <= 8,
        client.knock_failed(gate_public, request, e),
    ensures
        e == CryptoError::Sign || e == CryptoError::Crypto,
        e == CryptoError::Sign ==> unsignable(
            client.key_suite(),
            client.key_pkcs8(),
            74 + 2 * request.ports@.len(),
        ),
        e == CryptoError::Crypto ==> unsealable(
            client.key_suite(),
            gate_public,
            138 + 2 * request.ports@.len(),
        ),
{
    client.lemma_thumbprint_len();
    let zeros = Seq::new(64, |i: int| 0u8);
    let region = request.region(client.key_thumbprint());
    crate::wire::lemma_encoding_len(request.signed(client.key_thumbprint(), zeros));
    if e == CryptoError::Sign {
        assert(refused(client.key_suite(), client.key_pkcs8(), region));
        assert(region.len() == 74 + 2 * request.ports@.len());
    } else {
        let signature = choose|signature: Seq<u8>| #[trigger]
            crate::envelope::signature_holds(
                client.key_suite(),
                client.key_public(),
                region,
                signature,
            ) && signature.len() == 64 && crate::envelope::sealing_failed(
                client.key_suite(),
                gate_public,
                request.signed(client.key_thumbprint(), signature).encoding(),
            );
        let auth = request.signed(client.key_thumbprint(), signature);
        crate::wire::lemma_encoding_len(auth);
        lemma_unsealable(client.key_suite(), gate_public, auth.encoding());
    }
}

/// A knock with one to eight ports fails only where signing it did, or agreeing on a
/// secret, or the cipher.
pub proof fn law_seal_fails_only_with_its_steps(
    suite: Suite,
    pkcs8: &[u8],
    client: ClientKey,
    gate_public: &[u8],
    gate_id: [u8; GATE_ID_LEN],
    ports: &[u16],
    nonce: [u8; NONCE_LEN],
    timestamp_nanos: u64,
    e: CryptoError,
)
    requires
        call_ensures(ClientKey::from_pkcs8, (suite, pkcs8), Ok::<ClientKey, CryptoError>(client)),
        call_ensures(
            ClientKey::seal,
            (&client, gate_public, gate_id, ports, nonce, timestamp_nanos),
            Err::<Vec<u8>, CryptoError>(e),
        ),
        1 <= ports@.len() <= 8,
    ensures
        e == CryptoError::Sign || e == CryptoError::Crypto,
        e == CryptoError::Sign ==> unsignable(suite, pkcs8@, 74 + 2 * ports@.len()),
        e == CryptoError::Crypto ==> unsealable(suite, gate_public@, 138 + 2 * ports@.len()),
{
    let request = KnockRequest { gate_id, ports, nonce, timestamp_nanos };
    lemma_knock_failed(client, gate_public@, request, e);
}

/// A client's knock with one to eight ports fails only where drawing its nonce did, or
/// the clock, or one of the steps of sealing it.
pub proof fn law_knock_fails_only_with_its_steps(
    suite: Suite,
    gate_key: Vec<u8>,
    gate_id: [u8; GATE_ID_LEN],
    pkcs8: &[u8],
    knocker: Knocker,
    ports: &[u16],
    e: Error,
)
    requires
        call_ensures(
            Knocker::new,
            (suite, gate_key, gate_id, pkcs8),
            Ok::<Knocker, Error>(knocker),
        ),
        call_ensures(Knocker::seal, (&knocker, ports), Err::<Vec<u8>, Error>(e)),
        1 <= ports@.len() <= 8,
    ensures
        match e@ {
            ErrorView::Format(words) => words == "rng failed"@ && primitives::draw_failed(16)
                || words == "system clock before epoch"@ && crate::adapters::wall_clock_told(None),
            ErrorView::Crypto(CryptoError::Sign) => unsignable(
                suite,
                pkcs8@,
                74 + 2 * ports@.len(),
            ),
            ErrorView::Crypto(CryptoError::Crypto) => unsealable(
                suite,
                gate_key@,
                138 + 2 * ports@.len(),
            ),
            _ => false,
        },
{
    if e@ is Crypto {
        let fresh = choose|fresh: Freshness|
            fresh.genuine() && #[trigger] knocker.knock_failed(ports, fresh, e@->Crypto_0);
        let request = KnockRequest {
            gate_id: knocker.gate(),
            ports,
            nonce: fresh.nonce,
            timestamp_nanos: fresh.timestamp_nanos,
        };
        lemma_knock_failed(knocker.key(), gate_key@, request, e@->Crypto_0);
    }
}

/// A token's knock with one to eight ports fails only where drawing its nonce did, or
/// the clock, or one of the steps of sealing it.
pub proof fn law_token_knock_fails_only_with_its_steps(
    suite: Suite,
    gate_key: Vec<u8>,
    gate_id: [u8; GATE_ID_LEN],
    token_id: [u8; THUMBPRINT_LEN],
    secret: Vec<u8>,
    enroller: Enroller,
    ports: &[u16],
    e: Error,
)
    requires
        call_ensures(Enroller::new, (suite, gate_key, gate_id, token_id, secret), enroller),
        call_ensures(Enroller::seal, (&enroller, ports), Err::<Vec<u8>, Error>(e)),
        1 <= ports@.len() <= 8,
    ensures
        match e@ {
            ErrorView::Format(words) => words == "rng failed"@ && primitives::draw_failed(16)
                || words == "system clock before epoch"@ && crate::adapters::wall_clock_told(None),
            ErrorView::Crypto(CryptoError::Crypto) => exists|n: nat| #[trigger]
                unsealable(suite, gate_key@, n),
            _ => false,
        },
{
    if e@ is Crypto {
        let fresh = choose|fresh: Freshness|
            fresh.genuine() && #[trigger] enroller.knock_failed(ports, fresh);
        let request = KnockRequest {
            gate_id: enroller.gate(),
            ports,
            nonce: fresh.nonce,
            timestamp_nanos: fresh.timestamp_nanos,
        };
        let auth = request.signed(
            token_id@,
            primitives::hmac_sha512(secret@, request.region(token_id@)),
        );
        lemma_unsealable(suite, gate_key@, auth.encoding());
    }
}

/// A key cannot be generated only where its generator failed.
pub proof fn law_generating_fails_only_with_its_generator(
    suite: Suite,
    client: Result<ClientKey, CryptoError>,
    gate: Result<GateKeypair, CryptoError>,
    raw: Result<(GateKeypair, Vec<u8>), CryptoError>,
    material: Result<KeyMaterial, Error>,
    token: Result<TokenMaterial, Error>,
)
    requires
        call_ensures(ClientKey::generate, (suite,), client),
        call_ensures(GateKeypair::generate, (suite,), gate),
        call_ensures(GateKeypair::generate_raw, (suite,), raw),
        call_ensures(KeyMaterial::generate, (suite,), material),
        call_ensures(TokenMaterial::generate, (), token),
    ensures
        ({
            let agreement = if suite == Suite::Fips {
                primitives::p256_draw_failed()
            } else {
                primitives::x25519_draw_failed()
            };
            let signing = if suite == Suite::Fips {
                primitives::ecdsa_p256_draw_failed()
            } else {
                primitives::ed25519_draw_failed()
            };
            &&& client is Err ==> client->Err_0 == CryptoError::Key && signing
            &&& gate is Err ==> gate->Err_0 == CryptoError::Key && agreement
            &&& raw is Err ==> raw->Err_0 == CryptoError::Key && agreement
            &&& material matches Err(e) ==> {
                ||| e@ == ErrorView::Crypto(CryptoError::Key) && (agreement || signing)
                ||| e@ == ErrorView::Format("rng failed"@) && primitives::draw_failed(16)
            }
            &&& token matches Err(e) ==> e@ == ErrorView::Format("rng failed"@)
                && primitives::draw_failed(32)
        }),
{
}

/// A message, a bundle's payload among them, is left unsigned only where signing it
/// failed.
pub proof fn law_signing_fails_only_with_the_signer(
    suite: Suite,
    pkcs8: &[u8],
    key: ClientKey,
    message: &[u8],
    r: Result<Vec<u8>, CryptoError>,
    bundle: Result<Vec<u8>, CryptoError>,
)
    requires
        call_ensures(ClientKey::from_pkcs8, (suite, pkcs8), Ok::<ClientKey, CryptoError>(key)),
        call_ensures(ClientKey::sign_detached, (&key, message), r),
        call_ensures(sign_bundle, (&key, message), bundle),
    ensures
        r is Err ==> r->Err_0 == CryptoError::Sign && refused(suite, pkcs8@, message@),
        bundle is Err ==> bundle->Err_0 == CryptoError::Sign && refused(suite, pkcs8@, message@),
{
}

/// A knock that a client seals now opens at its gate: it asks for those ports, its
/// nonce was drawn at random, and its time is what the system's clock told.
pub proof fn law_knock_is_fresh(
    knocker: &Knocker,
    ports: &[u16],
    packet: Vec<u8>,
    gate: &GateKeypair,
    received: &[u8],
    r: Result<Opened, OpenError>,
)
    requires
        call_ensures(Knocker::seal, (knocker, ports), Ok::<Vec<u8>, Error>(packet)),
        gate.matched(),
        gate.gate_suite() == knocker.key().key_suite(),
        gate.gate_public() == knocker.gate_public(),
        received@ == packet@,
        call_ensures(<GateKeypair as Crypto>::open, (gate, received), r),
    ensures
        r is Ok,
        r->Ok_0.auth.gate_id@ == knocker.gate()@,
        r->Ok_0.auth.ports@ == ports@,
        r->Ok_0.auth.key_thumbprint@ == knocker.key().key_thumbprint(),
        primitives::drawn(16, r->Ok_0.auth.nonce@),
        exists|nanos: u128| #[trigger]
            crate::adapters::wall_clock_told(Some(nanos)) && r->Ok_0.auth.timestamp_nanos == nanos
                % 0x1_0000_0000_0000_0000,
        valid(
            knocker.key().key_suite(),
            knocker.key().key_public(),
            r->Ok_0.signing_bytes@,
            r->Ok_0.auth.signature@,
        ),
{
    let fresh = choose|fresh: Freshness|
        fresh.genuine() && #[trigger] knocker.knocks_with(ports, fresh, packet@);
    let request = KnockRequest {
        gate_id: knocker.gate(),
        ports,
        nonce: fresh.nonce,
        timestamp_nanos: fresh.timestamp_nanos,
    };
    lemma_knock_opens(knocker.key(), *gate, request, packet@, r, received@);
}

/// A knock that is sealed with a given nonce and time carries them.
pub proof fn law_knock_carries_its_freshness(
    knocker: &Knocker,
    ports: &[u16],
    fresh: &Freshness,
    packet: Vec<u8>,
    gate: &GateKeypair,
    received: &[u8],
    r: Result<Opened, OpenError>,
)
    requires
        call_ensures(Knocker::seal_with, (knocker, ports, fresh), Ok::<Vec<u8>, Error>(packet)),
        gate.matched(),
        gate.gate_suite() == knocker.key().key_suite(),
        gate.gate_public() == knocker.gate_public(),
        received@ == packet@,
        call_ensures(<GateKeypair as Crypto>::open, (gate, received), r),
    ensures
        r is Ok,
        says(
            r->Ok_0,
            knocker.gate()@,
            ports@,
            fresh.nonce@,
            fresh.timestamp_nanos,
            knocker.key().key_thumbprint(),
        ),
{
    let request = KnockRequest {
        gate_id: knocker.gate(),
        ports,
        nonce: fresh.nonce,
        timestamp_nanos: fresh.timestamp_nanos,
    };
    lemma_knock_opens(knocker.key(), *gate, request, packet@, r, received@);
}

proof fn lemma_token_knock_opens(
    gate: GateKeypair,
    suite: Suite,
    token_id: Seq<u8>,
    secret: Seq<u8>,
    request: KnockRequest,
    packet: Seq<u8>,
    r: Result<Opened, OpenError>,
)
    requires
        crate::envelope::carries(
            suite,
            gate.gate_public(),
            packet,
            request.signed(token_id, primitives::hmac_sha512(secret, request.region(token_id))),
        ),
        gate.matched(),
        gate.gate_suite() == suite,
        match r {
            Ok(opened) => gate.opening(packet) == Some(opened@),
            Err(_) => gate.opening(packet) is None,
        },
    ensures
        r is Ok,
        says(
            r->Ok_0,
            request.gate_id@,
            request.ports@,
            request.nonce@,
            request.timestamp_nanos,
            token_id,
        ),
        r->Ok_0.auth.signature@ == primitives::hmac_sha512(secret, r->Ok_0.signing_bytes@),
{
    let auth = request.signed(
        token_id,
        primitives::hmac_sha512(secret, request.region(token_id)),
    );
    assert(crate::envelope::envelope_opened(gate.gate_suite(), gate.gate_private(), packet) == Some(
        crate::gatekeeper::OpenedView { auth, signing_bytes: auth.signing_region() },
    ));
    assert(auth.signing_region() == request.region(token_id));
}

/// A token's knock that is sealed with a given nonce and time carries them.
pub proof fn law_token_knock_carries_its_freshness(
    enroller: &Enroller,
    ports: &[u16],
    fresh: &Freshness,
    packet: Vec<u8>,
    gate: &GateKeypair,
    received: &[u8],
    r: Result<Opened, OpenError>,
)
    requires
        call_ensures(Enroller::seal_with, (enroller, ports, fresh), Ok::<Vec<u8>, Error>(packet)),
        gate.matched(),
        gate.gate_suite() == enroller.material().suite,
        gate.gate_public() == enroller.material().gate_public,
        received@ == packet@,
        call_ensures(<GateKeypair as Crypto>::open, (gate, received), r),
    ensures
        r is Ok,
        says(
            r->Ok_0,
            enroller.material().gate_id,
            ports@,
            fresh.nonce@,
            fresh.timestamp_nanos,
            enroller.material().token_id,
        ),
        r->Ok_0.auth.signature@ == primitives::hmac_sha512(
            enroller.material().secret,
            r->Ok_0.signing_bytes@,
        ),
{
    enroller.lemma_gate_is_material();
    let request = KnockRequest {
        gate_id: enroller.gate(),
        ports,
        nonce: fresh.nonce,
        timestamp_nanos: fresh.timestamp_nanos,
    };
    lemma_token_knock_opens(
        *gate,
        enroller.material().suite,
        enroller.material().token_id,
        enroller.material().secret,
        request,
        packet@,
        r,
    );
}

/// A knock that is sealed with a token opens at its gate, to what it was sealed for,
/// authenticated by the token's secret.
pub proof fn law_token_knock_opens(
    gate_public: &[u8],
    suite: Suite,
    secret: &[u8],
    token_id: [u8; THUMBPRINT_LEN],
    request: &KnockRequest,
    packet: Vec<u8>,
    gate: &GateKeypair,
    received: &[u8],
    r: Result<Opened, OpenError>,
)
    requires
        call_ensures(
            seal_psk,
            (gate_public, suite, secret, token_id, request),
            Ok::<Vec<u8>, CryptoError>(packet),
        ),
        gate.matched(),
        gate.gate_suite() == suite,
        gate.gate_public() == gate_public@,
        received@ == packet@,
        call_ensures(<GateKeypair as Crypto>::open, (gate, received), r),
    ensures
        r is Ok,
        says(
            r->Ok_0,
            request.gate_id@,
            request.ports@,
            request.nonce@,
            request.timestamp_nanos,
            token_id@,
        ),
        r->Ok_0.auth.signature@ == primitives::hmac_sha512(secret@, r->Ok_0.signing_bytes@),
{
    lemma_token_knock_opens(*gate, suite, token_id@, secret@, *request, packet@, r);
}

/// A knock that is sealed now with a token opens at its gate: it asks for those
/// ports, its nonce was drawn at random, and its time is what the system's clock
/// told.
pub proof fn law_token_knock_is_fresh(
    enroller: &Enroller,
    ports: &[u16],
    packet: Vec<u8>,
    gate: &GateKeypair,
    received: &[u8],
    r: Result<Opened, OpenError>,
)
    requires
        call_ensures(Enroller::seal, (enroller, ports), Ok::<Vec<u8>, Error>(packet)),
        gate.matched(),
        gate.gate_suite() == enroller.material().suite,
        gate.gate_public() == enroller.material().gate_public,
        received@ == packet@,
        call_ensures(<GateKeypair as Crypto>::open, (gate, received), r),
    ensures
        r is Ok,
        r->Ok_0.auth.gate_id@ == enroller.gate()@,
        r->Ok_0.auth.ports@ == ports@,
        r->Ok_0.auth.key_thumbprint@ == enroller.material().token_id,
        primitives::drawn(16, r->Ok_0.auth.nonce@),
        exists|nanos: u128| #[trigger]
            crate::adapters::wall_clock_told(Some(nanos)) && r->Ok_0.auth.timestamp_nanos == nanos
                % 0x1_0000_0000_0000_0000,
        r->Ok_0.auth.signature@ == primitives::hmac_sha512(
            enroller.material().secret,
            r->Ok_0.signing_bytes@,
        ),
{
    let fresh = choose|fresh: Freshness|
        fresh.genuine() && #[trigger] enroller.knocks_with(ports, fresh, packet@);
    let request = KnockRequest {
        gate_id: enroller.gate(),
        ports,
        nonce: fresh.nonce,
        timestamp_nanos: fresh.timestamp_nanos,
    };
    lemma_token_knock_opens(
        *gate,
        enroller.material().suite,
        enroller.material().token_id,
        enroller.material().secret,
        request,
        packet@,
        r,
    );
}

/// The clock of a gate tells what the system's clock told.
pub proof fn law_system_clock(clock: &SystemClock, now: u64)
    requires
        call_ensures(<SystemClock as Clock>::now_unix_nanos, (clock,), now),
    ensures
        exists|nanos: Option<u128>| #[trigger]
            crate::adapters::wall_clock_told(nanos) && now == match nanos {
                Some(nanos) => nanos % 0x1_0000_0000_0000_0000,
                None => 0,
            },
{
}

/// What is generated was drawn: both keys, a gate's id, and a token's id and secret,
/// each of the two by a draw of its own.
pub proof fn law_generated_material_is_drawn(
    suite: Suite,
    material: KeyMaterial,
    token: TokenMaterial,
)
    requires
        call_ensures(KeyMaterial::generate, (suite,), Ok::<KeyMaterial, Error>(material)),
        call_ensures(TokenMaterial::generate, (), Ok::<TokenMaterial, Error>(token)),
    ensures
        material.suite == suite,
        suite == Suite::Fips ==> primitives::p256_drawn(material.gate_private@)
            && primitives::ecdsa_p256_drawn(material.client.key_pkcs8()),
        suite == Suite::Modern ==> primitives::x25519_drawn(material.gate_private@)
            && primitives::ed25519_drawn(material.client.key_pkcs8()),
        material.gate.gate_private() == material.gate_private@,
        primitives::drawn(16, material.gate_id@),
        primitives::drawn(32, token.token_id@),
        primitives::drawn(32, token.secret@),
        token.drawn_apart(),
{
}

/// A bundle is a signature of 64 bytes and the payload behind it; it is read exactly
/// if the signature is the anchor's over the payload, and the payload is text.
pub proof fn law_load_verify(data: &[u8], anchor: &[u8], r: Result<String, BundleError>)
    requires
        call_ensures(load_verify, (data, anchor), r),
    ensures
        data@.len() < 64 ==> r is Err && r->Err_0 is TooShort,
        data@.len() >= 64 ==> {
            let body = data@.skip(64);
            if !primitives::ed25519_valid(anchor@, body, data@.take(64)) {
                r is Err && r->Err_0 is BadSignature
            } else if vstd::utf8::valid_utf8(body) {
                r is Ok && r->Ok_0@ == vstd::utf8::decode_utf8(body)
            } else {
                r is Err && r->Err_0 is NotText
            }
        },
{
    if data@.len() >= 64 {
        assert(data@.skip(64) =~= data@.subrange(64, data@.len() as int));
        assert(data@.take(64) =~= data@.subrange(0, 64));
    }
}

/// A bundle that an anchor signs is read under that anchor's public key, as the text
/// that was signed.
pub proof fn law_signed_bundle_is_read(
    anchor: &ClientKey,
    body: &[u8],
    data: Vec<u8>,
    file: &[u8],
    public: &[u8],
    r: Result<String, BundleError>,
)
    requires
        call_ensures(sign_bundle, (anchor, body), Ok::<Vec<u8>, CryptoError>(data)),
        anchor.key_suite() == Suite::Modern,
        public@ == anchor.key_public(),
        file@ == data@,
        vstd::utf8::valid_utf8(body@),
        call_ensures(load_verify, (file, public), r),
    ensures
        r is Ok,
        r->Ok_0@ == vstd::utf8::decode_utf8(body@),
        data@.len() == 64 + body@.len(),
        data@.skip(64) == body@,
{
    law_load_verify(file, public, r);
    assert(data@.skip(64) =~= data@.subrange(64, data@.len() as int));
    assert(data@.take(64) =~= data@.subrange(0, 64));
}

} // verus!
