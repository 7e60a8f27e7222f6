//! The sealed envelope around a knock.
//!
//! Wire layout:
//! ```text
//! version(1) | suite(1) | ephemeral_pubkey(N) | AEAD ciphertext+tag
//! ```
//! The client signs the [`Authorization`] with its identity key, then encrypts
//! the signed plaintext to a gate: ephemeral key agreement, HKDF, AEAD. Only
//! that gate can decrypt; the signature proves which client sent it. The header
//! is authenticated as associated data.

use vstd::prelude::*;

use crate::bytes::{append, to_array, to_vec};
use crate::gatekeeper::{Crypto, OpenError, Opened, OpenedView};
use crate::primitives;
use crate::primitives::Exchange;
use crate::wire::{
    Authorization, AuthorizationView, Suite, SIG_LEN, THUMBPRINT_LEN, VERSION,
};

verus! {

/// AEAD nonce length.
pub const AEAD_NONCE_LEN: usize = 12;

pub const AEAD_KEY_LEN: usize = 32;

pub const AEAD_TAG_LEN: usize = 16;

/// Key and nonce together, as they come out of the key derivation.
pub const KEYS_LEN: usize = 44;

/// Errors from the sealing side. A gate's `open` reports the opaque
/// [`OpenError`]; verification failures surface as `false`.
#[derive(Debug, Clone, Copy, PartialEq, Eq, Structural)]
pub enum CryptoError {
    /// Key generation, parsing or public-key extraction failed.
    Key,
    /// Signing failed.
    Sign,
    /// Encoding the authorization failed.
    Encode,
    /// AEAD, derivation or agreement failed.
    Crypto,
}

/// The domain-separation label bound into the key derivation.
pub open spec fn hkdf_label() -> Seq<u8> {
    vstd::utf8::encode_utf8("spa-v1-envelope"@)
}

/// Length of the ephemeral public key on the wire: an uncompressed P-256 point,
/// or a raw X25519 key.
pub open spec fn eph_len(suite: Suite) -> nat {
    match suite {
        Suite::Fips => 65,
        Suite::Modern => 32,
    }
}

pub fn eph_pub_len(suite: Suite) -> (n: usize)
    ensures
        n == eph_len(suite),
{
    match suite {
        Suite::Fips => 65,
        Suite::Modern => 32,
    }
}

/// How public keys of a suite are written: a 65-byte uncompressed P-256 point,
/// which begins with 4, or 32 raw bytes.
pub open spec fn public_encoded(suite: Suite, public: Seq<u8>) -> bool {
    &&& public.len() == eph_len(suite)
    &&& suite == Suite::Fips ==> public[0] == 0x04
}

/// The public half of a private agreement key.
pub open spec fn agreement_public(suite: Suite, private: Seq<u8>) -> Option<Seq<u8>> {
    match suite {
        Suite::Fips => primitives::p256_public(private),
        Suite::Modern => primitives::x25519_public(private),
    }
}

/// This private agreement key was generated.
pub open spec fn agreement_drawn(suite: Suite, private: Seq<u8>) -> bool {
    match suite {
        Suite::Fips => primitives::p256_drawn(private),
        Suite::Modern => primitives::x25519_drawn(private),
    }
}

/// This signing key was generated.
pub open spec fn signing_drawn(suite: Suite, pkcs8: Seq<u8>) -> bool {
    match suite {
        Suite::Fips => primitives::ecdsa_p256_drawn(pkcs8),
        Suite::Modern => primitives::ed25519_drawn(pkcs8),
    }
}

/// Generating a private agreement key failed.
pub open spec fn agreement_draw_failed(suite: Suite) -> bool {
    match suite {
        Suite::Fips => primitives::p256_draw_failed(),
        Suite::Modern => primitives::x25519_draw_failed(),
    }
}

/// Generating a signing key failed.
pub open spec fn signing_draw_failed(suite: Suite) -> bool {
    match suite {
        Suite::Fips => primitives::ecdsa_p256_draw_failed(),
        Suite::Modern => primitives::ed25519_draw_failed(),
    }
}

/// Signing a message failed.
pub open spec fn signing_failed(suite: Suite, pkcs8: Seq<u8>, message: Seq<u8>) -> bool {
    match suite {
        Suite::Fips => primitives::ecdsa_p256_sign_failed(pkcs8, message),
        Suite::Modern => primitives::ed25519_signature(pkcs8, message) is None,
    }
}

/// An exchange with a peer gave a public key and a secret.
pub open spec fn exchanged(suite: Suite, peer: Seq<u8>, public: Seq<u8>, secret: Seq<u8>) -> bool {
    match suite {
        Suite::Fips => primitives::p256_exchanged(peer, public, secret),
        Suite::Modern => primitives::x25519_exchanged(peer, public, secret),
    }
}

/// An exchange with a peer failed.
pub open spec fn exchange_failed(suite: Suite, peer: Seq<u8>) -> bool {
    match suite {
        Suite::Fips => primitives::p256_exchange_failed(peer),
        Suite::Modern => primitives::x25519_exchange_failed(peer),
    }
}

/// Sealing a plaintext to a gate with this public key failed: no secret was agreed
/// on, or under the one that was the suite's cipher seals nothing.
pub open spec fn sealing_failed(suite: Suite, gate_public: Seq<u8>, plaintext: Seq<u8>) -> bool {
    ||| exchange_failed(suite, gate_public)
    ||| exists|public: Seq<u8>, secret: Seq<u8>| #[trigger]
        exchanged(suite, gate_public, public, secret) && envelope_sealed(
            suite,
            public,
            secret,
            plaintext,
        ) is None
}

/// The secret shared between a private agreement key and a peer's public one.
pub open spec fn agreement_secret(suite: Suite, private: Seq<u8>, peer: Seq<u8>) -> Option<
    Seq<u8>,
> {
    match suite {
        Suite::Fips => primitives::p256_secret(private, peer),
        Suite::Modern => primitives::x25519_secret(private, peer),
    }
}

/// Whether a peer's public key can be agreed with: it has a form that the suite
/// knows, and some private key shares a secret with it.
pub open spec fn peer_accepted(suite: Suite, peer: Seq<u8>) -> bool {
    &&& match suite {
        Suite::Fips => primitives::p256_formed(peer),
        Suite::Modern => primitives::x25519_formed(peer),
    }
    &&& exists|private: Seq<u8>| (#[trigger] agreement_secret(suite, private, peer)) is Some
}

/// The public half of a signing key.
pub open spec fn signing_public(suite: Suite, pkcs8: Seq<u8>) -> Option<Seq<u8>> {
    match suite {
        Suite::Fips => primitives::ecdsa_p256_public(pkcs8),
        Suite::Modern => primitives::ed25519_public(pkcs8),
    }
}

/// Whether a signature is valid.
pub open spec fn signature_holds(
    suite: Suite,
    public_key: Seq<u8>,
    message: Seq<u8>,
    signature: Seq<u8>,
) -> bool {
    match suite {
        Suite::Fips => primitives::ecdsa_p256_valid(public_key, message, signature),
        Suite::Modern => primitives::ed25519_valid(public_key, message, signature),
    }
}

/// What the suite's cipher opens a ciphertext to.
pub open spec fn aead_opened(
    suite: Suite,
    key: Seq<u8>,
    nonce: Seq<u8>,
    aad: Seq<u8>,
    sealed: Seq<u8>,
) -> Option<Seq<u8>> {
    match suite {
        Suite::Fips => primitives::aes_256_gcm_opened(key, nonce, aad, sealed),
        Suite::Modern => primitives::chacha20_poly1305_opened(key, nonce, aad, sealed),
    }
}

/// What the suite's cipher seals a plaintext to.
pub open spec fn aead_sealed(
    suite: Suite,
    key: Seq<u8>,
    nonce: Seq<u8>,
    aad: Seq<u8>,
    plaintext: Seq<u8>,
) -> Option<Seq<u8>> {
    match suite {
        Suite::Fips => primitives::aes_256_gcm_sealed(key, nonce, aad, plaintext),
        Suite::Modern => primitives::chacha20_poly1305_sealed(key, nonce, aad, plaintext),
    }
}

/// What the derivation is bound to: label, suite and ephemeral public key.
pub open spec fn kdf_context(suite: Suite, eph_pub: Seq<u8>) -> Seq<u8> {
    hkdf_label() + seq![suite.byte()] + eph_pub
}

/// The AEAD key and nonce for a shared secret.
pub open spec fn derived(suite: Suite, shared: Seq<u8>, eph_pub: Seq<u8>) -> Option<
    (Seq<u8>, Seq<u8>),
> {
    match primitives::hkdf_sha256(shared, kdf_context(suite, eph_pub), KEYS_LEN) {
        Some(okm) => Some(
            (okm.subrange(0, AEAD_KEY_LEN as int), okm.subrange(AEAD_KEY_LEN as int, KEYS_LEN as int)),
        ),
        None => None,
    }
}

/// The cleartext in front of the ciphertext.
pub open spec fn header(suite: Suite, eph_pub: Seq<u8>) -> Seq<u8> {
    seq![VERSION, suite.byte()] + eph_pub
}

/// The parts of a packet: header, ephemeral public key and ciphertext.
#[verifier::ext_equal]
pub struct PartsView {
    pub header: Seq<u8>,
    pub eph_pub: Seq<u8>,
    pub sealed: Seq<u8>,
}

/// The parts of a packet for a gate of this suite, or `None` if it is of
/// another version or suite, or too short to hold them and a tag.
pub open spec fn parted(suite: Suite, packet: Seq<u8>) -> Option<PartsView> {
    let end = 2 + eph_len(suite);
    if packet.len() < end + AEAD_TAG_LEN || packet[0] != VERSION || packet[1] != suite.byte() {
        None
    } else {
        Some(
            PartsView {
                header: packet.subrange(0, end as int),
                eph_pub: packet.subrange(2, end as int),
                sealed: packet.subrange(end as int, packet.len() as int),
            },
        )
    }
}

/// What a decrypted plaintext opens to.
pub open spec fn plaintext_opened(plaintext: Seq<u8>) -> Option<OpenedView> {
    match crate::wire::decoded(plaintext) {
        Ok(auth) => Some(
            OpenedView {
                auth,
                signing_bytes: plaintext.subrange(0, plaintext.len() - SIG_LEN),
            },
        ),
        Err(_) => None,
    }
}

/// What the parts of a packet decrypt to, given the shared secret.
pub open spec fn decrypted(suite: Suite, shared: Seq<u8>, parts: PartsView) -> Option<Seq<u8>> {
    match derived(suite, shared, parts.eph_pub) {
        Some((key, nonce)) => aead_opened(suite, key, nonce, parts.header, parts.sealed),
        None => None,
    }
}

/// The AEAD key and nonce that a gate derives for a packet.
pub open spec fn packet_keys(suite: Suite, private: Seq<u8>, packet: Seq<u8>) -> Option<
    (Seq<u8>, Seq<u8>),
> {
    match parted(suite, packet) {
        None => None,
        Some(parts) => match agreement_secret(suite, private, parts.eph_pub) {
            None => None,
            Some(shared) => derived(suite, shared, parts.eph_pub),
        },
    }
}

/// What a packet opens to under a gate's private key.
pub open spec fn envelope_opened(suite: Suite, private: Seq<u8>, packet: Seq<u8>) -> Option<
    OpenedView,
> {
    match parted(suite, packet) {
        None => None,
        Some(parts) => match agreement_secret(suite, private, parts.eph_pub) {
            None => None,
            Some(shared) => match decrypted(suite, shared, parts) {
                None => None,
                Some(plaintext) => plaintext_opened(plaintext),
            },
        },
    }
}

/// The packet that carries `plaintext` under an ephemeral key and the secret
/// that it shares with a gate.
pub open spec fn envelope_sealed(
    suite: Suite,
    eph_pub: Seq<u8>,
    shared: Seq<u8>,
    plaintext: Seq<u8>,
) -> Option<Seq<u8>> {
    match derived(suite, shared, eph_pub) {
        None => None,
        Some((key, nonce)) => match aead_sealed(suite, key, nonce, header(suite, eph_pub), plaintext) {
            None => None,
            Some(sealed) => Some(header(suite, eph_pub) + sealed),
        },
    }
}

/// `other` is what is left of a packet that was cut short, or that packet with
/// another tag.
pub open spec fn damaged(packet: Seq<u8>, other: Seq<u8>) -> bool {
    ||| other.len() < packet.len() && other == packet.take(other.len() as int)
    ||| primitives::other_tag(packet, other)
}

/// `packet` is a knock that says `auth`, sealed to a gate with this public key:
/// that key can be agreed with, the packet has the layout of its suite, whoever
/// holds the private half opens it to exactly that, and nobody who does opens it
/// once it is damaged.
pub open spec fn carries(
    suite: Suite,
    gate_public: Seq<u8>,
    packet: Seq<u8>,
    auth: AuthorizationView,
) -> bool {
    &&& packet.len() == 2 + eph_len(suite) + auth.encoding().len() + AEAD_TAG_LEN
    &&& peer_accepted(suite, gate_public)
    &&& parted(suite, packet) is Some
    &&& forall|private: Seq<u8>, other: Seq<u8>|
        agreement_public(suite, private) == Some(gate_public) && damaged(packet, other) ==> (
        #[trigger] envelope_opened(suite, private, other)) is None
    &&& forall|private: Seq<u8>|
        agreement_public(suite, private) == Some(gate_public) ==> #[trigger] envelope_opened(
            suite,
            private,
            packet,
        ) == Some(OpenedView { auth, signing_bytes: auth.signing_region() })
}

/// Derive the AEAD key and nonce from the shared secret, binding the suite and
/// the ephemeral public key into the context.
fn derive(suite: Suite, shared: &[u8], eph_pub: &[u8]) -> (r: Option<
    ([u8; AEAD_KEY_LEN], [u8; AEAD_NONCE_LEN]),
>)
    ensures
        match r {
            Some((key, nonce)) => derived(suite, shared@, eph_pub@) == Some((key@, nonce@)),
            None => derived(suite, shared@, eph_pub@) is None,
        },
{
    let mut info: Vec<u8> = to_vec("spa-v1-envelope".as_bytes());
    info.push(suite.to_byte());
    append(&mut info, eph_pub);
    assert(info@ =~= kdf_context(suite, eph_pub@));
    match primitives::hkdf_sha256_expand(shared, info.as_slice(), KEYS_LEN) {
        Some(okm) => {
            let key = to_array::<AEAD_KEY_LEN>(
                vstd::slice::slice_subrange(okm.as_slice(), 0, AEAD_KEY_LEN),
            );
            let nonce = to_array::<AEAD_NONCE_LEN>(
                vstd::slice::slice_subrange(okm.as_slice(), AEAD_KEY_LEN, KEYS_LEN),
            );
            Some((key, nonce))
        },
        None => None,
    }
}

fn aead_seal(
    suite: Suite,
    key: &[u8; AEAD_KEY_LEN],
    nonce: [u8; AEAD_NONCE_LEN],
    aad: &[u8],
    plaintext: &[u8],
) -> (r: Option<Vec<u8>>)
    ensures
        primitives::contents(r) == aead_sealed(suite, key@, nonce@, aad@, plaintext@),
        r is Some ==> r->0@.len() == plaintext@.len() + AEAD_TAG_LEN,
        r is Some ==> aead_opened(suite, key@, nonce@, aad@, r->0@) == Some(plaintext@),
        r is Some ==> forall|other: Seq<u8>|
            primitives::other_tag(r->0@, other) ==> (#[trigger] aead_opened(
                suite,
                key@,
                nonce@,
                aad@,
                other,
            )) is None,
        r is Some ==> forall|n: int|
            AEAD_TAG_LEN <= n < r->0@.len() ==> match #[trigger] aead_opened(
                suite,
                key@,
                nonce@,
                aad@,
                r->0@.take(n),
            ) {
                Some(part) => part == plaintext@.take(n - AEAD_TAG_LEN),
                None => true,
            },
{
    match suite {
        Suite::Fips => primitives::aes_256_gcm_seal(key.as_slice(), nonce, aad, plaintext),
        Suite::Modern => primitives::chacha20_poly1305_seal(key.as_slice(), nonce, aad, plaintext),
    }
}

fn aead_open(
    suite: Suite,
    key: &[u8; AEAD_KEY_LEN],
    nonce: [u8; AEAD_NONCE_LEN],
    aad: &[u8],
    ciphertext: &[u8],
) -> (r: Option<Vec<u8>>)
    ensures
        primitives::contents(r) == aead_opened(suite, key@, nonce@, aad@, ciphertext@),
{
    match suite {
        Suite::Fips => primitives::aes_256_gcm_open(key.as_slice(), nonce, aad, ciphertext),
        Suite::Modern => primitives::chacha20_poly1305_open(key.as_slice(), nonce, aad, ciphertext),
    }
}

/// Stateless signature check.
pub fn verify_signature(suite: Suite, public_key: &[u8], message: &[u8], sig: &[u8]) -> (r: bool)
    ensures
        r == signature_holds(suite, public_key@, message@, sig@),
{
    match suite {
        Suite::Fips => primitives::ecdsa_p256_verify(public_key, message, sig),
        Suite::Modern => primitives::ed25519_verify(public_key, message, sig),
    }
}

/// The key thumbprint: the raw SHA-256 of the public-key bytes.
pub fn thumbprint_of(public_key: &[u8]) -> (out: [u8; THUMBPRINT_LEN])
    ensures
        out@ == primitives::sha256(public_key@),
{
    let d = primitives::digest_sha256(public_key);
    to_array::<THUMBPRINT_LEN>(d.as_slice())
}

/// The parts of a received packet.
pub struct Parts<'a> {
    pub header: &'a [u8],
    pub eph_pub: &'a [u8],
    pub sealed: &'a [u8],
}

impl<'a> View for Parts<'a> {
    type V = PartsView;

    open spec fn view(&self) -> PartsView {
        PartsView { header: self.header@, eph_pub: self.eph_pub@, sealed: self.sealed@ }
    }
}

/// Take a received packet apart.
pub fn split_packet<'a>(suite: Suite, packet: &'a [u8]) -> (r: Option<Parts<'a>>)
    ensures
        match r {
            Some(parts) => parted(suite, packet@) == Some(parts@),
            None => parted(suite, packet@) is None,
        },
{
    let end: usize = 2 + eph_pub_len(suite);
    if packet.len() < end + AEAD_TAG_LEN {
        return None;
    }
    if packet[0] != VERSION || packet[1] != suite.to_byte() {
        return None;
    }
    Some(
        Parts {
            header: vstd::slice::slice_subrange(packet, 0, end),
            eph_pub: vstd::slice::slice_subrange(packet, 2, end),
            sealed: vstd::slice::slice_subrange(packet, end, packet.len()),
        },
    )
}

/// Decode a decrypted plaintext, and set aside the bytes that its signature
/// covers.
pub fn read_plaintext(plaintext: &[u8]) -> (r: Result<Opened, OpenError>)
    ensures
        match r {
            Ok(opened) => plaintext_opened(plaintext@) == Some(opened@),
            Err(_) => plaintext_opened(plaintext@) is None,
        },
{
    match Authorization::decode(plaintext) {
        Ok(auth) => {
            proof {
                crate::wire::law_encode_inverts_decode(plaintext@);
                assert(auth@.encoding().len() >= SIG_LEN);
            }
            let region = vstd::slice::slice_subrange(plaintext, 0, plaintext.len() - SIG_LEN);
            Ok(Opened { auth, signing_bytes: to_vec(region) })
        },
        Err(_) => Err(OpenError),
    }
}

/// Decrypt the parts of a packet under the secret that they were sealed with.
pub fn decrypt(suite: Suite, shared: &[u8], parts: &Parts) -> (r: Option<Vec<u8>>)
    ensures
        primitives::contents(r) == decrypted(suite, shared@, parts@),
{
    match derive(suite, shared, parts.eph_pub) {
        Some((key, nonce)) => aead_open(suite, &key, nonce, parts.header, parts.sealed),
        None => None,
    }
}

/// The parts of a damaged packet: header and ephemeral key are what they were, and
/// the ciphertext is cut short or has another tag.
proof fn lemma_damaged_parts(
    suite: Suite,
    eph_pub: Seq<u8>,
    sealed: Seq<u8>,
    packet: Seq<u8>,
    other: Seq<u8>,
)
    requires
        packet == header(suite, eph_pub) + sealed,
        eph_pub.len() == eph_len(suite),
        sealed.len() >= AEAD_TAG_LEN,
        damaged(packet, other),
    ensures
        match parted(suite, other) {
            Some(parts) => {
                &&& parts.header == header(suite, eph_pub)
                &&& parts.eph_pub == eph_pub
                &&& if other.len() < packet.len() {
                    &&& AEAD_TAG_LEN <= parts.sealed.len() < sealed.len()
                    &&& parts.sealed == sealed.take(parts.sealed.len() as int)
                } else {
                    primitives::other_tag(sealed, parts.sealed)
                }
            },
            None => true,
        },
{
    if let Some(parts) = parted(suite, other) {
        let end = (2 + eph_len(suite)) as int;
        if other.len() < packet.len() {
            assert forall|i: int| 0 <= i < other.len() implies #[trigger] other[i] == packet[i] by {
                assert(packet.take(other.len() as int)[i] == packet[i]);
            }
            assert(parts.sealed =~= sealed.take(parts.sealed.len() as int));
        } else {
            let cut = packet.len() - 16;
            assert forall|i: int| 0 <= i < cut implies #[trigger] other[i] == packet[i] by {
                assert(packet.take(cut)[i] == other.take(cut)[i]);
            }
            assert(sealed.take(sealed.len() - 16) =~= parts.sealed.take(sealed.len() - 16));
            if sealed == parts.sealed {
                assert forall|i: int| 0 <= i < packet.len() implies #[trigger] packet[i]
                    == other[i] by {
                    if i >= end {
                        assert(sealed[i - end] == parts.sealed[i - end]);
                    }
                }
                assert(packet =~= other);
            }
        }
        assert(parts.header =~= header(suite, eph_pub));
        assert(parts.eph_pub =~= eph_pub);
    }
}

/// Put a packet together: derive the keys, seal the plaintext with the header
/// as associated data, and put the header in front.
pub fn seal_packet(suite: Suite, eph_pub: &[u8], shared: &[u8], plaintext: &[u8]) -> (r: Option<
    Vec<u8>,
>)
    ensures
        primitives::contents(r) == envelope_sealed(suite, eph_pub@, shared@, plaintext@),
        r is Some ==> r->0@.len() == 2 + eph_pub@.len() + plaintext@.len() + AEAD_TAG_LEN,
        r is Some && eph_pub@.len() == eph_len(suite) ==> parted(suite, r->0@) is Some && parted(
            suite,
            r->0@,
        )->0.eph_pub == eph_pub@ && decrypted(suite, shared@, parted(suite, r->0@)->0) == Some(
            plaintext@,
        ),
        r is Some && eph_pub@.len() == eph_len(suite) ==> forall|other: Seq<u8>|
            damaged(r->0@, other) ==> match #[trigger] parted(suite, other) {
                Some(parts) => parts.eph_pub == eph_pub@ && match decrypted(suite, shared@, parts) {
                    Some(part) => part.len() < plaintext@.len() && part == plaintext@.take(
                        part.len() as int,
                    ),
                    None => true,
                },
                None => true,
            },
{
    let mut packet: Vec<u8> = Vec::new();
    packet.push(VERSION);
    packet.push(suite.to_byte());
    append(&mut packet, eph_pub);
    let ghost head = packet@;
    assert(head =~= header(suite, eph_pub@));
    match derive(suite, shared, eph_pub) {
        Some((key, nonce)) => match aead_seal(suite, &key, nonce, packet.as_slice(), plaintext) {
            Some(sealed) => {
                append(&mut packet, sealed.as_slice());
                proof {
                    if eph_pub@.len() == eph_len(suite) {
                        let end = (2 + eph_len(suite)) as int;
                        assert(packet@.subrange(0, end) =~= head);
                        assert(packet@.subrange(2, end) =~= eph_pub@);
                        assert(packet@.subrange(end, packet@.len() as int) =~= sealed@);
                        assert forall|other: Seq<u8>|
                            damaged(packet@, other) implies match #[trigger] parted(suite, other) {
                            Some(parts) => parts.eph_pub == eph_pub@ && match decrypted(
                                suite,
                                shared@,
                                parts,
                            ) {
                                Some(part) => part.len() < plaintext@.len() && part
                                    == plaintext@.take(part.len() as int),
                                None => true,
                            },
                            None => true,
                        } by {
                            lemma_damaged_parts(suite, eph_pub@, sealed@, packet@, other);
                            if let Some(parts) = parted(suite, other) {
                                if other.len() < packet@.len() {
                                    let n = parts.sealed.len() as int;
                                    assert(parts.sealed == sealed@.take(n));
                                    assert(aead_opened(
                                        suite,
                                        key@,
                                        nonce@,
                                        head,
                                        sealed@.take(n),
                                    ) matches Some(part) ==> part == plaintext@.take(
                                        n - AEAD_TAG_LEN,
                                    ));
                                } else {
                                    assert(aead_opened(
                                        suite,
                                        key@,
                                        nonce@,
                                        head,
                                        parts.sealed,
                                    ) is None);
                                }
                            }
                        }
                    }
                }
                Some(packet)
            },
            None => None,
        },
        None => None,
    }
}

/// Agree on a secret with `peer` under a fresh key.
fn exchange(suite: Suite, peer: &[u8]) -> (r: Option<Exchange>)
    ensures
        r is Some ==> peer_accepted(suite, peer@),
        r is Some ==> r->0.public@.len() == eph_len(suite),
        r is Some ==> forall|private: Seq<u8>|
            agreement_public(suite, private) == Some(peer@) ==> #[trigger] agreement_secret(
                suite,
                private,
                r->0.public@,
            ) == Some(r->0.secret@),
        r is Some ==> exchanged(suite, peer@, r->0.public@, r->0.secret@),
        r is None ==> exchange_failed(suite, peer@),
{
    proof {
        primitives::law_failed_is_what_was_returned();
    }
    match suite {
        Suite::Fips => {
            let r = primitives::p256_exchange(peer);
            proof {
                if r is Some {
                    let fresh = choose|private: Seq<u8>|
                        primitives::p256_public(private) == Some(r->0.public@)
                            && #[trigger] primitives::p256_secret(private, peer@) == Some(
                            r->0.secret@,
                        );
                    assert(agreement_secret(suite, fresh, peer@) is Some);
                    assert forall|private: Seq<u8>|
                        agreement_public(suite, private) == Some(
                            peer@,
                        ) implies #[trigger] agreement_secret(suite, private, r->0.public@) == Some(
                        r->0.secret@,
                    ) by {
                        assert(primitives::p256_secret(private, r->0.public@) == Some(
                            r->0.secret@,
                        ));
                    }
                }
            }
            r
        },
        Suite::Modern => {
            let r = primitives::x25519_exchange(peer);
            proof {
                if r is Some {
                    let fresh = choose|private: Seq<u8>|
                        primitives::x25519_public(private) == Some(r->0.public@)
                            && #[trigger] primitives::x25519_secret(private, peer@) == Some(
                            r->0.secret@,
                        );
                    assert(agreement_secret(suite, fresh, peer@) is Some);
                    assert forall|private: Seq<u8>|
                        agreement_public(suite, private) == Some(
                            peer@,
                        ) implies #[trigger] agreement_secret(suite, private, r->0.public@) == Some(
                        r->0.secret@,
                    ) by {
                        assert(primitives::x25519_secret(private, r->0.public@) == Some(
                            r->0.secret@,
                        ));
                    }
                }
            }
            r
        },
    }
}

/// Encrypt a finished authorization to a gate with this public key.
pub(crate) fn seal_authorization(suite: Suite, gate_public: &[u8], auth: &Authorization) -> (r:
    Result<Vec<u8>, CryptoError>)
    ensures
        match r {
            Ok(packet) => auth@.encodable() && carries(suite, gate_public@, packet@, auth@),
            Err(CryptoError::Encode) => !auth@.encodable(),
            Err(e) => auth@.encodable() && e == CryptoError::Crypto && sealing_failed(
                suite,
                gate_public@,
                auth@.encoding(),
            ),
        },
        !peer_accepted(suite, gate_public@) ==> r is Err,
{
    let plaintext = match auth.encode() {
        Ok(plaintext) => plaintext,
        Err(_) => {
            return Err(CryptoError::Encode);
        },
    };
    let agreed = match exchange(suite, gate_public) {
        Some(agreed) => agreed,
        None => {
            return Err(CryptoError::Crypto);
        },
    };
    match seal_packet(
        suite,
        agreed.public.as_slice(),
        agreed.secret.as_slice(),
        plaintext.as_slice(),
    ) {
        Some(packet) => {
            proof {
                crate::wire::law_decode_inverts_encode(auth@);
                assert(plaintext@.subrange(0, plaintext@.len() - SIG_LEN)
                    =~= auth@.signing_region());
                let says = OpenedView { auth: auth@, signing_bytes: auth@.signing_region() };
                assert forall|private: Seq<u8>|
                    agreement_public(suite, private) == Some(
                        gate_public@,
                    ) implies #[trigger] envelope_opened(suite, private, packet@) == Some(says) by {
                    assert(agreement_secret(suite, private, agreed.public@) == Some(
                        agreed.secret@,
                    ));
                }
                assert forall|private: Seq<u8>, other: Seq<u8>|
                    agreement_public(suite, private) == Some(gate_public@) && damaged(
                        packet@,
                        other,
                    ) implies (#[trigger] envelope_opened(suite, private, other)) is None by {
                    assert(agreement_secret(suite, private, agreed.public@) == Some(
                        agreed.secret@,
                    ));
                    if let Some(parts) = parted(suite, other) {
                        if let Some(part) = decrypted(suite, agreed.secret@, parts) {
                            crate::wire::law_truncated_rejected(auth@, part.len() as int);
                        }
                    }
                }
            }
            Ok(packet)
        },
        None => Err(CryptoError::Crypto),
    }
}

/// A gate's static identity key for one suite.
pub struct GateKeypair {
    suite: Suite,
    private: Vec<u8>,
    public: Vec<u8>,
}

impl GateKeypair {
    pub closed spec fn gate_suite(self) -> Suite {
        self.suite
    }

    pub closed spec fn gate_private(self) -> Seq<u8> {
        self.private@
    }

    pub closed spec fn gate_public(self) -> Seq<u8> {
        self.public@
    }

    /// The public key belongs to the private one.
    pub open spec fn matched(self) -> bool {
        agreement_public(self.gate_suite(), self.gate_private()) == Some(self.gate_public())
    }

    /// Generate a fresh gate key for `suite`.
    pub fn generate(suite: Suite) -> (r: Result<Self, CryptoError>)
        ensures
            match r {
                Ok(key) => key.gate_suite() == suite && key.matched() && key.gate_private().len()
                    == 32 && public_encoded(suite, key.gate_public()) && agreement_drawn(
                    suite,
                    key.gate_private(),
                ),
                Err(e) => e == CryptoError::Key && agreement_draw_failed(suite),
            },
    {
        proof {
            primitives::law_drawn_is_what_was_returned();
            primitives::law_failed_is_what_was_returned();
        }
        let private = match suite {
            Suite::Fips => primitives::p256_generate(),
            Suite::Modern => primitives::x25519_generate(),
        };
        match private {
            Some(raw) => Self::from_raw_private(suite, raw.as_slice()),
            None => Err(CryptoError::Key),
        }
    }

    /// Generate a fresh gate key, and hand out its raw private half for storing.
    pub fn generate_raw(suite: Suite) -> (r: Result<(Self, Vec<u8>), CryptoError>)
        ensures
            match r {
                Ok((key, raw)) => key.gate_suite() == suite && key.matched() && raw@
                    == key.gate_private() && raw@.len() == 32 && public_encoded(
                    suite,
                    key.gate_public(),
                ) && agreement_drawn(suite, raw@),
                Err(e) => e == CryptoError::Key && agreement_draw_failed(suite),
            },
    {
        match Self::generate(suite) {
            Ok(key) => {
                let raw = to_vec(key.private.as_slice());
                Ok((key, raw))
            },
            Err(e) => Err(e),
        }
    }

    /// Rebuild a gate key from its raw private half.
    pub fn from_raw_private(suite: Suite, raw: &[u8]) -> (r: Result<Self, CryptoError>)
        ensures
            match r {
                Ok(key) => key.gate_suite() == suite && key.gate_private() == raw@ && key.matched()
                    && raw@.len() == 32 && public_encoded(suite, key.gate_public()),
                Err(e) => e == CryptoError::Key && agreement_public(suite, raw@) is None,
            },
    {
        let public = match suite {
            Suite::Fips => primitives::p256_public_key(raw),
            Suite::Modern => primitives::x25519_public_key(raw),
        };
        match public {
            Some(public) => Ok(GateKeypair { suite, private: to_vec(raw), public }),
            None => Err(CryptoError::Key),
        }
    }

    /// This gate's public key, distributed to clients so they can seal to it.
    pub fn public_key(&self) -> (r: &[u8])
        ensures
            r@ == self.gate_public(),
    {
        self.public.as_slice()
    }
}

impl Crypto for GateKeypair {
    open spec fn opening(&self, packet: Seq<u8>) -> Option<OpenedView> {
        envelope_opened(self.gate_suite(), self.gate_private(), packet)
    }

    open spec fn signature_valid(
        &self,
        suite: Suite,
        public_key: Seq<u8>,
        message: Seq<u8>,
        signature: Seq<u8>,
    ) -> bool {
        signature_holds(suite, public_key, message, signature)
    }

    open spec fn mac_valid(&self, key: Seq<u8>, message: Seq<u8>, mac: Seq<u8>) -> bool {
        mac == primitives::hmac_sha512(key, message)
    }

    fn open(&self, packet: &[u8]) -> (r: Result<Opened, OpenError>) {
        let parts = match split_packet(self.suite, packet) {
            Some(parts) => parts,
            None => {
                return Err(OpenError);
            },
        };
        let shared = match self.suite {
            Suite::Fips => primitives::p256_agree(self.private.as_slice(), parts.eph_pub),
            Suite::Modern => primitives::x25519_agree(self.private.as_slice(), parts.eph_pub),
        };
        let shared = match shared {
            Some(shared) => shared,
            None => {
                return Err(OpenError);
            },
        };
        match decrypt(self.suite, shared.as_slice(), &parts) {
            Some(plaintext) => read_plaintext(plaintext.as_slice()),
            None => Err(OpenError),
        }
    }

    fn verify(&self, suite: Suite, public_key: &[u8], message: &[u8], signature: &[u8]) -> (r:
        bool) {
        verify_signature(suite, public_key, message, signature)
    }

    fn verify_mac(&self, key: &[u8], message: &[u8], mac: &[u8]) -> (r: bool) {
        primitives::hmac_sha512_verify(key, message, mac)
    }
}

} // verus!
