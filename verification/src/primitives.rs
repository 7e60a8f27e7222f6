//! The cryptographic primitives, all from aws-lc-rs, one operation each.
//!
//! A name such as [`sha256`] stands for what a primitive computes from its
//! arguments. Where a primitive can refuse its input the name is an `Option`.
//! An operation that draws on chance has no name: only what holds of every
//! outcome is stated.

use vstd::prelude::*;

use aws_lc_rs::encoding::{AsBigEndian, Curve25519SeedBin, EcPrivateKeyBin};
use aws_lc_rs::signature::KeyPair;
use aws_lc_rs::{aead, agreement, digest, hkdf, hmac, rand, signature};

use crate::bytes::to_vec;

verus! {

/// The bytes that an optional vector holds.
pub open spec fn contents(v: Option<Vec<u8>>) -> Option<Seq<u8>> {
    match v {
        Some(bytes) => Some(bytes@),
        None => None,
    }
}

/// SHA-256 of a byte string.
pub uninterp spec fn sha256(data: Seq<u8>) -> Seq<u8>;

/// `aws_lc_rs::digest::digest` with `SHA256`: the digest is a function of the
/// data, 32 bytes long.
#[verifier::external_body]
pub(crate) fn digest_sha256(data: &[u8]) -> (out: Vec<u8>)
    ensures
        out@ == sha256(data@),
        out@.len() == 32,
{
    digest::digest(&digest::SHA256, data).as_ref().to_vec()
}

/// HMAC-SHA512 of a message under a key.
pub uninterp spec fn hmac_sha512(key: Seq<u8>, message: Seq<u8>) -> Seq<u8>;

/// `aws_lc_rs::hmac::sign` with `HMAC_SHA512`: the tag is a function of key and
/// message, 64 bytes long.
#[verifier::external_body]
pub(crate) fn hmac_sha512_sign(key: &[u8], message: &[u8]) -> (tag: Vec<u8>)
    ensures
        tag@ == hmac_sha512(key@, message@),
        tag@.len() == 64,
{
    hmac::sign(&hmac::Key::new(hmac::HMAC_SHA512, key), message).as_ref().to_vec()
}

/// `aws_lc_rs::hmac::verify` with `HMAC_SHA512`: accepts exactly the tag that
/// signing gives.
#[verifier::external_body]
pub(crate) fn hmac_sha512_verify(key: &[u8], message: &[u8], tag: &[u8]) -> (ok: bool)
    ensures
        ok == (tag@ == hmac_sha512(key@, message@)),
{
    hmac::verify(&hmac::Key::new(hmac::HMAC_SHA512, key), message, tag).is_ok()
}

/// How many bytes of key material to derive.
struct OkmLen(usize);

impl OkmLen {
    pub closed spec fn length(self) -> usize {
        self.0
    }
}

impl hkdf::KeyType for OkmLen {
    fn len(&self) -> (n: usize)
        ensures
            n == self.length(),
    {
        self.0
    }
}

/// `length` bytes of HKDF-SHA256 output for a secret and a context, with an
/// empty salt.
pub uninterp spec fn hkdf_sha256(secret: Seq<u8>, info: Seq<u8>, length: usize) -> Option<Seq<u8>>;

/// `aws_lc_rs::hkdf` with `HKDF_SHA256`: extract with an empty salt, then expand.
/// The output is a function of secret, context and length, and is as long as
/// asked for. At most 255 blocks of 32 bytes can be asked for.
#[verifier::external_body]
pub(crate) fn hkdf_sha256_expand(secret: &[u8], info: &[u8], length: usize) -> (okm: Option<
    Vec<u8>,
>)
    requires
        length <= 255 * 32,
    ensures
        contents(okm) == hkdf_sha256(secret@, info@, length),
        okm is Some ==> okm->0@.len() == length,
{
    let prk = hkdf::Salt::new(hkdf::HKDF_SHA256, &[]).extract(secret);
    let mut out = vec![0u8; length];
    prk.expand(&[info], OkmLen(length)).ok()?.fill(&mut out).ok()?;
    Some(out)
}

/// `aws_lc_rs::rand::fill`: as many bytes as asked for, drawn from the system's
/// generator, or nothing if it fails.
#[verifier::external_body]
pub(crate) fn random_bytes(length: usize) -> (out: Option<Vec<u8>>)
    requires
        length <= 0xffff,
    ensures
        out is Some ==> out->0@.len() == length,
{
    let mut out = vec![0u8; length];
    rand::fill(&mut out).ok()?;
    Some(out)
}

/// These `n` bytes were drawn at random: a draw of `n` bytes came out so.
pub closed spec fn drawn(n: usize, bytes: Seq<u8>) -> bool {
    exists|out: Vec<u8>| out@ == bytes && #[trigger] call_ensures(random_bytes, (n,), Some(out))
}

/// A draw of `n` bytes failed.
pub closed spec fn draw_failed(n: usize) -> bool {
    call_ensures(random_bytes, (n,), None)
}

/// This private key of the P-256 agreement was generated.
pub closed spec fn p256_drawn(private: Seq<u8>) -> bool {
    exists|out: Vec<u8>| out@ == private && #[trigger] call_ensures(p256_generate, (), Some(out))
}

/// This private key of the X25519 agreement was generated.
pub closed spec fn x25519_drawn(private: Seq<u8>) -> bool {
    exists|out: Vec<u8>| out@ == private && #[trigger] call_ensures(x25519_generate, (), Some(out))
}

/// This ECDSA P-256 signing key was generated.
pub closed spec fn ecdsa_p256_drawn(pkcs8: Seq<u8>) -> bool {
    exists|out: Vec<u8>| out@ == pkcs8 && #[trigger] call_ensures(
        ecdsa_p256_generate,
        (),
        Some(out),
    )
}

/// This Ed25519 signing key was generated.
pub closed spec fn ed25519_drawn(pkcs8: Seq<u8>) -> bool {
    exists|out: Vec<u8>| out@ == pkcs8 && #[trigger] call_ensures(ed25519_generate, (), Some(out))
}

/// Generating a private key of the P-256 agreement failed.
pub closed spec fn p256_draw_failed() -> bool {
    call_ensures(p256_generate, (), None)
}

/// Generating a private key of the X25519 agreement failed.
pub closed spec fn x25519_draw_failed() -> bool {
    call_ensures(x25519_generate, (), None)
}

/// Generating an ECDSA P-256 signing key failed.
pub closed spec fn ecdsa_p256_draw_failed() -> bool {
    call_ensures(ecdsa_p256_generate, (), None)
}

/// Generating an Ed25519 signing key failed.
pub closed spec fn ed25519_draw_failed() -> bool {
    call_ensures(ed25519_generate, (), None)
}

/// An exchange with this peer over P-256 gave a public key and a secret.
pub closed spec fn p256_exchanged(peer: Seq<u8>, public: Seq<u8>, secret: Seq<u8>) -> bool {
    exists|key: &[u8], agreed: Exchange|
        key@ == peer && agreed.public@ == public && agreed.secret@ == secret
            && #[trigger] call_ensures(p256_exchange, (key,), Some(agreed))
}

/// An exchange with this peer over P-256 failed.
pub closed spec fn p256_exchange_failed(peer: Seq<u8>) -> bool {
    exists|key: &[u8]| key@ == peer && #[trigger] call_ensures(p256_exchange, (key,), None)
}

/// An exchange with this peer over X25519 gave a public key and a secret.
pub closed spec fn x25519_exchanged(peer: Seq<u8>, public: Seq<u8>, secret: Seq<u8>) -> bool {
    exists|key: &[u8], agreed: Exchange|
        key@ == peer && agreed.public@ == public && agreed.secret@ == secret
            && #[trigger] call_ensures(x25519_exchange, (key,), Some(agreed))
}

/// An exchange with this peer over X25519 failed.
pub closed spec fn x25519_exchange_failed(peer: Seq<u8>) -> bool {
    exists|key: &[u8]| key@ == peer && #[trigger] call_ensures(x25519_exchange, (key,), None)
}

/// Signing a message under ECDSA P-256 failed.
pub closed spec fn ecdsa_p256_sign_failed(pkcs8: Seq<u8>, message: Seq<u8>) -> bool {
    exists|key: &[u8], bytes: &[u8]|
        key@ == pkcs8 && bytes@ == message && #[trigger] call_ensures(
            ecdsa_p256_sign,
            (key, bytes),
            None,
        )
}

/// What failed, or was agreed on, is what the calls gave, and nothing else.
pub(crate) proof fn law_failed_is_what_was_returned()
    ensures
        p256_draw_failed() == call_ensures(p256_generate, (), None),
        x25519_draw_failed() == call_ensures(x25519_generate, (), None),
        ecdsa_p256_draw_failed() == call_ensures(ecdsa_p256_generate, (), None),
        ed25519_draw_failed() == call_ensures(ed25519_generate, (), None),
        forall|key: &[u8], agreed: Exchange| #[trigger]
            call_ensures(p256_exchange, (key,), Some(agreed)) ==> p256_exchanged(
                key@,
                agreed.public@,
                agreed.secret@,
            ),
        forall|key: &[u8]| #[trigger]
            call_ensures(p256_exchange, (key,), None) ==> p256_exchange_failed(key@),
        forall|key: &[u8], agreed: Exchange| #[trigger]
            call_ensures(x25519_exchange, (key,), Some(agreed)) ==> x25519_exchanged(
                key@,
                agreed.public@,
                agreed.secret@,
            ),
        forall|key: &[u8]| #[trigger]
            call_ensures(x25519_exchange, (key,), None) ==> x25519_exchange_failed(key@),
        forall|key: &[u8], bytes: &[u8]| #[trigger]
            call_ensures(ecdsa_p256_sign, (key, bytes), None) ==> ecdsa_p256_sign_failed(
                key@,
                bytes@,
            ),
        forall|peer: Seq<u8>, public: Seq<u8>, secret: Seq<u8>| #[trigger]
            p256_exchanged(peer, public, secret) ==> exists|key: &[u8], agreed: Exchange|
                key@ == peer && agreed.public@ == public && agreed.secret@ == secret
                    && #[trigger] call_ensures(p256_exchange, (key,), Some(agreed)),
        forall|peer: Seq<u8>| #[trigger]
            p256_exchange_failed(peer) ==> exists|key: &[u8]|
                key@ == peer && #[trigger] call_ensures(p256_exchange, (key,), None),
        forall|peer: Seq<u8>, public: Seq<u8>, secret: Seq<u8>| #[trigger]
            x25519_exchanged(peer, public, secret) ==> exists|key: &[u8], agreed: Exchange|
                key@ == peer && agreed.public@ == public && agreed.secret@ == secret
                    && #[trigger] call_ensures(x25519_exchange, (key,), Some(agreed)),
        forall|peer: Seq<u8>| #[trigger]
            x25519_exchange_failed(peer) ==> exists|key: &[u8]|
                key@ == peer && #[trigger] call_ensures(x25519_exchange, (key,), None),
        forall|pkcs8: Seq<u8>, message: Seq<u8>| #[trigger]
            ecdsa_p256_sign_failed(pkcs8, message) ==> exists|key: &[u8], bytes: &[u8]|
                key@ == pkcs8 && bytes@ == message && #[trigger] call_ensures(
                    ecdsa_p256_sign,
                    (key, bytes),
                    None,
                ),
{
}

/// What was drawn is what the generators gave, and nothing else.
pub(crate) proof fn law_drawn_is_what_was_returned()
    ensures
        forall|n: usize, out: Vec<u8>| #[trigger]
            call_ensures(random_bytes, (n,), Some(out)) ==> drawn(n, out@),
        forall|n: usize| #[trigger] draw_failed(n) == call_ensures(random_bytes, (n,), None),
        forall|out: Vec<u8>| #[trigger]
            call_ensures(p256_generate, (), Some(out)) ==> p256_drawn(out@),
        forall|out: Vec<u8>| #[trigger]
            call_ensures(x25519_generate, (), Some(out)) ==> x25519_drawn(out@),
        forall|out: Vec<u8>| #[trigger]
            call_ensures(ecdsa_p256_generate, (), Some(out)) ==> ecdsa_p256_drawn(out@),
        forall|out: Vec<u8>| #[trigger]
            call_ensures(ed25519_generate, (), Some(out)) ==> ed25519_drawn(out@),
        forall|n: usize, bytes: Seq<u8>| #[trigger]
            drawn(n, bytes) ==> exists|out: Vec<u8>|
                out@ == bytes && #[trigger] call_ensures(random_bytes, (n,), Some(out)),
        forall|private: Seq<u8>| #[trigger]
            p256_drawn(private) ==> exists|out: Vec<u8>|
                out@ == private && #[trigger] call_ensures(p256_generate, (), Some(out)),
        forall|private: Seq<u8>| #[trigger]
            x25519_drawn(private) ==> exists|out: Vec<u8>|
                out@ == private && #[trigger] call_ensures(x25519_generate, (), Some(out)),
        forall|pkcs8: Seq<u8>| #[trigger]
            ecdsa_p256_drawn(pkcs8) ==> exists|out: Vec<u8>|
                out@ == pkcs8 && #[trigger] call_ensures(ecdsa_p256_generate, (), Some(out)),
        forall|pkcs8: Seq<u8>| #[trigger]
            ed25519_drawn(pkcs8) ==> exists|out: Vec<u8>|
                out@ == pkcs8 && #[trigger] call_ensures(ed25519_generate, (), Some(out)),
{
}

/// Two ciphertexts with their tags of 16 bytes, that differ in the tags alone.
pub open spec fn other_tag(a: Seq<u8>, b: Seq<u8>) -> bool {
    &&& a.len() == b.len()
    &&& a.len() >= 16
    &&& a.take(a.len() - 16) == b.take(b.len() - 16)
    &&& a != b
}

/// What AES-256-GCM opens a ciphertext and tag to.
pub uninterp spec fn aes_256_gcm_opened(
    key: Seq<u8>,
    nonce: Seq<u8>,
    aad: Seq<u8>,
    sealed: Seq<u8>,
) -> Option<Seq<u8>>;

/// What AES-256-GCM seals a plaintext to: ciphertext, then tag.
pub uninterp spec fn aes_256_gcm_sealed(
    key: Seq<u8>,
    nonce: Seq<u8>,
    aad: Seq<u8>,
    plaintext: Seq<u8>,
) -> Option<Seq<u8>>;

/// `aws_lc_rs::aead::LessSafeKey::open_in_place` with `AES_256_GCM`: the result
/// is a function of key, nonce, associated data and ciphertext, and is 16 bytes
/// shorter than the ciphertext.
#[verifier::external_body]
pub(crate) fn aes_256_gcm_open(key: &[u8], nonce: [u8; 12], aad: &[u8], sealed: &[u8]) -> (r:
    Option<Vec<u8>>)
    ensures
        contents(r) == aes_256_gcm_opened(key@, nonce@, aad@, sealed@),
        r is Some ==> r->0@.len() + 16 == sealed@.len(),
{
    let key = aead::LessSafeKey::new(aead::UnboundKey::new(&aead::AES_256_GCM, key).ok()?);
    let nonce = aead::Nonce::assume_unique_for_key(nonce);
    let mut in_out = sealed.to_vec();
    let plaintext = key.open_in_place(nonce, aead::Aad::from(aad), &mut in_out).ok()?;
    Some(plaintext.to_vec())
}

/// `aws_lc_rs::aead::LessSafeKey::seal_in_place_append_tag` with `AES_256_GCM`:
/// the result is a function of its arguments, is 16 bytes longer than the
/// plaintext, and opens to the plaintext again. Opening compares all 16 bytes of
/// the tag with the one tag that belongs to the ciphertext, so under any other tag
/// it does not open. The cipher runs in counter mode, byte by byte, so whatever a
/// beginning of the result may open to is a beginning of the plaintext.
#[verifier::external_body]
pub(crate) fn aes_256_gcm_seal(key: &[u8], nonce: [u8; 12], aad: &[u8], plaintext: &[u8]) -> (r:
    Option<Vec<u8>>)
    ensures
        contents(r) == aes_256_gcm_sealed(key@, nonce@, aad@, plaintext@),
        r is Some ==> r->0@.len() == plaintext@.len() + 16,
        r is Some ==> aes_256_gcm_opened(key@, nonce@, aad@, r->0@) == Some(plaintext@),
        r is Some ==> forall|other: Seq<u8>|
            other_tag(r->0@, other) ==> (#[trigger] aes_256_gcm_opened(
                key@,
                nonce@,
                aad@,
                other,
            )) is None,
        r is Some ==> forall|n: int|
            16 <= n < r->0@.len() ==> match #[trigger] aes_256_gcm_opened(
                key@,
                nonce@,
                aad@,
                r->0@.take(n),
            ) {
                Some(part) => part == plaintext@.take(n - 16),
                None => true,
            },
{
    let key = aead::LessSafeKey::new(aead::UnboundKey::new(&aead::AES_256_GCM, key).ok()?);
    let nonce = aead::Nonce::assume_unique_for_key(nonce);
    let mut in_out = plaintext.to_vec();
    key.seal_in_place_append_tag(nonce, aead::Aad::from(aad), &mut in_out).ok()?;
    Some(in_out)
}

/// What ChaCha20-Poly1305 opens a ciphertext and tag to.
pub uninterp spec fn chacha20_poly1305_opened(
    key: Seq<u8>,
    nonce: Seq<u8>,
    aad: Seq<u8>,
    sealed: Seq<u8>,
) -> Option<Seq<u8>>;

/// What ChaCha20-Poly1305 seals a plaintext to: ciphertext, then tag.
pub uninterp spec fn chacha20_poly1305_sealed(
    key: Seq<u8>,
    nonce: Seq<u8>,
    aad: Seq<u8>,
    plaintext: Seq<u8>,
) -> Option<Seq<u8>>;

/// `aws_lc_rs::aead::LessSafeKey::open_in_place` with `CHACHA20_POLY1305`: the
/// result is a function of key, nonce, associated data and ciphertext, and is
/// 16 bytes shorter than the ciphertext.
#[verifier::external_body]
pub(crate) fn chacha20_poly1305_open(
    key: &[u8],
    nonce: [u8; 12],
    aad: &[u8],
    sealed: &[u8],
) -> (r: Option<Vec<u8>>)
    ensures
        contents(r) == chacha20_poly1305_opened(key@, nonce@, aad@, sealed@),
        r is Some ==> r->0@.len() + 16 == sealed@.len(),
{
    let key = aead::LessSafeKey::new(aead::UnboundKey::new(&aead::CHACHA20_POLY1305, key).ok()?);
    let nonce = aead::Nonce::assume_unique_for_key(nonce);
    let mut in_out = sealed.to_vec();
    let plaintext = key.open_in_place(nonce, aead::Aad::from(aad), &mut in_out).ok()?;
    Some(plaintext.to_vec())
}

/// `aws_lc_rs::aead::LessSafeKey::seal_in_place_append_tag` with
/// `CHACHA20_POLY1305`: the result is a function of its arguments, is 16 bytes
/// longer than the plaintext, and opens to the plaintext again. Opening compares
/// all 16 bytes of the tag with the one tag that belongs to the ciphertext, so
/// under any other tag it does not open. The cipher is a stream cipher, byte by
/// byte, so whatever a beginning of the result may open to is a beginning of the
/// plaintext.
#[verifier::external_body]
pub(crate) fn chacha20_poly1305_seal(
    key: &[u8],
    nonce: [u8; 12],
    aad: &[u8],
    plaintext: &[u8],
) -> (r: Option<Vec<u8>>)
    ensures
        contents(r) == chacha20_poly1305_sealed(key@, nonce@, aad@, plaintext@),
        r is Some ==> r->0@.len() == plaintext@.len() + 16,
        r is Some ==> chacha20_poly1305_opened(key@, nonce@, aad@, r->0@) == Some(plaintext@),
        r is Some ==> forall|other: Seq<u8>|
            other_tag(r->0@, other) ==> (#[trigger] chacha20_poly1305_opened(
                key@,
                nonce@,
                aad@,
                other,
            )) is None,
        r is Some ==> forall|n: int|
            16 <= n < r->0@.len() ==> match #[trigger] chacha20_poly1305_opened(
                key@,
                nonce@,
                aad@,
                r->0@.take(n),
            ) {
                Some(part) => part == plaintext@.take(n - 16),
                None => true,
            },
{
    let key = aead::LessSafeKey::new(aead::UnboundKey::new(&aead::CHACHA20_POLY1305, key).ok()?);
    let nonce = aead::Nonce::assume_unique_for_key(nonce);
    let mut in_out = plaintext.to_vec();
    key.seal_in_place_append_tag(nonce, aead::Aad::from(aad), &mut in_out).ok()?;
    Some(in_out)
}

/// One side of a key agreement under a fresh key: that key's public half, and
/// the shared secret.
pub(crate) struct Exchange {
    pub public: Vec<u8>,
    pub secret: Vec<u8>,
}

/// The uncompressed P-256 point that belongs to a private scalar.
pub uninterp spec fn p256_public(private: Seq<u8>) -> Option<Seq<u8>>;

/// Whether a peer's key has the form of a P-256 key: a point, uncompressed, hybrid
/// or compressed, or a DER document, which begins with a sequence tag.
pub open spec fn p256_formed(peer: Seq<u8>) -> bool {
    ||| peer.len() == 65 && (peer[0] == 0x04 || peer[0] == 0x06 || peer[0] == 0x07)
    ||| peer.len() == 33 && (peer[0] == 0x02 || peer[0] == 0x03)
    ||| peer.len() > 0 && peer[0] == 0x30
}

/// The ECDH P-256 secret of a private scalar and a peer's point.
pub uninterp spec fn p256_secret(private: Seq<u8>, peer: Seq<u8>) -> Option<Seq<u8>>;

/// `aws_lc_rs::agreement::PrivateKey::generate` with `ECDH_P256`, exported as a
/// big-endian scalar: 32 bytes that have a public point.
#[verifier::external_body]
pub(crate) fn p256_generate() -> (private: Option<Vec<u8>>)
    ensures
        private is Some ==> private->0@.len() == 32 && p256_public(private->0@) is Some,
{
    let key = agreement::PrivateKey::generate(&agreement::ECDH_P256).ok()?;
    let raw: EcPrivateKeyBin<'static> = key.as_be_bytes().ok()?;
    Some(raw.as_ref().to_vec())
}

/// `aws_lc_rs::agreement::PrivateKey::from_private_key` and
/// `compute_public_key` with `ECDH_P256`: a function of the scalar, an
/// uncompressed point of 65 bytes, the first of which is 4; a scalar that is not
/// 32 bytes long is refused.
#[verifier::external_body]
pub(crate) fn p256_public_key(private: &[u8]) -> (public: Option<Vec<u8>>)
    ensures
        contents(public) == p256_public(private@),
        public is Some ==> public->0@.len() == 65 && public->0@[0] == 0x04 && private@.len() == 32,
{
    let key = agreement::PrivateKey::from_private_key(&agreement::ECDH_P256, private).ok()?;
    let public = key.compute_public_key().ok()?;
    Some(public.as_ref().to_vec())
}

/// `aws_lc_rs::agreement::agree` with `ECDH_P256`: the secret is a function of
/// scalar and peer.
#[verifier::external_body]
pub(crate) fn p256_agree(private: &[u8], peer: &[u8]) -> (secret: Option<Vec<u8>>)
    ensures
        contents(secret) == p256_secret(private@, peer@),
{
    let key = agreement::PrivateKey::from_private_key(&agreement::ECDH_P256, private).ok()?;
    let peer = agreement::UnparsedPublicKey::new(&agreement::ECDH_P256, peer);
    agreement::agree(&key, peer, (), |secret| Ok(to_vec(secret))).ok()
}

/// `aws_lc_rs::agreement::EphemeralPrivateKey::generate`, `compute_public_key`
/// and `agree_ephemeral` with `ECDH_P256`: a fresh public point of 65 bytes and
/// the secret shared with `peer`, which is the secret that the holder of the
/// peer's private scalar computes from that point. Point and secret are those of
/// one private scalar, the fresh one. A peer in no form of a P-256 key is refused.
#[verifier::external_body]
pub(crate) fn p256_exchange(peer: &[u8]) -> (r: Option<Exchange>)
    ensures
        r is Some ==> r->0.public@.len() == 65,
        r is Some ==> forall|private: Seq<u8>|
            p256_public(private) == Some(peer@) ==> #[trigger] p256_secret(private, r->0.public@)
                == Some(r->0.secret@),
        r is Some ==> p256_formed(peer@),
        r is Some ==> exists|private: Seq<u8>|
            p256_public(private) == Some(r->0.public@) && #[trigger] p256_secret(private, peer@)
                == Some(r->0.secret@),
{
    let rng = rand::SystemRandom::new();
    let key = agreement::EphemeralPrivateKey::generate(&agreement::ECDH_P256, &rng).ok()?;
    let public = key.compute_public_key().ok()?.as_ref().to_vec();
    let peer = agreement::UnparsedPublicKey::new(&agreement::ECDH_P256, peer);
    let secret = agreement::agree_ephemeral(key, peer, (), |secret| Ok(to_vec(secret))).ok()?;
    Some(Exchange { public, secret })
}

/// The X25519 public key that belongs to a private seed.
pub uninterp spec fn x25519_public(private: Seq<u8>) -> Option<Seq<u8>>;

/// Whether a peer's key has the form of an X25519 key: 32 raw bytes, or a DER
/// document, which begins with a sequence tag.
pub open spec fn x25519_formed(peer: Seq<u8>) -> bool {
    ||| peer.len() == 32
    ||| peer.len() > 0 && peer[0] == 0x30
}

/// The X25519 secret of a private seed and a peer's public key.
pub uninterp spec fn x25519_secret(private: Seq<u8>, peer: Seq<u8>) -> Option<Seq<u8>>;

/// `aws_lc_rs::agreement::PrivateKey::generate` with `X25519`, exported as a
/// seed: 32 bytes that have a public key.
#[verifier::external_body]
pub(crate) fn x25519_generate() -> (private: Option<Vec<u8>>)
    ensures
        private is Some ==> private->0@.len() == 32 && x25519_public(private->0@) is Some,
{
    let key = agreement::PrivateKey::generate(&agreement::X25519).ok()?;
    let raw: Curve25519SeedBin<'static> = key.as_be_bytes().ok()?;
    Some(raw.as_ref().to_vec())
}

/// `aws_lc_rs::agreement::PrivateKey::from_private_key` and
/// `compute_public_key` with `X25519`: a function of the seed, 32 bytes long; a
/// seed that is not 32 bytes long is refused.
#[verifier::external_body]
pub(crate) fn x25519_public_key(private: &[u8]) -> (public: Option<Vec<u8>>)
    ensures
        contents(public) == x25519_public(private@),
        public is Some ==> public->0@.len() == 32 && private@.len() == 32,
{
    let key = agreement::PrivateKey::from_private_key(&agreement::X25519, private).ok()?;
    let public = key.compute_public_key().ok()?;
    Some(public.as_ref().to_vec())
}

/// `aws_lc_rs::agreement::agree` with `X25519`: the secret is a function of seed
/// and peer.
#[verifier::external_body]
pub(crate) fn x25519_agree(private: &[u8], peer: &[u8]) -> (secret: Option<Vec<u8>>)
    ensures
        contents(secret) == x25519_secret(private@, peer@),
{
    let key = agreement::PrivateKey::from_private_key(&agreement::X25519, private).ok()?;
    let peer = agreement::UnparsedPublicKey::new(&agreement::X25519, peer);
    agreement::agree(&key, peer, (), |secret| Ok(to_vec(secret))).ok()
}

/// `aws_lc_rs::agreement::EphemeralPrivateKey::generate`, `compute_public_key`
/// and `agree_ephemeral` with `X25519`: a fresh public key of 32 bytes and the
/// secret shared with `peer`, which is the secret that the holder of the peer's
/// private seed computes from that key. Key and secret are those of one private
/// seed, the fresh one. A peer in no form of an X25519 key is refused.
#[verifier::external_body]
pub(crate) fn x25519_exchange(peer: &[u8]) -> (r: Option<Exchange>)
    ensures
        r is Some ==> r->0.public@.len() == 32,
        r is Some ==> forall|private: Seq<u8>|
            x25519_public(private) == Some(peer@) ==> #[trigger] x25519_secret(private, r->0.public@)
                == Some(r->0.secret@),
        r is Some ==> x25519_formed(peer@),
        r is Some ==> exists|private: Seq<u8>|
            x25519_public(private) == Some(r->0.public@) && #[trigger] x25519_secret(private, peer@)
                == Some(r->0.secret@),
{
    let rng = rand::SystemRandom::new();
    let key = agreement::EphemeralPrivateKey::generate(&agreement::X25519, &rng).ok()?;
    let public = key.compute_public_key().ok()?.as_ref().to_vec();
    let peer = agreement::UnparsedPublicKey::new(&agreement::X25519, peer);
    let secret = agreement::agree_ephemeral(key, peer, (), |secret| Ok(to_vec(secret))).ok()?;
    Some(Exchange { public, secret })
}

/// The public key in an ECDSA P-256 PKCS#8 document.
pub uninterp spec fn ecdsa_p256_public(pkcs8: Seq<u8>) -> Option<Seq<u8>>;

/// Whether a signature is valid under ECDSA P-256 with SHA-256.
pub uninterp spec fn ecdsa_p256_valid(
    public: Seq<u8>,
    message: Seq<u8>,
    signature: Seq<u8>,
) -> bool;

/// `aws_lc_rs::signature::EcdsaKeyPair::generate` with
/// `ECDSA_P256_SHA256_FIXED_SIGNING`, as a PKCS#8 document that has a public
/// key.
#[verifier::external_body]
pub(crate) fn ecdsa_p256_generate() -> (pkcs8: Option<Vec<u8>>)
    ensures
        pkcs8 is Some ==> ecdsa_p256_public(pkcs8->0@) is Some,
{
    let alg = &signature::ECDSA_P256_SHA256_FIXED_SIGNING;
    let key = signature::EcdsaKeyPair::generate(alg).ok()?;
    Some(key.to_pkcs8v1().ok()?.as_ref().to_vec())
}

/// `aws_lc_rs::signature::EcdsaKeyPair::from_pkcs8` and `public_key`: a function
/// of the document, an uncompressed point of 65 bytes, the first of which is 4.
#[verifier::external_body]
pub(crate) fn ecdsa_p256_public_key(pkcs8: &[u8]) -> (public: Option<Vec<u8>>)
    ensures
        contents(public) == ecdsa_p256_public(pkcs8@),
        public is Some ==> public->0@.len() == 65 && public->0@[0] == 0x04,
{
    let alg = &signature::ECDSA_P256_SHA256_FIXED_SIGNING;
    let key = signature::EcdsaKeyPair::from_pkcs8(alg, pkcs8).ok()?;
    Some(key.public_key().as_ref().to_vec())
}

/// `aws_lc_rs::signature::EcdsaKeyPair::sign` with
/// `ECDSA_P256_SHA256_FIXED_SIGNING`: a signature of 64 bytes that is valid under
/// the document's public key.
#[verifier::external_body]
pub(crate) fn ecdsa_p256_sign(pkcs8: &[u8], message: &[u8]) -> (r: Option<Vec<u8>>)
    ensures
        r is Some ==> r->0@.len() == 64,
        r is Some ==> ecdsa_p256_public(pkcs8@) is Some && ecdsa_p256_valid(
            ecdsa_p256_public(pkcs8@)->0,
            message@,
            r->0@,
        ),
{
    let alg = &signature::ECDSA_P256_SHA256_FIXED_SIGNING;
    let key = signature::EcdsaKeyPair::from_pkcs8(alg, pkcs8).ok()?;
    Some(key.sign(&rand::SystemRandom::new(), message).ok()?.as_ref().to_vec())
}

/// `aws_lc_rs::signature::UnparsedPublicKey::verify` with
/// `ECDSA_P256_SHA256_FIXED`: a function of key, message and signature.
#[verifier::external_body]
pub(crate) fn ecdsa_p256_verify(public: &[u8], message: &[u8], sig: &[u8]) -> (ok: bool)
    ensures
        ok == ecdsa_p256_valid(public@, message@, sig@),
{
    let key = signature::UnparsedPublicKey::new(&signature::ECDSA_P256_SHA256_FIXED, public);
    key.verify(message, sig).is_ok()
}

/// The public key in an Ed25519 PKCS#8 document.
pub uninterp spec fn ed25519_public(pkcs8: Seq<u8>) -> Option<Seq<u8>>;

/// Whether a signature is valid under Ed25519.
pub uninterp spec fn ed25519_valid(
    public: Seq<u8>,
    message: Seq<u8>,
    signature: Seq<u8>,
) -> bool;

/// The Ed25519 signature of a message under the key in a PKCS#8 document.
pub uninterp spec fn ed25519_signature(pkcs8: Seq<u8>, message: Seq<u8>) -> Option<Seq<u8>>;

/// `aws_lc_rs::signature::Ed25519KeyPair::generate`, as a PKCS#8 document that
/// has a public key.
#[verifier::external_body]
pub(crate) fn ed25519_generate() -> (pkcs8: Option<Vec<u8>>)
    ensures
        pkcs8 is Some ==> ed25519_public(pkcs8->0@) is Some,
{
    let key = signature::Ed25519KeyPair::generate().ok()?;
    Some(key.to_pkcs8v1().ok()?.as_ref().to_vec())
}

/// `aws_lc_rs::signature::Ed25519KeyPair::from_pkcs8` and `public_key`: a
/// function of the document, 32 bytes long.
#[verifier::external_body]
pub(crate) fn ed25519_public_key(pkcs8: &[u8]) -> (public: Option<Vec<u8>>)
    ensures
        contents(public) == ed25519_public(pkcs8@),
        public is Some ==> public->0@.len() == 32,
{
    let key = signature::Ed25519KeyPair::from_pkcs8(pkcs8).ok()?;
    Some(key.public_key().as_ref().to_vec())
}

/// `aws_lc_rs::signature::Ed25519KeyPair::try_sign`: a function of document and
/// message, 64 bytes long and valid under the document's public key.
#[verifier::external_body]
pub(crate) fn ed25519_sign(pkcs8: &[u8], message: &[u8]) -> (r: Option<Vec<u8>>)
    ensures
        contents(r) == ed25519_signature(pkcs8@, message@),
        r is Some ==> r->0@.len() == 64,
        r is Some ==> ed25519_public(pkcs8@) is Some && ed25519_valid(
            ed25519_public(pkcs8@)->0,
            message@,
            r->0@,
        ),
{
    let key = signature::Ed25519KeyPair::from_pkcs8(pkcs8).ok()?;
    Some(key.try_sign(message).ok()?.as_ref().to_vec())
}

/// `aws_lc_rs::signature::UnparsedPublicKey::verify` with `ED25519`: a function
/// of key, message and signature.
#[verifier::external_body]
pub(crate) fn ed25519_verify(public: &[u8], message: &[u8], sig: &[u8]) -> (ok: bool)
    ensures
        ok == ed25519_valid(public@, message@, sig@),
{
    let key = signature::UnparsedPublicKey::new(&signature::ED25519, public);
    key.verify(message, sig).is_ok()
}

} // verus!
