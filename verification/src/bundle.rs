//! Signed policy bundle.
//!
//! A bundle file is a raw Ed25519 signature (64 bytes), then a TOML payload with
//! a monotonic `generation`, the protected ports, and the authorized clients and
//! tokens. The signature is verified against the pinned anchor: trust the
//! signature, not the channel.

use vstd::prelude::*;
use vstd::string::*;

use crate::bytes::{append, to_vec};
use crate::config::{
    parse_clients, parse_tokens, ClientEntry, ConfigError, ConfigErrorView, EntryView, RawClient,
    RawToken, TokenEntry,
};
use crate::envelope::{verify_signature, CryptoError};
use crate::identity::ClientKey;
use crate::wire::{Suite, SIG_LEN};

verus! {

/// What a gate is to enforce.
pub struct Bundle {
    pub generation: u64,
    pub protected_ports: Vec<u16>,
    pub clients: Vec<ClientEntry>,
    pub tokens: Vec<TokenEntry>,
}

/// What a [`Bundle`] says.
#[verifier::ext_equal]
pub struct BundleView {
    pub generation: u64,
    pub ports: Seq<u16>,
    pub clients: Seq<EntryView>,
    pub tokens: Seq<EntryView>,
}

impl View for Bundle {
    type V = BundleView;

    open spec fn view(&self) -> BundleView {
        BundleView {
            generation: self.generation,
            ports: self.protected_ports@,
            clients: crate::config::client_views(self.clients@),
            tokens: crate::config::token_views(self.tokens@),
        }
    }
}

/// The payload, field by field, before anything is checked.
pub struct RawBundle {
    pub generation: u64,
    pub protected_ports: Vec<u16>,
    pub client: Vec<RawClient>,
    pub token: Vec<RawToken>,
}

/// Why a bundle file was refused.
#[derive(Debug)]
pub enum BundleError {
    /// Shorter than its signature.
    TooShort,
    /// The signature does not verify under the anchor.
    BadSignature,
    /// The payload is no text; the words are those of the text decoder.
    NotText(String),
}

/// What a [`BundleError`] says.
pub enum BundleErrorView {
    TooShort,
    BadSignature,
    NotText(Seq<char>),
}

impl View for BundleError {
    type V = BundleErrorView;

    open spec fn view(&self) -> BundleErrorView {
        match self {
            BundleError::TooShort => BundleErrorView::TooShort,
            BundleError::BadSignature => BundleErrorView::BadSignature,
            BundleError::NotText(words) => BundleErrorView::NotText(words@),
        }
    }
}

impl BundleErrorView {
    /// The error in words.
    pub open spec fn words(self) -> Seq<char> {
        match self {
            BundleErrorView::TooShort => "bundle shorter than its signature"@,
            BundleErrorView::BadSignature => "bundle signature invalid"@,
            BundleErrorView::NotText(words) => words,
        }
    }
}

impl BundleError {
    pub fn message(&self) -> (r: String)
        ensures
            r@ == self@.words(),
    {
        match self {
            BundleError::TooShort => String::from_str("bundle shorter than its signature"),
            BundleError::BadSignature => String::from_str("bundle signature invalid"),
            BundleError::NotText(words) => String::from_str(words.as_str()),
        }
    }
}

/// What the text decoder says of bytes that are no UTF-8.
pub uninterp spec fn utf8_fault(bytes: Seq<u8>) -> Seq<char>;

/// `std::str::from_utf8`: the text that the bytes encode, or, where they are no
/// UTF-8, an error whose words are a function of the bytes.
#[verifier::external_body]
fn utf8_text(bytes: &[u8]) -> (r: Result<&str, String>)
    ensures
        match r {
            Ok(text) => vstd::utf8::valid_utf8(bytes@) && text@ == vstd::utf8::decode_utf8(bytes@),
            Err(words) => !vstd::utf8::valid_utf8(bytes@) && words@ == utf8_fault(bytes@),
        },
{
    std::str::from_utf8(bytes).map_err(|e| e.to_string())
}

/// The payload of a bundle file, where its signature holds.
pub open spec fn payload(data: Seq<u8>, anchor: Seq<u8>) -> Result<Seq<u8>, BundleErrorView> {
    if data.len() < SIG_LEN {
        Err(BundleErrorView::TooShort)
    } else {
        let sig = data.subrange(0, SIG_LEN as int);
        let body = data.subrange(SIG_LEN as int, data.len() as int);
        if crate::envelope::signature_holds(Suite::Modern, anchor, body, sig) {
            Ok(body)
        } else {
            Err(BundleErrorView::BadSignature)
        }
    }
}

/// The text of a bundle file, where its signature holds.
pub open spec fn payload_text(data: Seq<u8>, anchor: Seq<u8>) -> Result<
    Seq<char>,
    BundleErrorView,
> {
    match payload(data, anchor) {
        Err(e) => Err(e),
        Ok(body) => if vstd::utf8::valid_utf8(body) {
            Ok(vstd::utf8::decode_utf8(body))
        } else {
            Err(BundleErrorView::NotText(utf8_fault(body)))
        },
    }
}

/// Verify a bundle file's signature against `anchor_pubkey`, and take out its
/// payload's text. Nothing of the payload is read before the signature holds.
pub fn load_verify(data: &[u8], anchor_pubkey: &[u8]) -> (r: Result<String, BundleError>)
    ensures
        match r {
            Ok(text) => payload_text(data@, anchor_pubkey@) == Ok::<Seq<char>, BundleErrorView>(
                text@,
            ),
            Err(e) => payload_text(data@, anchor_pubkey@) == Err::<Seq<char>, BundleErrorView>(e@),
        },
{
    if data.len() < SIG_LEN {
        return Err(BundleError::TooShort);
    }
    let sig = vstd::slice::slice_subrange(data, 0, SIG_LEN);
    let body = vstd::slice::slice_subrange(data, SIG_LEN, data.len());
    if !verify_signature(Suite::Modern, anchor_pubkey, body, sig) {
        return Err(BundleError::BadSignature);
    }
    match utf8_text(body) {
        Ok(text) => Ok(String::from_str(text)),
        Err(words) => Err(BundleError::NotText(words)),
    }
}

impl Bundle {
    /// Check a payload. The first client or token that is wrong is reported.
    pub fn from_raw(raw: RawBundle) -> (r: Result<Bundle, ConfigError>)
        ensures
            match r {
                Ok(bundle) => {
                    &&& bundle@.generation == raw.generation
                    &&& bundle@.ports == raw.protected_ports@
                    &&& crate::config::collected(crate::config::client_results(raw.client@)) == Ok::<
                        Seq<EntryView>,
                        ConfigErrorView,
                    >(bundle@.clients)
                    &&& crate::config::collected(crate::config::token_results(raw.token@)) == Ok::<
                        Seq<EntryView>,
                        ConfigErrorView,
                    >(bundle@.tokens)
                },
                Err(e) => {
                    let clients = crate::config::collected(
                        crate::config::client_results(raw.client@),
                    );
                    let tokens = crate::config::collected(crate::config::token_results(raw.token@));
                    ||| clients == Err::<Seq<EntryView>, ConfigErrorView>(e@)
                    ||| clients is Ok && tokens == Err::<Seq<EntryView>, ConfigErrorView>(e@)
                },
            },
    {
        let clients = parse_clients(raw.client.as_slice())?;
        let tokens = parse_tokens(raw.token.as_slice())?;
        Ok(
            Bundle {
                generation: raw.generation,
                protected_ports: raw.protected_ports,
                clients,
                tokens,
            },
        )
    }
}

/// Sign a payload: the signature, then the payload.
pub fn sign_bundle(anchor: &ClientKey, body: &[u8]) -> (r: Result<Vec<u8>, CryptoError>)
    ensures
        anchor.key_suite() == Suite::Modern ==> match crate::primitives::ed25519_signature(
            anchor.key_pkcs8(),
            body@,
        ) {
            Some(sig) => r is Ok && r->Ok_0@ == sig + body@,
            None => r is Err,
        },
        match r {
            Ok(data) => {
                &&& data@.len() == SIG_LEN + body@.len()
                &&& data@.subrange(SIG_LEN as int, data@.len() as int) == body@
                &&& crate::envelope::signature_holds(
                    anchor.key_suite(),
                    anchor.key_public(),
                    body@,
                    data@.subrange(0, SIG_LEN as int),
                )
            },
            Err(e) => e == CryptoError::Sign && crate::envelope::signing_failed(
                anchor.key_suite(),
                anchor.key_pkcs8(),
                body@,
            ),
        },
{
    let sig = anchor.sign_detached(body)?;
    let mut data: Vec<u8> = to_vec(sig.as_slice());
    append(&mut data, body);
    proof {
        assert(data@.subrange(0, SIG_LEN as int) =~= sig@);
        assert(data@.subrange(SIG_LEN as int, data@.len() as int) =~= body@);
    }
    Ok(data)
}

/// A bundle signed by an Ed25519 anchor verifies under that anchor's public key,
/// to the payload that was signed.
pub proof fn law_signed_bundle_verifies(anchor: ClientKey, body: Seq<u8>, data: Seq<u8>)
    requires
        anchor.key_suite() == Suite::Modern,
        data.len() == SIG_LEN + body.len(),
        data.subrange(SIG_LEN as int, data.len() as int) == body,
        crate::envelope::signature_holds(
            anchor.key_suite(),
            anchor.key_public(),
            body,
            data.subrange(0, SIG_LEN as int),
        ),
    ensures
        payload(data, anchor.key_public()) == Ok::<Seq<u8>, BundleErrorView>(body),
{
}

} // verus!
