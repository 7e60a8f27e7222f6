//! Who knocks: a client's signing key, or a one-time enrollment token.

use vstd::prelude::*;

use crate::bytes::{to_array, to_vec};
use crate::envelope;
use crate::envelope::{seal_authorization, thumbprint_of, CryptoError};
use crate::primitives;
use crate::wire::{
    Authorization, AuthorizationView, Suite, GATE_ID_LEN, NONCE_LEN, SIG_LEN, THUMBPRINT_LEN,
};

verus! {

/// What a knock asks for, and what makes it fresh.
pub struct KnockRequest<'a> {
    pub gate_id: [u8; GATE_ID_LEN],
    pub ports: &'a [u16],
    pub nonce: [u8; NONCE_LEN],
    pub timestamp_nanos: u64,
}

impl<'a> KnockRequest<'a> {
    /// The authorization that this request becomes under an identity and a
    /// signature.
    pub open spec fn signed(self, key_thumbprint: Seq<u8>, signature: Seq<u8>) -> AuthorizationView {
        AuthorizationView {
            nonce: self.nonce@,
            timestamp_nanos: self.timestamp_nanos,
            gate_id: self.gate_id@,
            key_thumbprint,
            ports: self.ports@,
            signature,
        }
    }

    /// The bytes to be signed under an identity.
    pub open spec fn region(self, key_thumbprint: Seq<u8>) -> Seq<u8> {
        self.signed(key_thumbprint, Seq::new(SIG_LEN as nat, |i: int| 0u8)).signing_region()
    }

    /// The authorization under an identity, not signed yet.
    fn unsigned(&self, key_thumbprint: [u8; THUMBPRINT_LEN]) -> (auth: Authorization)
        ensures
            auth@ == self.signed(key_thumbprint@, auth@.signature),
            auth@.signing_region() == self.region(key_thumbprint@),
    {
        let mut ports: Vec<u16> = Vec::new();
        ports.extend_from_slice(self.ports);
        assert(ports@ =~= self.ports@);
        let auth = Authorization {
            nonce: self.nonce,
            timestamp_nanos: self.timestamp_nanos,
            gate_id: self.gate_id,
            key_thumbprint,
            ports,
            signature: [0u8; SIG_LEN],
        };
        assert(auth@ =~= self.signed(key_thumbprint@, auth@.signature));
        auth
    }
}

/// A client's identity (signing) key plus its public key and thumbprint.
pub struct ClientKey {
    suite: Suite,
    pkcs8: Vec<u8>,
    public: Vec<u8>,
    thumbprint: [u8; THUMBPRINT_LEN],
}

impl ClientKey {
    pub closed spec fn key_suite(self) -> Suite {
        self.suite
    }

    pub closed spec fn key_pkcs8(self) -> Seq<u8> {
        self.pkcs8@
    }

    pub closed spec fn key_public(self) -> Seq<u8> {
        self.public@
    }

    pub closed spec fn key_thumbprint(self) -> Seq<u8> {
        self.thumbprint@
    }

    /// A thumbprint has its length.
    pub(crate) proof fn lemma_thumbprint_len(self)
        ensures
            self.key_thumbprint().len() == THUMBPRINT_LEN,
    {
    }

    /// The public key belongs to the signing key, and the thumbprint to the
    /// public key.
    pub open spec fn matched(self) -> bool {
        &&& envelope::signing_public(self.key_suite(), self.key_pkcs8()) == Some(self.key_public())
        &&& self.key_thumbprint() == primitives::sha256(self.key_public())
    }

    #[verifier::type_invariant]
    spec fn consistent(self) -> bool {
        self.matched()
    }

    /// Generate a fresh client identity key for `suite`.
    pub fn generate(suite: Suite) -> (r: Result<Self, CryptoError>)
        ensures
            match r {
                Ok(key) => key.key_suite() == suite && key.matched() && envelope::public_encoded(
                    suite,
                    key.key_public(),
                ) && envelope::signing_drawn(suite, key.key_pkcs8()),
                Err(e) => e == CryptoError::Key && envelope::signing_draw_failed(suite),
            },
    {
        proof {
            primitives::law_drawn_is_what_was_returned();
            primitives::law_failed_is_what_was_returned();
        }
        let pkcs8 = match suite {
            Suite::Fips => primitives::ecdsa_p256_generate(),
            Suite::Modern => primitives::ed25519_generate(),
        };
        match pkcs8 {
            Some(pkcs8) => Self::from_pkcs8(suite, pkcs8.as_slice()),
            None => Err(CryptoError::Key),
        }
    }

    /// Load a client identity key from its PKCS#8 document.
    pub fn from_pkcs8(suite: Suite, pkcs8: &[u8]) -> (r: Result<Self, CryptoError>)
        ensures
            match r {
                Ok(key) => key.key_suite() == suite && key.key_pkcs8() == pkcs8@ && key.matched()
                    && envelope::public_encoded(suite, key.key_public()),
                Err(e) => e == CryptoError::Key && envelope::signing_public(suite, pkcs8@) is None,
            },
    {
        let public = match suite {
            Suite::Fips => primitives::ecdsa_p256_public_key(pkcs8),
            Suite::Modern => primitives::ed25519_public_key(pkcs8),
        };
        match public {
            Some(public) => {
                let thumbprint = thumbprint_of(public.as_slice());
                Ok(ClientKey { suite, pkcs8: to_vec(pkcs8), public, thumbprint })
            },
            None => Err(CryptoError::Key),
        }
    }

    /// The key as a PKCS#8 document, for storing.
    pub fn to_pkcs8(&self) -> (r: Result<Vec<u8>, CryptoError>)
        ensures
            r is Ok,
            r->Ok_0@ == self.key_pkcs8(),
    {
        Ok(to_vec(self.pkcs8.as_slice()))
    }

    pub fn public_key(&self) -> (r: &[u8])
        ensures
            r@ == self.key_public(),
    {
        self.public.as_slice()
    }

    pub fn thumbprint(&self) -> (r: &[u8; THUMBPRINT_LEN])
        ensures
            r@ == self.key_thumbprint(),
            r@ == primitives::sha256(self.key_public()),
    {
        proof {
            use_type_invariant(self);
        }
        &self.thumbprint
    }

    /// Sign a message on its own. An Ed25519 signature is settled by key and
    /// message.
    pub fn sign_detached(&self, message: &[u8]) -> (r: Result<Vec<u8>, CryptoError>)
        ensures
            self.key_suite() == Suite::Modern ==> match primitives::ed25519_signature(
                self.key_pkcs8(),
                message@,
            ) {
                Some(sig) => r is Ok && r->Ok_0@ == sig,
                None => r is Err,
            },
            match r {
                Ok(sig) => sig@.len() == SIG_LEN && envelope::signature_holds(
                    self.key_suite(),
                    self.key_public(),
                    message@,
                    sig@,
                ),
                Err(e) => e == CryptoError::Sign && envelope::signing_failed(
                    self.key_suite(),
                    self.key_pkcs8(),
                    message@,
                ),
            },
    {
        match self.sign(message) {
            Ok(sig) => Ok(to_vec(sig.as_slice())),
            Err(e) => Err(e),
        }
    }

    fn sign(&self, message: &[u8]) -> (r: Result<[u8; SIG_LEN], CryptoError>)
        ensures
            self.key_suite() == Suite::Modern ==> match primitives::ed25519_signature(
                self.key_pkcs8(),
                message@,
            ) {
                Some(sig) => r is Ok && r->Ok_0@ == sig,
                None => r is Err,
            },
            match r {
                Ok(sig) => envelope::signature_holds(
                    self.key_suite(),
                    self.key_public(),
                    message@,
                    sig@,
                ),
                Err(e) => e == CryptoError::Sign && envelope::signing_failed(
                    self.key_suite(),
                    self.key_pkcs8(),
                    message@,
                ),
            },
    {
        proof {
            use_type_invariant(self);
            primitives::law_failed_is_what_was_returned();
        }
        let sig = match self.suite {
            Suite::Fips => primitives::ecdsa_p256_sign(self.pkcs8.as_slice(), message),
            Suite::Modern => primitives::ed25519_sign(self.pkcs8.as_slice(), message),
        };
        match sig {
            Some(bytes) => Ok(to_array::<SIG_LEN>(bytes.as_slice())),
            None => Err(CryptoError::Sign),
        }
    }

    /// `packet` is a knock for this request, signed by this client and sealed to
    /// a gate with this public key. A client of the modern suite signs it with the
    /// one Ed25519 signature that its key gives.
    pub open spec fn knocks(
        self,
        gate_public: Seq<u8>,
        request: KnockRequest,
        packet: Seq<u8>,
    ) -> bool {
        exists|signature: Seq<u8>|
            signature.len() == SIG_LEN && #[trigger] envelope::signature_holds(
                self.key_suite(),
                self.key_public(),
                request.region(self.key_thumbprint()),
                signature,
            ) && (self.key_suite() == Suite::Modern ==> primitives::ed25519_signature(
                self.key_pkcs8(),
                request.region(self.key_thumbprint()),
            ) == Some(signature)) && envelope::carries(
                self.key_suite(),
                gate_public,
                packet,
                request.signed(self.key_thumbprint(), signature),
            )
    }

    /// A knock for this request failed: it could not be signed, or, signed by this
    /// client, could not be sealed.
    pub open spec fn knock_failed(
        self,
        gate_public: Seq<u8>,
        request: KnockRequest,
        e: CryptoError,
    ) -> bool {
        match e {
            CryptoError::Sign => envelope::signing_failed(
                self.key_suite(),
                self.key_pkcs8(),
                request.region(self.key_thumbprint()),
            ),
            CryptoError::Crypto => exists|signature: Seq<u8>|
                signature.len() == SIG_LEN && #[trigger] envelope::signature_holds(
                    self.key_suite(),
                    self.key_public(),
                    request.region(self.key_thumbprint()),
                    signature,
                ) && envelope::sealing_failed(
                    self.key_suite(),
                    gate_public,
                    request.signed(self.key_thumbprint(), signature).encoding(),
                ),
            _ => false,
        }
    }

    /// Build, sign and seal a knock for `gate_public`, returning the packet. A key
    /// that cannot be agreed with is refused.
    pub fn seal(
        &self,
        gate_public: &[u8],
        gate_id: [u8; GATE_ID_LEN],
        ports: &[u16],
        nonce: [u8; NONCE_LEN],
        timestamp_nanos: u64,
    ) -> (r: Result<Vec<u8>, CryptoError>)
        ensures
            match r {
                Ok(packet) => 1 <= ports@.len() <= crate::wire::MAX_PORTS && self.knocks(
                    gate_public@,
                    (KnockRequest { gate_id, ports, nonce, timestamp_nanos }),
                    packet@,
                ),
                Err(CryptoError::Encode) => !(1 <= ports@.len() <= crate::wire::MAX_PORTS),
                Err(e) => 1 <= ports@.len() <= crate::wire::MAX_PORTS && (e == CryptoError::Sign || e
                    == CryptoError::Crypto) && self.knock_failed(
                    gate_public@,
                    (KnockRequest { gate_id, ports, nonce, timestamp_nanos }),
                    e,
                ),
            },
            self.key_suite() == Suite::Modern && 1 <= ports@.len() <= crate::wire::MAX_PORTS ==> (r
                == Err::<Vec<u8>, CryptoError>(CryptoError::Sign)) == (
            primitives::ed25519_signature(
                self.key_pkcs8(),
                (KnockRequest { gate_id, ports, nonce, timestamp_nanos }).region(
                    self.key_thumbprint(),
                ),
            ) is None),
            !envelope::peer_accepted(self.key_suite(), gate_public@) ==> r is Err,
    {
        let request = KnockRequest { gate_id, ports, nonce, timestamp_nanos };
        let mut auth = request.unsigned(self.thumbprint);
        let signing = match auth.signing_bytes() {
            Ok(signing) => signing,
            Err(_) => {
                return Err(CryptoError::Encode);
            },
        };
        let signature = match self.sign(signing.as_slice()) {
            Ok(signature) => signature,
            Err(e) => {
                return Err(e);
            },
        };
        auth.signature = signature;
        assert(auth@ =~= request.signed(self.key_thumbprint(), signature@));
        assert(envelope::signature_holds(
            self.key_suite(),
            self.key_public(),
            request.region(self.key_thumbprint()),
            signature@,
        ));
        seal_authorization(self.suite, gate_public, &auth)
    }
}

/// Build a knock for an enrollment token, authenticated by the token's shared
/// secret, and seal it for `gate_public`. A key that cannot be agreed with is
/// refused.
pub fn seal_psk(
    gate_public: &[u8],
    suite: Suite,
    secret: &[u8],
    token_id: [u8; THUMBPRINT_LEN],
    request: &KnockRequest,
) -> (r: Result<Vec<u8>, CryptoError>)
    ensures
        match r {
            Ok(packet) => 1 <= request.ports@.len() <= crate::wire::MAX_PORTS && envelope::carries(
                suite,
                gate_public@,
                packet@,
                request.signed(
                    token_id@,
                    primitives::hmac_sha512(secret@, request.region(token_id@)),
                ),
            ),
            Err(CryptoError::Encode) => !(1 <= request.ports@.len() <= crate::wire::MAX_PORTS),
            Err(e) => 1 <= request.ports@.len() <= crate::wire::MAX_PORTS && e
                == CryptoError::Crypto && envelope::sealing_failed(
                suite,
                gate_public@,
                request.signed(
                    token_id@,
                    primitives::hmac_sha512(secret@, request.region(token_id@)),
                ).encoding(),
            ),
        },
        1 <= request.ports@.len() <= crate::wire::MAX_PORTS && !envelope::peer_accepted(
            suite,
            gate_public@,
        ) ==> r == Err::<Vec<u8>, CryptoError>(CryptoError::Crypto),
{
    let mut auth = request.unsigned(token_id);
    let signing = match auth.signing_bytes() {
        Ok(signing) => signing,
        Err(_) => {
            return Err(CryptoError::Encode);
        },
    };
    let mac = primitives::hmac_sha512_sign(secret, signing.as_slice());
    auth.signature = to_array::<SIG_LEN>(mac.as_slice());
    assert(auth@ =~= request.signed(token_id@, mac@));
    seal_authorization(suite, gate_public, &auth)
}

} // verus!
