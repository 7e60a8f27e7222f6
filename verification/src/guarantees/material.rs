//! The material that a gate, a client and a token are made of, as it is written
//! down, read back and used.

use vstd::prelude::*;
use vstd::string::*;

use crate::catalog::Endpoint;
use crate::client::{
    fresh_from, parse_suite, Enroller, EnrollerView, Error, ErrorView, Freshness, Knocker,
};
use crate::envelope::{CryptoError, GateKeypair};
use crate::gatekeeper::{Crypto, OpenError, Opened};
use crate::hexcode;
use crate::hexcode::HexError;
use crate::identity::{ClientKey, KnockRequest};
use crate::primitives;
use crate::provision::{
    drawn_array, read_key, write_key, KeyMaterial, Provision, ProvisionError, TokenMaterial,
    SECRET_LEN,
};
use crate::wire::{Suite, GATE_ID_LEN, NONCE_LEN, THUMBPRINT_LEN};

verus! {

/// The public half of a client's key.
pub open spec fn client_public(suite: Suite, pkcs8: Seq<u8>) -> Option<Seq<u8>> {
    match suite {
        Suite::Fips => primitives::ecdsa_p256_public(pkcs8),
        Suite::Modern => primitives::ed25519_public(pkcs8),
    }
}

/// The public half of a gate's key.
pub open spec fn gate_public(suite: Suite, private: Seq<u8>) -> Option<Seq<u8>> {
    match suite {
        Suite::Fips => primitives::p256_public(private),
        Suite::Modern => primitives::x25519_public(private),
    }
}

/// What a gate finds in a knock that a client sealed: whom it is for, what it asks
/// for, who sent it, a nonce that was drawn, a time that the system's clock told,
/// and a signature by the sender's key.
pub open spec fn fresh_knock(
    r: Result<Opened, OpenError>,
    suite: Suite,
    gate_id: Seq<u8>,
    ports: Seq<u16>,
    pkcs8: Seq<u8>,
) -> bool {
    r matches Ok(opened) && {
        &&& opened.auth.gate_id@ == gate_id
        &&& opened.auth.ports@ == ports
        &&& client_public(suite, pkcs8) matches Some(public) && opened.auth.key_thumbprint@
            == primitives::sha256(public) && crate::guarantees::sealing::valid(
            suite,
            public,
            opened.signing_bytes@,
            opened.auth.signature@,
        )
        &&& primitives::drawn(16, opened.auth.nonce@)
        &&& exists|nanos: u128| #[trigger]
            crate::adapters::wall_clock_told(Some(nanos)) && opened.auth.timestamp_nanos == nanos
                % 0x1_0000_0000_0000_0000
    }
}

/// What a gate finds in a knock that was sealed with a token: as of a client's, but
/// under the token's id, and authenticated by the token's secret.
pub open spec fn fresh_token_knock(
    r: Result<Opened, OpenError>,
    gate_id: Seq<u8>,
    ports: Seq<u16>,
    token_id: Seq<u8>,
    secret: Seq<u8>,
) -> bool {
    r matches Ok(opened) && {
        &&& opened.auth.gate_id@ == gate_id
        &&& opened.auth.ports@ == ports
        &&& opened.auth.key_thumbprint@ == token_id
        &&& opened.auth.signature@ == primitives::hmac_sha512(secret, opened.signing_bytes@)
        &&& primitives::drawn(16, opened.auth.nonce@)
        &&& exists|nanos: u128| #[trigger]
            crate::adapters::wall_clock_told(Some(nanos)) && opened.auth.timestamp_nanos == nanos
                % 0x1_0000_0000_0000_0000
    }
}

/// A client made of its material knocks, with that material, at a gate that holds
/// the private half of the key it was given.
pub proof fn law_client_knocks_with_its_material(
    suite: Suite,
    gate_key: Vec<u8>,
    gate_id: [u8; GATE_ID_LEN],
    pkcs8: &[u8],
    knocker: Knocker,
    ports: &[u16],
    packet: Vec<u8>,
    raw: &[u8],
    gate: GateKeypair,
    received: &[u8],
    r: Result<Opened, OpenError>,
)
    requires
        call_ensures(
            Knocker::new,
            (suite, gate_key, gate_id, pkcs8),
            Ok::<Knocker, Error>(knocker),
        ),
        call_ensures(Knocker::seal, (&knocker, ports), Ok::<Vec<u8>, Error>(packet)),
        call_ensures(
            GateKeypair::from_raw_private,
            (suite, raw),
            Ok::<GateKeypair, CryptoError>(gate),
        ),
        gate_public(suite, raw@) == Some(gate_key@),
        received@ == packet@,
        call_ensures(<GateKeypair as Crypto>::open, (&gate, received), r),
    ensures
        fresh_knock(r, suite, gate_id@, ports@, pkcs8@),
{
    crate::guarantees::sealing::law_knock_is_fresh(&knocker, ports, packet, &gate, received, r);
}

/// A client is made of any material whose signing key can be read.
pub proof fn law_new_knocker(
    suite: Suite,
    gate_key: Vec<u8>,
    gate_id: [u8; GATE_ID_LEN],
    pkcs8: &[u8],
    r: Result<Knocker, Error>,
)
    requires
        call_ensures(Knocker::new, (suite, gate_key, gate_id, pkcs8), r),
    ensures
        r is Ok == client_public(suite, pkcs8@) is Some,
        r is Err ==> r->Err_0 == Error::Crypto(CryptoError::Key),
{
}

/// A token's knock is made of its material.
pub proof fn law_token_knocks_with_its_material(
    suite: Suite,
    gate_key: Vec<u8>,
    gate_id: [u8; GATE_ID_LEN],
    token_id: [u8; THUMBPRINT_LEN],
    secret: Vec<u8>,
    enroller: Enroller,
    ports: &[u16],
    packet: Vec<u8>,
    raw: &[u8],
    gate: GateKeypair,
    received: &[u8],
    r: Result<Opened, OpenError>,
)
    requires
        call_ensures(Enroller::new, (suite, gate_key, gate_id, token_id, secret), enroller),
        call_ensures(Enroller::seal, (&enroller, ports), Ok::<Vec<u8>, Error>(packet)),
        call_ensures(
            GateKeypair::from_raw_private,
            (suite, raw),
            Ok::<GateKeypair, CryptoError>(gate),
        ),
        gate_public(suite, raw@) == Some(gate_key@),
        received@ == packet@,
        call_ensures(<GateKeypair as Crypto>::open, (&gate, received), r),
    ensures
        fresh_token_knock(r, gate_id@, ports@, token_id@, secret@),
{
    enroller.lemma_gate_is_material();
    crate::guarantees::sealing::law_token_knock_is_fresh(
        &enroller,
        ports,
        packet,
        &gate,
        received,
        r,
    );
}

/// What is read of a key is what belongs to it.
pub proof fn law_client_key_parts(
    suite: Suite,
    pkcs8: &[u8],
    key: ClientKey,
    document: Result<Vec<u8>, CryptoError>,
    public: &[u8],
    thumbprint: &[u8; THUMBPRINT_LEN],
)
    requires
        call_ensures(ClientKey::from_pkcs8, (suite, pkcs8), Ok::<ClientKey, CryptoError>(key)),
        call_ensures(ClientKey::to_pkcs8, (&key,), document),
        call_ensures(ClientKey::public_key, (&key,), public),
        call_ensures(ClientKey::thumbprint, (&key,), thumbprint),
    ensures
        document is Ok,
        document->Ok_0@ == pkcs8@,
        client_public(suite, pkcs8@) == Some(public@),
        thumbprint@ == primitives::sha256(public@),
{
}

/// A message that a client signs is signed with its key.
pub proof fn law_sign_detached(
    suite: Suite,
    pkcs8: &[u8],
    key: ClientKey,
    message: &[u8],
    r: Result<Vec<u8>, CryptoError>,
)
    requires
        call_ensures(ClientKey::from_pkcs8, (suite, pkcs8), Ok::<ClientKey, CryptoError>(key)),
        call_ensures(ClientKey::sign_detached, (&key, message), r),
    ensures
        r is Err ==> r->Err_0 == CryptoError::Sign,
        r is Ok ==> r->Ok_0@.len() == 64 && crate::guarantees::sealing::valid(
            suite,
            client_public(suite, pkcs8@)->0,
            message@,
            r->Ok_0@,
        ),
        suite == Suite::Modern ==> match primitives::ed25519_signature(pkcs8@, message@) {
            Some(signature) => r is Ok && r->Ok_0@ == signature,
            None => r is Err,
        },
{
}

/// A gate's public key is that of its private one.
pub proof fn law_gate_public_key(suite: Suite, raw: &[u8], gate: GateKeypair, public: &[u8])
    requires
        call_ensures(
            GateKeypair::from_raw_private,
            (suite, raw),
            Ok::<GateKeypair, CryptoError>(gate),
        ),
        call_ensures(GateKeypair::public_key, (&gate,), public),
    ensures
        gate_public(suite, raw@) == Some(public@),
{
}

/// A generated gate key is the drawn one, and reads back.
pub proof fn law_generated_gate_key(
    suite: Suite,
    gate: GateKeypair,
    raw: Vec<u8>,
    public: &[u8],
)
    requires
        call_ensures(
            GateKeypair::generate_raw,
            (suite,),
            Ok::<(GateKeypair, Vec<u8>), CryptoError>((gate, raw)),
        ),
        call_ensures(GateKeypair::public_key, (&gate,), public),
    ensures
        gate_public(suite, raw@) == Some(public@),
        raw@.len() == 32,
        suite == Suite::Fips ==> primitives::p256_drawn(raw@),
        suite == Suite::Modern ==> primitives::x25519_drawn(raw@),
{
}

/// A nonce and a time make a knock fresh as they are; a draw that failed is reported
/// before a clock that cannot be read.
pub proof fn law_fresh_from(
    drawn: Option<[u8; NONCE_LEN]>,
    nanos: Option<u128>,
    r: Result<Freshness, Error>,
)
    requires
        call_ensures(fresh_from, (drawn, nanos), r),
    ensures
        r is Ok == (drawn is Some && nanos is Some),
        r is Ok ==> r->Ok_0.nonce@ == drawn->0@ && r->Ok_0.timestamp_nanos == nanos->0
            % 0x1_0000_0000_0000_0000,
        r is Err ==> r->Err_0@ == ErrorView::Format(
            if drawn is None {
                "rng failed"@
            } else {
                "system clock before epoch"@
            },
        ),
{
}

/// What the `key=value` text says for a key is good hexadecimal.
pub open spec fn field_good(text: Seq<char>, key: Seq<char>, wanted: Option<int>) -> bool {
    crate::text::value_in(text, key) matches Some(value) && crate::guarantees::files::good(
        value,
        wanted,
    )
}

/// What is said of a field that is not: that it is missing, is no hexadecimal, or
/// has another length.
pub open spec fn field_faults(
    text: Seq<char>,
    key: Seq<char>,
    wanted: Option<int>,
    e: ErrorView,
) -> bool {
    match crate::text::value_in(text, key) {
        None => e == ErrorView::Format("missing "@ + key),
        Some(value) => match hexcode::unhexed(value) {
            Err(why) => e == ErrorView::Format("bad hex: "@ + why.words()),
            Ok(bytes) => e == ErrorView::Format(
                "expected "@ + crate::text::decimal(wanted->0 as nat) + " bytes, got "@
                    + crate::text::decimal(bytes.len()),
            ),
        },
    }
}

/// The text says these bytes for a key.
pub open spec fn field_holds(text: Seq<char>, key: Seq<char>, bytes: Seq<u8>) -> bool {
    crate::text::value_in(text, key) matches Some(value) && crate::guarantees::files::holds(
        value,
        bytes,
    )
}

/// The text names this suite.
pub open spec fn names(text: Seq<char>, suite: Suite) -> bool {
    crate::text::value_in(text, "suite"@) == Some(
        match suite {
            Suite::Fips => "fips"@,
            Suite::Modern => "modern"@,
        },
    )
}

/// What is said of a text that names no suite.
pub open spec fn suite_faults(text: Seq<char>, e: ErrorView) -> bool {
    match crate::text::value_in(text, "suite"@) {
        None => e == ErrorView::Format("missing "@ + "suite"@),
        Some(name) => e == ErrorView::Format(
            "unknown suite "@ + crate::text::quoted(name) + " (use fips|modern)"@,
        ),
    }
}

/// The text says this port.
pub open spec fn port_holds(text: Seq<char>, port: u16) -> bool {
    crate::text::value_in(text, "port"@) matches Some(value) && crate::text::parsed_u16(value)
        == Some(port)
}

/// What is said of a text that gives no port.
pub open spec fn port_faults(text: Seq<char>, e: ErrorView) -> bool {
    match crate::text::value_in(text, "port"@) {
        None => e == ErrorView::Format("missing "@ + "port"@),
        Some(_) => e == ErrorView::Format("invalid port"@),
    }
}

/// A `.knock` text gives a client its suite, its gate's key and id, its own key, and
/// the port that it asks for; or the first of them that is wrong is reported.
pub proof fn law_knock_text(text: &str, r: Result<(Knocker, Vec<u16>), Error>)
    requires
        call_ensures(Knocker::from_knock_text, (text,), r),
    ensures
        match r {
            Ok((knocker, ports)) => {
                &&& names(text@, knocker.key().key_suite())
                &&& field_holds(text@, "gate_pubkey_hex"@, knocker.gate_public())
                &&& field_holds(text@, "gate_id_hex"@, knocker.gate()@)
                &&& field_holds(text@, "client_pkcs8_hex"@, knocker.key().key_pkcs8())
                &&& ports@.len() == 1 && port_holds(text@, ports@[0])
            },
            Err(e) => {
                let fips = names(text@, Suite::Fips);
                let modern = names(text@, Suite::Modern);
                if !fips && !modern {
                    suite_faults(text@, e@)
                } else if !field_good(text@, "gate_pubkey_hex"@, None) {
                    field_faults(text@, "gate_pubkey_hex"@, None, e@)
                } else if !field_good(text@, "gate_id_hex"@, Some(16)) {
                    field_faults(text@, "gate_id_hex"@, Some(16), e@)
                } else if !field_good(text@, "client_pkcs8_hex"@, None) {
                    field_faults(text@, "client_pkcs8_hex"@, None, e@)
                } else if e@ == ErrorView::Crypto(CryptoError::Key) {
                    forall|pkcs8: Seq<u8>| #[trigger]
                        field_holds(text@, "client_pkcs8_hex"@, pkcs8) ==> client_public(
                            if fips {
                                Suite::Fips
                            } else {
                                Suite::Modern
                            },
                            pkcs8,
                        ) is None
                } else {
                    port_faults(text@, e@) && forall|port: u16| !(#[trigger] port_holds(text@, port))
                }
            },
        },
{
    crate::config::law_suite_named(Suite::Modern);
    crate::config::law_suite_named(Suite::Fips);
}

/// A client read from a `.knock` text knocks with what the text says.
pub proof fn law_client_from_text_knocks(
    text: &str,
    knocker: Knocker,
    asked: Vec<u16>,
    ports: &[u16],
    packet: Vec<u8>,
    suite: Suite,
    raw: &[u8],
    gate: GateKeypair,
    received: &[u8],
    r: Result<Opened, OpenError>,
)
    requires
        call_ensures(
            Knocker::from_knock_text,
            (text,),
            Ok::<(Knocker, Vec<u16>), Error>((knocker, asked)),
        ),
        ports@ == asked@,
        call_ensures(Knocker::seal, (&knocker, ports), Ok::<Vec<u8>, Error>(packet)),
        names(text@, suite),
        call_ensures(
            GateKeypair::from_raw_private,
            (suite, raw),
            Ok::<GateKeypair, CryptoError>(gate),
        ),
        gate_public(suite, raw@) is Some,
        field_holds(text@, "gate_pubkey_hex"@, gate_public(suite, raw@)->0),
        received@ == packet@,
        call_ensures(<GateKeypair as Crypto>::open, (&gate, received), r),
    ensures
        exists|gate_id: Seq<u8>, pkcs8: Seq<u8>, port: u16|
            #![trigger field_holds(text@, "gate_id_hex"@, gate_id), field_holds(text@, "client_pkcs8_hex"@, pkcs8), port_holds(text@, port)]
            field_holds(text@, "gate_id_hex"@, gate_id) && field_holds(
                text@,
                "client_pkcs8_hex"@,
                pkcs8,
            ) && port_holds(text@, port) && fresh_knock(r, suite, gate_id, seq![port], pkcs8),
{
    law_knock_text(text, Ok((knocker, asked)));
    crate::config::law_suite_named(Suite::Modern);
    crate::config::law_suite_named(Suite::Fips);
    assert(knocker.key().key_suite() == suite);
    crate::guarantees::sealing::law_knock_is_fresh(&knocker, ports, packet, &gate, received, r);
    assert(asked@ =~= seq![asked@[0]]);
    assert(field_holds(text@, "gate_id_hex"@, knocker.gate()@));
    assert(field_holds(text@, "client_pkcs8_hex"@, knocker.key().key_pkcs8()));
    assert(port_holds(text@, asked@[0]));
}

/// A `.knock` and an `.enroll` text give a token's knock its suite, its gate's key
/// and id, the token's id and secret, and the port that it asks for; or the first of
/// them that is wrong is reported.
pub proof fn law_enroll_texts(knock: &str, enroll: &str, r: Result<(Enroller, Vec<u16>), Error>)
    requires
        call_ensures(Enroller::from_texts, (knock, enroll), r),
    ensures
        match r {
            Ok((enroller, ports)) => {
                &&& names(knock@, enroller.material().suite)
                &&& field_holds(knock@, "gate_pubkey_hex"@, enroller.material().gate_public)
                &&& field_holds(knock@, "gate_id_hex"@, enroller.material().gate_id)
                &&& field_holds(enroll@, "token_id_hex"@, enroller.material().token_id)
                &&& enroller.material().token_id.len() == 32
                &&& field_holds(enroll@, "secret_hex"@, enroller.material().secret)
                &&& ports@.len() == 1 && port_holds(knock@, ports@[0])
            },
            Err(e) => {
                if !names(knock@, Suite::Fips) && !names(knock@, Suite::Modern) {
                    suite_faults(knock@, e@)
                } else if !field_good(knock@, "gate_pubkey_hex"@, None) {
                    field_faults(knock@, "gate_pubkey_hex"@, None, e@)
                } else if !field_good(knock@, "gate_id_hex"@, Some(16)) {
                    field_faults(knock@, "gate_id_hex"@, Some(16), e@)
                } else if !field_good(enroll@, "token_id_hex"@, Some(32)) {
                    field_faults(enroll@, "token_id_hex"@, Some(32), e@)
                } else if !field_good(enroll@, "secret_hex"@, None) {
                    field_faults(enroll@, "secret_hex"@, None, e@)
                } else {
                    port_faults(knock@, e@) && forall|port: u16| !(#[trigger] port_holds(
                        knock@,
                        port,
                    ))
                }
            },
        },
{
    crate::config::law_suite_named(Suite::Modern);
    crate::config::law_suite_named(Suite::Fips);
}

/// A token read from texts knocks with what they say.
pub proof fn law_token_from_texts_knocks(
    knock: &str,
    enroll: &str,
    enroller: Enroller,
    asked: Vec<u16>,
    ports: &[u16],
    packet: Vec<u8>,
    suite: Suite,
    raw: &[u8],
    gate: GateKeypair,
    received: &[u8],
    r: Result<Opened, OpenError>,
)
    requires
        call_ensures(
            Enroller::from_texts,
            (knock, enroll),
            Ok::<(Enroller, Vec<u16>), Error>((enroller, asked)),
        ),
        ports@ == asked@,
        call_ensures(Enroller::seal, (&enroller, ports), Ok::<Vec<u8>, Error>(packet)),
        names(knock@, suite),
        call_ensures(
            GateKeypair::from_raw_private,
            (suite, raw),
            Ok::<GateKeypair, CryptoError>(gate),
        ),
        gate_public(suite, raw@) is Some,
        field_holds(knock@, "gate_pubkey_hex"@, gate_public(suite, raw@)->0),
        received@ == packet@,
        call_ensures(<GateKeypair as Crypto>::open, (&gate, received), r),
    ensures
        exists|gate_id: Seq<u8>, token_id: Seq<u8>, secret: Seq<u8>, port: u16|
            #![trigger field_holds(knock@, "gate_id_hex"@, gate_id), field_holds(enroll@, "token_id_hex"@, token_id), field_holds(enroll@, "secret_hex"@, secret), port_holds(knock@, port)]
            field_holds(knock@, "gate_id_hex"@, gate_id) && field_holds(
                enroll@,
                "token_id_hex"@,
                token_id,
            ) && field_holds(enroll@, "secret_hex"@, secret) && port_holds(knock@, port)
                && fresh_token_knock(r, gate_id, seq![port], token_id, secret),
{
    law_enroll_texts(knock, enroll, Ok((enroller, asked)));
    crate::config::law_suite_named(Suite::Modern);
    crate::config::law_suite_named(Suite::Fips);
    crate::guarantees::sealing::law_token_knock_is_fresh(
        &enroller,
        ports,
        packet,
        &gate,
        received,
        r,
    );
    assert(asked@ =~= seq![asked@[0]]);
    enroller.lemma_gate_is_material();
    assert(field_holds(knock@, "gate_id_hex"@, enroller.gate()@));
    assert(field_holds(enroll@, "token_id_hex"@, enroller.material().token_id));
    assert(field_holds(enroll@, "secret_hex"@, enroller.material().secret));
    assert(port_holds(knock@, asked@[0]));
}

/// A suite is parsed by its name.
pub proof fn law_parse_suite(s: &str, r: Result<Suite, Error>)
    requires
        call_ensures(parse_suite, (s,), r),
    ensures
        s@ == "fips"@ ==> r == Ok::<Suite, Error>(Suite::Fips),
        s@ == "modern"@ ==> r == Ok::<Suite, Error>(Suite::Modern),
        s@ != "fips"@ && s@ != "modern"@ ==> r is Err && r->Err_0@ == ErrorView::Format(
            "unknown suite "@ + crate::text::quoted(s@) + " (use fips|modern)"@,
        ),
{
    crate::config::law_suite_named(Suite::Modern);
}

/// Generated material, written down for the client and read back, gives the client
/// that was generated, which asks for port 9999.
pub proof fn law_generated_client_reads_back(
    material: &KeyMaterial,
    text: String,
    read: &str,
    r: Result<(Knocker, Vec<u16>), Error>,
)
    requires
        material.valid(),
        call_ensures(KeyMaterial::knock, (material,), text),
        read@ == text@,
        call_ensures(Knocker::from_knock_text, (read,), r),
    ensures
        r matches Ok((knocker, ports)) && {
            &&& knocker.key().key_suite() == material.suite
            &&& knocker.key().key_pkcs8() == material.client.key_pkcs8()
            &&& knocker.key().key_public() == material.client.key_public()
            &&& knocker.gate_public() == material.gate.gate_public()
            &&& knocker.gate()@ == material.gate_id@
            &&& ports@ == seq![9999u16]
        },
{
    crate::provision::law_knock_text_reads_back(
        material.suite,
        material.gate.gate_public(),
        material.gate_id@,
        material.client.key_pkcs8(),
    );
}

/// A generated token, written down for the client and read back beside generated
/// material, gives the token that was generated.
pub proof fn law_generated_token_reads_back(
    material: &KeyMaterial,
    token: &TokenMaterial,
    knock: String,
    enroll: String,
    k: &str,
    e: &str,
    r: Result<(Enroller, Vec<u16>), Error>,
)
    requires
        material.valid(),
        call_ensures(KeyMaterial::knock, (material,), knock),
        call_ensures(TokenMaterial::enroll, (token,), enroll),
        k@ == knock@,
        e@ == enroll@,
        call_ensures(Enroller::from_texts, (k, e), r),
    ensures
        r matches Ok((enroller, ports)) && {
            &&& enroller.material() == (EnrollerView {
                suite: material.suite,
                gate_public: material.gate.gate_public(),
                gate_id: material.gate_id@,
                token_id: token.token_id@,
                secret: token.secret@,
            })
            &&& ports@ == seq![9999u16]
        },
{
    crate::provision::law_knock_text_reads_back(
        material.suite,
        material.gate.gate_public(),
        material.gate_id@,
        material.client.key_pkcs8(),
    );
    crate::provision::law_enroll_text_reads_back(token.token_id@, token.secret@);
}

/// What the daemon is told of generated material.
pub proof fn law_gate_toml(material: &KeyMaterial, r: String)
    requires
        call_ensures(KeyMaterial::gate_toml, (material,), r),
    ensures
        r@ == "suite = \""@ + (if material.suite == Suite::Fips {
            "fips"@
        } else {
            "modern"@
        }) + "\"\ngate_private_hex = \""@ + hexcode::hexed(material.gate_private@)
            + "\"\ngate_id_hex = \""@ + hexcode::hexed(material.gate_id@)
            + "\"\n\n[[client]]\nthumbprint_hex = \""@ + hexcode::hexed(
            material.client.key_thumbprint(),
        ) + "\"\npublic_key_hex = \""@ + hexcode::hexed(material.client.key_public())
            + "\"\nports = ["@ + crate::text::decimal(9999) + "]\n"@,
{
}

/// What the daemon is told of a generated token.
pub proof fn law_token_toml(token: &TokenMaterial, r: String)
    requires
        call_ensures(TokenMaterial::token_toml, (token,), r),
    ensures
        r@ == "[[token]]\ntoken_id_hex = \""@ + hexcode::hexed(token.token_id@)
            + "\"\nsecret_hex = \""@ + hexcode::hexed(token.secret@) + "\"\nports = ["@
            + crate::text::decimal(9999) + "]\n"@,
{
}

/// Draws that succeeded give what was drawn; the first that failed is reported.
pub proof fn law_draws(
    id: Result<[u8; THUMBPRINT_LEN], Error>,
    secret: Result<[u8; SECRET_LEN], Error>,
    r: Result<TokenMaterial, Error>,
    drawn: Option<Vec<u8>>,
    out: Result<[u8; GATE_ID_LEN], Error>,
)
    requires
        call_ensures(TokenMaterial::from_draws, (id, secret), r),
        call_ensures(drawn_array::<GATE_ID_LEN>, (drawn,), out),
    ensures
        r is Ok == (id is Ok && secret is Ok),
        r is Ok ==> r->Ok_0.token_id@ == id->Ok_0@ && r->Ok_0.secret@ == secret->Ok_0@,
        r is Err ==> r->Err_0 == if id is Err {
            id->Err_0
        } else {
            secret->Err_0
        },
        out is Ok == drawn is Some,
        out is Ok ==> out->Ok_0@ == drawn->0@,
        out is Err ==> out->Err_0@ == ErrorView::Format("rng failed"@),
{
}

/// A key that is written to a file is read back from it, with white space around it
/// or not.
pub proof fn law_key_file(
    key: &[u8],
    text: String,
    before: Seq<char>,
    behind: Seq<char>,
    file: &str,
    r: Result<Vec<u8>, HexError>,
)
    requires
        call_ensures(write_key, (key,), text),
        file@ == before + text@ + behind,
        crate::guarantees::reading::blank_between(before, 0, before.len() as int),
        crate::guarantees::reading::blank_between(behind, 0, behind.len() as int),
        call_ensures(read_key, (file,), r),
    ensures
        text@ == hexcode::hexed(key@),
        r is Ok,
        r->Ok_0@ == key@,
{
    let s = file@;
    let (a, b) = (before.len() as int, (before.len() + text@.len()) as int);
    hexcode::lemma_hexed_chars(key@);
    assert forall|i: int| 0 <= i < a implies crate::guarantees::reading::blank(
        #[trigger] s[i],
    ) by {
        assert(before[i] == s[i]);
    }
    assert forall|i: int| b <= i < s.len() implies crate::guarantees::reading::blank(
        #[trigger] s[i],
    ) by {
        assert(behind[i - b] == s[i]);
    }
    if a < b {
        assert(s[a] == hexcode::hexed(key@)[0]);
        assert(s[b - 1] == hexcode::hexed(key@)[b - 1 - a]);
    }
    assert(crate::guarantees::reading::core_between(s, a, b));
    assert(s.subrange(a, b) =~= text@);
    crate::guarantees::reading::lemma_trims_once(s, text@);
    hexcode::law_decode_inverts_encode(key@);
}

/// A gate is provisioned with what the arguments say, one after the other.
pub proof fn law_provision_from_args(
    args: &[String],
    suite: Option<&str>,
    port: Option<&str>,
    r: Result<Provision, ProvisionError>,
)
    requires
        call_ensures(Provision::from_args, (args, suite, port), r),
    ensures
        ({
            let name = if suite is Some {
                suite->0@
            } else {
                "modern"@
            };
            if args@.len() < 5 {
                r is Err && r->Err_0 is Usage
            } else if name != "fips"@ && name != "modern"@ {
                r is Err && r->Err_0 is UnknownSuite && r->Err_0->UnknownSuite_0@ == name
            } else {
                r matches Ok(p) && {
                    &&& p.suite == (if name == "fips"@ {
                        Suite::Fips
                    } else {
                        Suite::Modern
                    })
                    &&& p.interface@ == args@[0]@
                    &&& p.bpf_object@ == args@[1]@
                    &&& p.url@ == args@[2]@
                    &&& p.gate_token@ == args@[3]@
                    &&& p.address@ == args@[4]@
                    &&& p.ca_cert is Some == (args@.len() > 5)
                    &&& p.ca_cert is Some ==> p.ca_cert->0@ == args@[5]@
                    &&& p.knock_port == (if port is Some && crate::text::parsed_u16(
                        port->0@,
                    ) is Some {
                        crate::text::parsed_u16(port->0@)->0
                    } else {
                        62201
                    })
                }
            }
        }),
{
    crate::config::law_suite_named(Suite::Modern);
}

/// The file of a provisioned gate.
pub proof fn law_gated_toml(p: &Provision, private: &[u8], r: String)
    requires
        call_ensures(Provision::gated_toml, (p, private), r),
    ensures
        r@ == "interface = \""@ + p.interface@ + "\"\nknock_port = "@ + crate::text::decimal(
            p.knock_port as nat,
        ) + "\nbpf_object = \""@ + p.bpf_object@
            + "\"\npinhole_ms = 2000\nskew_seconds = 2\nbundle_path = \"/etc/spa/bundle.spa\"\nsuite = \""@
            + (if p.suite == Suite::Fips {
            "fips"@
        } else {
            "modern"@
        }) + "\"\ngate_private_hex = \""@ + hexcode::hexed(private@)
            + "\"\n\n[control_plane]\nurl        = \""@ + p.url@ + "\"\ngate_token = \""@
            + p.gate_token@ + "\"\naddress    = \""@ + p.address@ + "\"\n"@ + (if p.ca_cert is Some {
            "ca_cert    = \""@ + p.ca_cert->0@ + "\"\n"@
        } else {
            Seq::empty()
        }),
{
}

/// A provisioned gate's file holds a private key that was drawn.
pub proof fn law_provisioned_key_is_drawn(p: &Provision, text: String)
    requires
        call_ensures(Provision::generate, (p,), Ok::<String, Error>(text)),
    ensures
        exists|private: Seq<u8>| #[trigger]
            gate_public(p.suite, private) is Some && private.len() == 32 && (if p.suite
                == Suite::Fips {
                primitives::p256_drawn(private)
            } else {
                primitives::x25519_drawn(private)
            }) && text@ == p.gated_toml_text(private),
{
    let private = choose|private: Seq<u8>|
        private.len() == 32 && crate::envelope::agreement_public(p.suite, private) is Some
            && crate::envelope::agreement_drawn(p.suite, private) && text@
            == #[trigger] p.gated_toml_text(private);
    assert(gate_public(p.suite, private) is Some);
}

/// Knocks for an endpoint go to its gate, at an address that is bracketed if it
/// holds a colon, with the endpoint's suite, key and id.
pub proof fn law_endpoint_knocker(
    endpoint: &Endpoint,
    pkcs8: &[u8],
    r: Result<(Knocker, String), Error>,
)
    requires
        call_ensures(Endpoint::knocker, (endpoint, pkcs8), r),
    ensures
        ({
            let d = endpoint.descriptor;
            let suite = if d.suite@ == "fips"@ {
                Suite::Fips
            } else {
                Suite::Modern
            };
            match r {
                Ok((knocker, target)) => {
                    &&& d.suite@ == "fips"@ || d.suite@ == "modern"@
                    &&& knocker.key().key_suite() == suite
                    &&& knocker.key().key_pkcs8() == pkcs8@
                    &&& client_public(suite, pkcs8@) == Some(knocker.key().key_public())
                    &&& crate::guarantees::files::holds(d.gate_pubkey_hex@, knocker.gate_public())
                    &&& crate::guarantees::files::holds(d.gate_id_hex@, knocker.gate()@)
                    &&& target@ == (if d.address@.contains(':') {
                        "["@ + d.address@ + "]"@
                    } else {
                        d.address@
                    }) + ":"@ + crate::text::decimal(d.knock_port as nat)
                },
                Err(e) => if d.suite@ != "fips"@ && d.suite@ != "modern"@ {
                    e@ == ErrorView::Format(
                        "unknown suite "@ + crate::text::quoted(d.suite@) + " (use fips|modern)"@,
                    )
                } else if hexcode::unhexed(d.gate_pubkey_hex@) is Err {
                    e@ == ErrorView::Format(hexcode::unhexed(d.gate_pubkey_hex@)->Err_0.words())
                } else if hexcode::unhexed(d.gate_id_hex@) is Err {
                    e@ == ErrorView::Format(hexcode::unhexed(d.gate_id_hex@)->Err_0.words())
                } else if hexcode::unhexed(d.gate_id_hex@)->Ok_0.len() != 16 {
                    e@ == ErrorView::Format(
                        "gate_id_hex: expected "@ + crate::text::decimal(16) + " bytes, got "@
                            + crate::text::decimal(hexcode::unhexed(d.gate_id_hex@)->Ok_0.len()),
                    )
                } else {
                    e@ == ErrorView::Crypto(CryptoError::Key) && client_public(
                        suite,
                        pkcs8@,
                    ) is None
                },
            }
        }),
{
    crate::config::law_suite_named(Suite::Modern);
    let address = endpoint.descriptor.address@;
    crate::text::lemma_first_of(address, ':');
    if let Ok((knocker, target)) = r {
        let port = crate::text::decimal(endpoint.descriptor.knock_port as nat);
        reveal_strlit("]:");
        reveal_strlit("]");
        reveal_strlit(":");
        if address.contains(':') {
            assert(target@ =~= "["@ + address + "]"@ + ":"@ + port);
        } else {
            assert(target@ =~= address + ":"@ + port) by {
                let at = crate::text::first_of(address, ':');
                if at < address.len() {
                    assert(address[at] == ':');
                }
            }
        }
    }
}

} // verus!
