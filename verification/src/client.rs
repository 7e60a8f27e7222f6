//! The knock client: open a cloaked port before connecting.
//!
//! A [`Knocker`] knocks with a client's signing key; an [`Enroller`] makes the
//! bootstrap knock of an endpoint that has no registered key yet, with a one-time
//! token.

use vstd::prelude::*;
use vstd::string::*;

use crate::adapters::{to_timestamp, unix_nanos};
use crate::bytes::to_array;
use crate::config::find_suite;
use crate::envelope::CryptoError;
use crate::hexcode;
use crate::identity::{seal_psk, ClientKey, KnockRequest};
use crate::primitives;
use crate::text::{
    from_chars, get_value, parse_u16, push_decimal, quote, read_kv, Entry,
};
use crate::wire::{Suite, GATE_ID_LEN, NONCE_LEN, THUMBPRINT_LEN};

verus! {

/// Milliseconds to wait after a knock before connecting, so that its gate can
/// program its allow-list first.
pub const KNOCK_GRACE_MS: u64 = 30;

/// Errors from building or sending a knock.
#[derive(Debug)]
pub enum Error {
    Crypto(CryptoError),
    /// Reading or sending failed; the words are the system's.
    Io(String),
    Format(String),
    /// Knocks were sent but the target was still unreachable; the words are
    /// those of the last attempt to connect.
    Unreachable(String),
}

/// What an [`Error`] says.
pub enum ErrorView {
    Crypto(CryptoError),
    Io(Seq<char>),
    Format(Seq<char>),
    Unreachable(Seq<char>),
}

impl View for Error {
    type V = ErrorView;

    open spec fn view(&self) -> ErrorView {
        match self {
            Error::Crypto(e) => ErrorView::Crypto(*e),
            Error::Io(words) => ErrorView::Io(words@),
            Error::Format(words) => ErrorView::Format(words@),
            Error::Unreachable(words) => ErrorView::Unreachable(words@),
        }
    }
}

/// The name of a sealing error.
pub open spec fn crypto_words(e: CryptoError) -> Seq<char> {
    match e {
        CryptoError::Key => "Key"@,
        CryptoError::Sign => "Sign"@,
        CryptoError::Encode => "Encode"@,
        CryptoError::Crypto => "Crypto"@,
    }
}

impl ErrorView {
    /// The error in words.
    pub open spec fn words(self) -> Seq<char> {
        match self {
            ErrorView::Crypto(e) => "crypto: "@ + crypto_words(e),
            ErrorView::Io(words) => "io: "@ + words,
            ErrorView::Format(words) => words,
            ErrorView::Unreachable(words) => "unreachable after knocking: "@ + words,
        }
    }
}

impl Error {
    pub fn message(&self) -> (r: String)
        ensures
            r@ == self@.words(),
    {
        match self {
            Error::Crypto(e) => {
                let mut out = String::from_str("crypto: ");
                out.append(
                    match e {
                        CryptoError::Key => "Key",
                        CryptoError::Sign => "Sign",
                        CryptoError::Encode => "Encode",
                        CryptoError::Crypto => "Crypto",
                    },
                );
                out
            },
            Error::Io(words) => {
                let mut out = String::from_str("io: ");
                out.append(words.as_str());
                out
            },
            Error::Format(words) => String::from_str(words.as_str()),
            Error::Unreachable(words) => {
                let mut out = String::from_str("unreachable after knocking: ");
                out.append(words.as_str());
                out
            },
        }
    }
}

/// What parsing a suite's name gives.
pub open spec fn suite_parsed(name: Seq<char>) -> Result<Suite, ErrorView> {
    match crate::config::suite_named(name) {
        Some(suite) => Ok(suite),
        None => Err(
            ErrorView::Format(
                "unknown suite "@ + crate::text::quoted(name) + " (use fips|modern)"@,
            ),
        ),
    }
}

/// Parse a cipher-suite name, `fips` or `modern`.
pub fn parse_suite(s: &str) -> (r: Result<Suite, Error>)
    ensures
        match r {
            Ok(suite) => suite_parsed(s@) == Ok::<Suite, ErrorView>(suite),
            Err(e) => suite_parsed(s@) == Err::<Suite, ErrorView>(e@),
        },
{
    match find_suite(s) {
        Some(suite) => Ok(suite),
        None => {
            let mut words = String::from_str("unknown suite ");
            words.append(quote(s).as_str());
            words.append(" (use fips|modern)");
            Err(Error::Format(words))
        },
    }
}

/// The value for `key` in a `key=value` text.
pub open spec fn required(text: Seq<char>, key: Seq<char>) -> Result<Seq<char>, ErrorView> {
    match crate::text::value_in(text, key) {
        Some(value) => Ok(value),
        None => Err(ErrorView::Format("missing "@ + key)),
    }
}

/// The bytes that a hexadecimal text spells.
pub open spec fn hex_bytes(text: Seq<char>) -> Result<Seq<u8>, ErrorView> {
    match hexcode::unhexed(text) {
        Ok(bytes) => Ok(bytes),
        Err(e) => Err(ErrorView::Format("bad hex: "@ + e.words())),
    }
}

/// The `n` bytes that a hexadecimal text spells.
pub open spec fn hex_exactly(text: Seq<char>, n: nat) -> Result<Seq<u8>, ErrorView> {
    match hex_bytes(text) {
        Ok(bytes) => if bytes.len() == n {
            Ok(bytes)
        } else {
            Err(
                ErrorView::Format(
                    "expected "@ + crate::text::decimal(n) + " bytes, got "@ + crate::text::decimal(
                        bytes.len(),
                    ),
                ),
            )
        },
        Err(e) => Err(e),
    }
}

/// The suite that a text gives.
pub open spec fn suite_in(text: Seq<char>) -> Result<Suite, ErrorView> {
    match required(text, "suite"@) {
        Ok(name) => suite_parsed(name),
        Err(e) => Err(e),
    }
}

/// The bytes that a text gives for `key`.
pub open spec fn bytes_in(text: Seq<char>, key: Seq<char>) -> Result<Seq<u8>, ErrorView> {
    match required(text, key) {
        Ok(value) => hex_bytes(value),
        Err(e) => Err(e),
    }
}

/// The `n` bytes that a text gives for `key`.
pub open spec fn exactly_in(text: Seq<char>, key: Seq<char>, n: nat) -> Result<
    Seq<u8>,
    ErrorView,
> {
    match required(text, key) {
        Ok(value) => hex_exactly(value, n),
        Err(e) => Err(e),
    }
}

/// The port that a text gives.
pub open spec fn port_in(text: Seq<char>) -> Result<u16, ErrorView> {
    match required(text, "port"@) {
        Ok(value) => match crate::text::parsed_u16(value) {
            Some(port) => Ok(port),
            None => Err(ErrorView::Format("invalid port"@)),
        },
        Err(e) => Err(e),
    }
}

fn get<'a>(kv: &'a [Entry], key: &str) -> (r: Result<&'a [char], Error>)
    ensures
        match r {
            Ok(value) => crate::text::value_among(kv@, key@) == Some(value@),
            Err(e) => crate::text::value_among(kv@, key@) is None && e@ == ErrorView::Format(
                "missing "@ + key@,
            ),
        },
{
    match get_value(kv, key) {
        Some(value) => Ok(value),
        None => {
            let mut words = String::from_str("missing ");
            words.append(key);
            Err(Error::Format(words))
        },
    }
}

fn hexd(text: &[char]) -> (r: Result<Vec<u8>, Error>)
    ensures
        match r {
            Ok(bytes) => hex_bytes(text@) == Ok::<Seq<u8>, ErrorView>(bytes@),
            Err(e) => hex_bytes(text@) == Err::<Seq<u8>, ErrorView>(e@),
        },
{
    match hexcode::decode(from_chars(text).as_str()) {
        Ok(bytes) => Ok(bytes),
        Err(e) => {
            let mut words = String::from_str("bad hex: ");
            words.append(e.message().as_str());
            Err(Error::Format(words))
        },
    }
}

fn arr<const N: usize>(text: &[char]) -> (r: Result<[u8; N], Error>)
    ensures
        match r {
            Ok(bytes) => hex_exactly(text@, N as nat) == Ok::<Seq<u8>, ErrorView>(bytes@),
            Err(e) => hex_exactly(text@, N as nat) == Err::<Seq<u8>, ErrorView>(e@),
        },
{
    let v = hexd(text)?;
    if v.len() != N {
        let mut words = String::from_str("expected ");
        push_decimal(&mut words, N as u64);
        words.append(" bytes, got ");
        push_decimal(&mut words, v.len() as u64);
        return Err(Error::Format(words));
    }
    Ok(to_array::<N>(v.as_slice()))
}

fn port(kv: &[Entry]) -> (r: Result<u16, Error>)
    ensures
        match crate::text::value_among(kv@, "port"@) {
            Some(value) => match crate::text::parsed_u16(value) {
                Some(port) => r == Ok::<u16, Error>(port),
                None => r is Err && r->Err_0@ == ErrorView::Format("invalid port"@),
            },
            None => r is Err && r->Err_0@ == ErrorView::Format("missing "@ + "port"@),
        },
{
    let value = get(kv, "port")?;
    match parse_u16(value) {
        Some(port) => Ok(port),
        None => Err(Error::Format(String::from_str("invalid port"))),
    }
}

/// What makes a knock fresh.
pub struct Freshness {
    pub nonce: [u8; NONCE_LEN],
    pub timestamp_nanos: u64,
}

impl Freshness {
    /// The nonce was drawn at random, and the time is what the system's clock told:
    /// the low-order 64 bits of its nanoseconds since the epoch.
    pub open spec fn genuine(self) -> bool {
        &&& primitives::drawn(NONCE_LEN, self.nonce@)
        &&& exists|nanos: u128| #[trigger]
            crate::adapters::wall_clock_told(Some(nanos)) && self.timestamp_nanos == nanos
                % 0x1_0000_0000_0000_0000
    }
}

/// What a draw of a nonce and a reading of the clock, in nanoseconds since the
/// epoch, make: a draw that failed is reported first.
pub fn fresh_from(drawn: Option<[u8; NONCE_LEN]>, nanos: Option<u128>) -> (r: Result<
    Freshness,
    Error,
>)
    ensures
        match (drawn, nanos) {
            (Some(nonce), Some(nanos)) => r is Ok && r->Ok_0.nonce == nonce
                && r->Ok_0.timestamp_nanos == crate::adapters::timestamp(nanos),
            (Some(_), None) => r is Err && r->Err_0@ == ErrorView::Format(
                "system clock before epoch"@,
            ),
            (None, _) => r is Err && r->Err_0@ == ErrorView::Format("rng failed"@),
        },
{
    match drawn {
        None => Err(Error::Format(String::from_str("rng failed"))),
        Some(nonce) => match nanos {
            None => Err(Error::Format(String::from_str("system clock before epoch"))),
            Some(nanos) => Ok(Freshness { nonce, timestamp_nanos: to_timestamp(nanos) }),
        },
    }
}

/// A fresh nonce and the current time.
fn freshness() -> (r: Result<Freshness, Error>)
    ensures
        match r {
            Ok(fresh) => fresh.genuine(),
            Err(e) => e@ == ErrorView::Format("rng failed"@) && primitives::draw_failed(NONCE_LEN)
                || e@ == ErrorView::Format("system clock before epoch"@)
                && crate::adapters::wall_clock_told(None),
        },
{
    proof {
        primitives::law_drawn_is_what_was_returned();
    }
    let drawn = match primitives::random_bytes(NONCE_LEN) {
        Some(bytes) => Some(to_array::<NONCE_LEN>(bytes.as_slice())),
        None => None,
    };
    let nanos = unix_nanos();
    proof {
        crate::adapters::law_wall_clock_told_is_a_reading(nanos);
    }
    fresh_from(drawn, nanos)
}

/// A configured client: which gate to knock, and the identity to knock with.
pub struct Knocker {
    gate_pubkey: Vec<u8>,
    gate_id: [u8; GATE_ID_LEN],
    client: ClientKey,
}

impl Knocker {
    pub closed spec fn gate_public(self) -> Seq<u8> {
        self.gate_pubkey@
    }

    pub closed spec fn gate(self) -> [u8; GATE_ID_LEN] {
        self.gate_id
    }

    pub closed spec fn key(self) -> ClientKey {
        self.client
    }

    /// This knocker is made of the material: a gate's public key and id, and
    /// the client key as PKCS#8.
    pub open spec fn made_of(
        self,
        suite: Suite,
        gate_public: Seq<u8>,
        gate_id: Seq<u8>,
        pkcs8: Seq<u8>,
    ) -> bool {
        &&& self.gate_public() == gate_public
        &&& self.gate()@ == gate_id
        &&& self.key().key_suite() == suite
        &&& self.key().key_pkcs8() == pkcs8
        &&& self.key().matched()
    }

    /// Build from provisioned material: a gate's public key and id, and the
    /// client signing key as PKCS#8.
    pub fn new(
        suite: Suite,
        gate_pubkey: Vec<u8>,
        gate_id: [u8; GATE_ID_LEN],
        client_pkcs8: &[u8],
    ) -> (r: Result<Self, Error>)
        ensures
            match r {
                Ok(knocker) => knocker.made_of(suite, gate_pubkey@, gate_id@, client_pkcs8@),
                Err(e) => e@ == ErrorView::Crypto(CryptoError::Key)
                    && crate::envelope::signing_public(suite, client_pkcs8@) is None,
            },
    {
        match ClientKey::from_pkcs8(suite, client_pkcs8) {
            Ok(client) => Ok(Knocker { gate_pubkey, gate_id, client }),
            Err(e) => Err(Error::Crypto(e)),
        }
    }

    /// The first thing that is wrong with a `.knock` text, if anything is.
    pub open spec fn knock_error(text: Seq<char>) -> Option<ErrorView> {
        if suite_in(text) is Err {
            Some(suite_in(text)->Err_0)
        } else if bytes_in(text, "gate_pubkey_hex"@) is Err {
            Some(bytes_in(text, "gate_pubkey_hex"@)->Err_0)
        } else if exactly_in(text, "gate_id_hex"@, GATE_ID_LEN as nat) is Err {
            Some(exactly_in(text, "gate_id_hex"@, GATE_ID_LEN as nat)->Err_0)
        } else if bytes_in(text, "client_pkcs8_hex"@) is Err {
            Some(bytes_in(text, "client_pkcs8_hex"@)->Err_0)
        } else if crate::envelope::signing_public(
            suite_in(text)->Ok_0,
            bytes_in(text, "client_pkcs8_hex"@)->Ok_0,
        ) is None {
            Some(ErrorView::Crypto(CryptoError::Key))
        } else if port_in(text) is Err {
            Some(port_in(text)->Err_0)
        } else {
            None
        }
    }

    /// Load from a `.knock` text. Returns the knocker and the ports that the text
    /// requests.
    pub fn from_knock_text(text: &str) -> (r: Result<(Self, Vec<u16>), Error>)
        ensures
            match r {
                Ok((knocker, ports)) => {
                    &&& Self::knock_error(text@) is None
                    &&& knocker.made_of(
                        suite_in(text@)->Ok_0,
                        bytes_in(text@, "gate_pubkey_hex"@)->Ok_0,
                        exactly_in(text@, "gate_id_hex"@, GATE_ID_LEN as nat)->Ok_0,
                        bytes_in(text@, "client_pkcs8_hex"@)->Ok_0,
                    )
                    &&& ports@ == seq![port_in(text@)->Ok_0]
                },
                Err(e) => Self::knock_error(text@) == Some(e@),
            },
    {
        let kv = read_kv(text);
        let kv = kv.as_slice();
        let suite = parse_suite(from_chars(get(kv, "suite")?).as_str())?;
        let gate_pubkey = hexd(get(kv, "gate_pubkey_hex")?)?;
        let gate_id = arr::<GATE_ID_LEN>(get(kv, "gate_id_hex")?)?;
        let pkcs8 = hexd(get(kv, "client_pkcs8_hex")?)?;
        let knocker = Self::new(suite, gate_pubkey, gate_id, pkcs8.as_slice())?;
        let requested: u16 = port(kv)?;
        let ports: Vec<u16> = vec![requested];
        assert(ports@ =~= seq![requested]);
        Ok((knocker, ports))
    }

    /// Seal a knock that requests `ports`, with a given nonce and time.
    pub fn seal_with(&self, ports: &[u16], fresh: &Freshness) -> (r: Result<Vec<u8>, Error>)
        ensures
            match r {
                Ok(packet) => 1 <= ports@.len() <= crate::wire::MAX_PORTS && self.key().knocks(
                    self.gate_public(),
                    (KnockRequest {
                        gate_id: self.gate(),
                        ports,
                        nonce: fresh.nonce,
                        timestamp_nanos: fresh.timestamp_nanos,
                    }),
                    packet@,
                ),
                Err(e) => e@ is Crypto && (e@ == ErrorView::Crypto(CryptoError::Encode)) == !(1
                    <= ports@.len() <= crate::wire::MAX_PORTS) && e@ != ErrorView::Crypto(
                    CryptoError::Key,
                ) && (1 <= ports@.len() <= crate::wire::MAX_PORTS ==> self.knock_failed(
                    ports,
                    *fresh,
                    e@->Crypto_0,
                )),
            },
            self.key().key_suite() == Suite::Modern && 1 <= ports@.len() <= crate::wire::MAX_PORTS
                ==> (r is Err && r->Err_0@ == ErrorView::Crypto(CryptoError::Sign)) == (
            primitives::ed25519_signature(
                self.key().key_pkcs8(),
                (KnockRequest {
                    gate_id: self.gate(),
                    ports,
                    nonce: fresh.nonce,
                    timestamp_nanos: fresh.timestamp_nanos,
                }).region(self.key().key_thumbprint()),
            ) is None),
            !crate::envelope::peer_accepted(self.key().key_suite(), self.gate_public()) ==> r is Err,
    {
        match self.client.seal(
            self.gate_pubkey.as_slice(),
            self.gate_id,
            ports,
            fresh.nonce,
            fresh.timestamp_nanos,
        ) {
            Ok(packet) => Ok(packet),
            Err(e) => Err(Error::Crypto(e)),
        }
    }

    /// A knock of this knocker for `ports`, with this nonce, at this time, failed.
    pub open spec fn knock_failed(self, ports: &[u16], fresh: Freshness, e: CryptoError) -> bool {
        self.key().knock_failed(
            self.gate_public(),
            KnockRequest {
                gate_id: self.gate(),
                ports,
                nonce: fresh.nonce,
                timestamp_nanos: fresh.timestamp_nanos,
            },
            e,
        )
    }

    /// `packet` is a knock of this knocker for `ports`, with a nonce that was drawn,
    /// at a time that the clock told.
    pub open spec fn knocks_for(self, ports: &[u16], packet: Seq<u8>) -> bool {
        exists|fresh: Freshness|
            fresh.genuine() && #[trigger] self.knocks_with(ports, fresh, packet)
    }

    /// `packet` is a knock of this knocker for `ports`, with this nonce, at this
    /// time.
    pub open spec fn knocks_with(self, ports: &[u16], fresh: Freshness, packet: Seq<u8>) -> bool {
        self.key().knocks(
            self.gate_public(),
            KnockRequest {
                gate_id: self.gate(),
                ports,
                nonce: fresh.nonce,
                timestamp_nanos: fresh.timestamp_nanos,
            },
            packet,
        )
    }

    /// Seal a knock that requests `ports`, with a fresh nonce and the current
    /// time.
    pub fn seal(&self, ports: &[u16]) -> (r: Result<Vec<u8>, Error>)
        ensures
            match r {
                Ok(packet) => 1 <= ports@.len() <= crate::wire::MAX_PORTS && self.knocks_for(
                    ports,
                    packet@,
                ),
                Err(e) => {
                    ||| e@ == ErrorView::Format("rng failed"@) && primitives::draw_failed(NONCE_LEN)
                    ||| e@ == ErrorView::Format("system clock before epoch"@)
                        && crate::adapters::wall_clock_told(None)
                    ||| e@ == ErrorView::Crypto(CryptoError::Encode) && !(1 <= ports@.len()
                        <= crate::wire::MAX_PORTS)
                    ||| (e@ == ErrorView::Crypto(CryptoError::Sign) || e@ == ErrorView::Crypto(
                        CryptoError::Crypto,
                    )) && 1 <= ports@.len() <= crate::wire::MAX_PORTS && exists|fresh: Freshness|
                        fresh.genuine() && #[trigger] self.knock_failed(ports, fresh, e@->Crypto_0)
                },
            },
    {
        let fresh = freshness()?;
        match self.seal_with(ports, &fresh) {
            Ok(packet) => {
                assert(self.knocks_with(ports, fresh, packet@));
                Ok(packet)
            },
            Err(e) => {
                assert(1 <= ports@.len() <= crate::wire::MAX_PORTS ==> self.knock_failed(
                    ports,
                    fresh,
                    e@->Crypto_0,
                ));
                Err(e)
            },
        }
    }
}

/// A one-time-token enrollment client.
pub struct Enroller {
    suite: Suite,
    gate_pubkey: Vec<u8>,
    gate_id: [u8; GATE_ID_LEN],
    token_id: [u8; THUMBPRINT_LEN],
    secret: Vec<u8>,
}

/// What an [`Enroller`] is made of.
#[verifier::ext_equal]
pub struct EnrollerView {
    pub suite: Suite,
    pub gate_public: Seq<u8>,
    pub gate_id: Seq<u8>,
    pub token_id: Seq<u8>,
    pub secret: Seq<u8>,
}

impl Enroller {
    pub closed spec fn gate(self) -> [u8; GATE_ID_LEN] {
        self.gate_id
    }

    pub closed spec fn material(self) -> EnrollerView {
        EnrollerView {
            suite: self.suite,
            gate_public: self.gate_pubkey@,
            gate_id: self.gate_id@,
            token_id: self.token_id@,
            secret: self.secret@,
        }
    }

    /// The id that a token's knock is sealed for is the one that it was given.
    pub(crate) proof fn lemma_gate_is_material(self)
        ensures
            self.gate()@ == self.material().gate_id,
    {
    }

    pub fn new(
        suite: Suite,
        gate_pubkey: Vec<u8>,
        gate_id: [u8; GATE_ID_LEN],
        token_id: [u8; THUMBPRINT_LEN],
        secret: Vec<u8>,
    ) -> (r: Self)
        ensures
            r.material() == (EnrollerView {
                suite,
                gate_public: gate_pubkey@,
                gate_id: gate_id@,
                token_id: token_id@,
                secret: secret@,
            }),
    {
        Enroller { suite, gate_pubkey, gate_id, token_id, secret }
    }

    /// The first thing that is wrong with a `.knock` text and an `.enroll` text,
    /// if anything is.
    pub open spec fn enroll_error(knock: Seq<char>, enroll: Seq<char>) -> Option<ErrorView> {
        if suite_in(knock) is Err {
            Some(suite_in(knock)->Err_0)
        } else if bytes_in(knock, "gate_pubkey_hex"@) is Err {
            Some(bytes_in(knock, "gate_pubkey_hex"@)->Err_0)
        } else if exactly_in(knock, "gate_id_hex"@, GATE_ID_LEN as nat) is Err {
            Some(exactly_in(knock, "gate_id_hex"@, GATE_ID_LEN as nat)->Err_0)
        } else if exactly_in(enroll, "token_id_hex"@, THUMBPRINT_LEN as nat) is Err {
            Some(exactly_in(enroll, "token_id_hex"@, THUMBPRINT_LEN as nat)->Err_0)
        } else if bytes_in(enroll, "secret_hex"@) is Err {
            Some(bytes_in(enroll, "secret_hex"@)->Err_0)
        } else if port_in(knock) is Err {
            Some(port_in(knock)->Err_0)
        } else {
            None
        }
    }

    /// Gate material from a `.knock` text, the one-time token from an `.enroll`
    /// text.
    pub fn from_texts(knock: &str, enroll: &str) -> (r: Result<(Self, Vec<u16>), Error>)
        ensures
            match r {
                Ok((enroller, ports)) => {
                    &&& Self::enroll_error(knock@, enroll@) is None
                    &&& enroller.material() == (EnrollerView {
                        suite: suite_in(knock@)->Ok_0,
                        gate_public: bytes_in(knock@, "gate_pubkey_hex"@)->Ok_0,
                        gate_id: exactly_in(knock@, "gate_id_hex"@, GATE_ID_LEN as nat)->Ok_0,
                        token_id: exactly_in(
                            enroll@,
                            "token_id_hex"@,
                            THUMBPRINT_LEN as nat,
                        )->Ok_0,
                        secret: bytes_in(enroll@, "secret_hex"@)->Ok_0,
                    })
                    &&& ports@ == seq![port_in(knock@)->Ok_0]
                },
                Err(e) => Self::enroll_error(knock@, enroll@) == Some(e@),
            },
    {
        let g = read_kv(knock);
        let g = g.as_slice();
        let t = read_kv(enroll);
        let t = t.as_slice();
        let suite = parse_suite(from_chars(get(g, "suite")?).as_str())?;
        let gate_pubkey = hexd(get(g, "gate_pubkey_hex")?)?;
        let gate_id = arr::<GATE_ID_LEN>(get(g, "gate_id_hex")?)?;
        let token_id = arr::<THUMBPRINT_LEN>(get(t, "token_id_hex")?)?;
        let secret = hexd(get(t, "secret_hex")?)?;
        let enroller = Self::new(suite, gate_pubkey, gate_id, token_id, secret);
        let requested: u16 = port(g)?;
        let ports: Vec<u16> = vec![requested];
        assert(ports@ =~= seq![requested]);
        Ok((enroller, ports))
    }

    /// `packet` is this token's knock for `ports`, with this nonce, at this time:
    /// authenticated by the token's secret and sealed to its gate.
    pub open spec fn knocks_with(self, ports: &[u16], fresh: Freshness, packet: Seq<u8>) -> bool {
        let request = KnockRequest {
            gate_id: self.gate(),
            ports,
            nonce: fresh.nonce,
            timestamp_nanos: fresh.timestamp_nanos,
        };
        crate::envelope::carries(
            self.material().suite,
            self.material().gate_public,
            packet,
            request.signed(
                self.material().token_id,
                primitives::hmac_sha512(
                    self.material().secret,
                    request.region(self.material().token_id),
                ),
            ),
        )
    }

    /// This token's knock for `ports`, with this nonce, at this time, could not be
    /// sealed.
    pub open spec fn knock_failed(self, ports: &[u16], fresh: Freshness) -> bool {
        let request = KnockRequest {
            gate_id: self.gate(),
            ports,
            nonce: fresh.nonce,
            timestamp_nanos: fresh.timestamp_nanos,
        };
        crate::envelope::sealing_failed(
            self.material().suite,
            self.material().gate_public,
            request.signed(
                self.material().token_id,
                primitives::hmac_sha512(
                    self.material().secret,
                    request.region(self.material().token_id),
                ),
            ).encoding(),
        )
    }

    /// Seal the enrollment knock, with a given nonce and time.
    pub fn seal_with(&self, ports: &[u16], fresh: &Freshness) -> (r: Result<Vec<u8>, Error>)
        ensures
            match r {
                Ok(packet) => 1 <= ports@.len() <= crate::wire::MAX_PORTS && self.knocks_with(
                    ports,
                    *fresh,
                    packet@,
                ),
                Err(e) => e@ == ErrorView::Crypto(
                    if 1 <= ports@.len() <= crate::wire::MAX_PORTS {
                        CryptoError::Crypto
                    } else {
                        CryptoError::Encode
                    },
                ) && (1 <= ports@.len() <= crate::wire::MAX_PORTS ==> self.knock_failed(
                    ports,
                    *fresh,
                )),
            },
            !crate::envelope::peer_accepted(
                self.material().suite,
                self.material().gate_public,
            ) ==> r is Err,
    {
        let request = KnockRequest {
            gate_id: self.gate_id,
            ports,
            nonce: fresh.nonce,
            timestamp_nanos: fresh.timestamp_nanos,
        };
        match seal_psk(
            self.gate_pubkey.as_slice(),
            self.suite,
            self.secret.as_slice(),
            self.token_id,
            &request,
        ) {
            Ok(packet) => Ok(packet),
            Err(e) => Err(Error::Crypto(e)),
        }
    }

    /// Seal the enrollment knock, with a fresh nonce and the current time.
    pub fn seal(&self, ports: &[u16]) -> (r: Result<Vec<u8>, Error>)
        ensures
            match r {
                Ok(packet) => 1 <= ports@.len() <= crate::wire::MAX_PORTS && exists|
                    fresh: Freshness,
                |
                    fresh.genuine() && #[trigger] self.knocks_with(ports, fresh, packet@),
                Err(e) => {
                    ||| e@ == ErrorView::Format("rng failed"@) && primitives::draw_failed(NONCE_LEN)
                    ||| e@ == ErrorView::Format("system clock before epoch"@)
                        && crate::adapters::wall_clock_told(None)
                    ||| e@ == ErrorView::Crypto(CryptoError::Encode) && !(1 <= ports@.len()
                        <= crate::wire::MAX_PORTS)
                    ||| e@ == ErrorView::Crypto(CryptoError::Crypto) && 1 <= ports@.len()
                        <= crate::wire::MAX_PORTS && exists|fresh: Freshness|
                        fresh.genuine() && #[trigger] self.knock_failed(ports, fresh)
                },
            },
    {
        let fresh = freshness()?;
        let r = self.seal_with(ports, &fresh);
        assert(r is Err && 1 <= ports@.len() <= crate::wire::MAX_PORTS ==> self.knock_failed(
            ports,
            fresh,
        ));
        r
    }
}

/// The address to send from: any of the target's family.
pub open spec fn any_address(ipv6: bool) -> Seq<char> {
    if ipv6 {
        "[::]:0"@
    } else {
        "0.0.0.0:0"@
    }
}

/// Where to bind a socket that sends to a target of this family.
pub fn bind_address(ipv6: bool) -> (r: &'static str)
    ensures
        r@ == any_address(ipv6),
{
    if ipv6 {
        "[::]:0"
    } else {
        "0.0.0.0:0"
    }
}

/// How many attempts are left to knock and connect.
pub struct Attempts {
    left: u32,
}

/// What to do after an attempt failed.
pub enum Next {
    Again(Attempts),
    GiveUp(Error),
}

impl Attempts {
    pub closed spec fn remaining(self) -> nat {
        self.left as nat
    }

    #[verifier::type_invariant]
    spec fn some_left(self) -> bool {
        self.left >= 1
    }

    /// At least one attempt is made.
    pub fn begin(attempts: u32) -> (r: Self)
        ensures
            r.remaining() == if attempts == 0 {
                1
            } else {
                attempts as nat
            },
    {
        Attempts {
            left: if attempts == 0 {
                1
            } else {
                attempts
            },
        }
    }

    /// An attempt to connect failed, with these words: knock and connect again
    /// while attempts are left, else report the last failure.
    pub fn failed(self, words: String) -> (r: Next)
        ensures
            match r {
                Next::Again(rest) => self.remaining() > 1 && rest.remaining() == self.remaining()
                    - 1,
                Next::GiveUp(e) => self.remaining() == 1 && e@ == ErrorView::Unreachable(words@),
            },
    {
        proof {
            use_type_invariant(&self);
        }
        if self.left > 1 {
            Next::Again(Attempts { left: self.left - 1 })
        } else {
            Next::GiveUp(Error::Unreachable(words))
        }
    }
}

} // verus!
