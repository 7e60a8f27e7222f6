//! Writing keys and tokens down: the files that provision a gate and its
//! clients.

use vstd::prelude::*;
use vstd::string::*;

use crate::bytes::to_array;
use crate::client::{Error, ErrorView};
use crate::config::{
    find_suite, name_suite, Config, ConfigErrorView, EntryView, Field, RawClient, RawConfig, RawToken,
    GATE_PRIVATE_LEN,
};
use crate::envelope::{CryptoError, GateKeypair};
use crate::hexcode;
use crate::hexcode::HexError;
use crate::identity::ClientKey;
use crate::primitives;
use crate::text::{from_chars, parse_u16, push_decimal, quote, to_chars, trimmed};
use crate::wire::{Suite, GATE_ID_LEN, THUMBPRINT_LEN};

verus! {

/// The port that generated material requests.
pub const KEYGEN_PORT: u16 = 9999;

/// Length of a generated token secret.
pub const SECRET_LEN: usize = 32;

/// Knock port of a provisioned gate, where nothing else is set.
pub const DEFAULT_KNOCK_PORT: u16 = 62201;

/// What a draw of `N` bytes gives: those bytes, unless the draw failed.
pub fn drawn_array<const N: usize>(drawn: Option<Vec<u8>>) -> (r: Result<[u8; N], Error>)
    requires
        drawn is Some ==> drawn->0@.len() == N,
    ensures
        match drawn {
            Some(bytes) => r is Ok && r->Ok_0@ == bytes@,
            None => r is Err && r->Err_0@ == ErrorView::Format("rng failed"@),
        },
{
    match drawn {
        Some(bytes) => Ok(to_array::<N>(bytes.as_slice())),
        None => Err(Error::Format(String::from_str("rng failed"))),
    }
}

/// `N` random bytes.
fn random<const N: usize>() -> (r: Result<[u8; N], Error>)
    requires
        N <= 0xffff,
    ensures
        match r {
            Ok(bytes) => primitives::drawn(N, bytes@),
            Err(e) => e@ == ErrorView::Format("rng failed"@) && primitives::draw_failed(N),
        },
{
    proof {
        primitives::law_drawn_is_what_was_returned();
    }
    drawn_array::<N>(primitives::random_bytes(N))
}

/// A gate key, one client key and a gate id, freshly generated.
pub struct KeyMaterial {
    pub suite: Suite,
    pub gate: GateKeypair,
    pub gate_private: Vec<u8>,
    pub client: ClientKey,
    pub gate_id: [u8; GATE_ID_LEN],
}

/// The daemon's side of generated material.
pub open spec fn gate_toml_text(
    suite: Suite,
    gate_private: Seq<u8>,
    gate_id: Seq<u8>,
    thumbprint: Seq<u8>,
    public_key: Seq<u8>,
) -> Seq<char> {
    "suite = \""@ + crate::config::suite_name(suite) + "\"\ngate_private_hex = \""@
        + hexcode::hexed(gate_private) + "\"\ngate_id_hex = \""@ + hexcode::hexed(gate_id)
        + "\"\n\n[[client]]\nthumbprint_hex = \""@ + hexcode::hexed(thumbprint)
        + "\"\npublic_key_hex = \""@ + hexcode::hexed(public_key) + "\"\nports = ["@
        + crate::text::decimal(KEYGEN_PORT as nat) + "]\n"@
}

/// One line of a `key=value` text.
pub open spec fn kv_line(key: Seq<char>, value: Seq<char>) -> Seq<char> {
    key + "="@ + value + "\n"@
}

/// The client's side of generated material.
pub open spec fn knock_text(
    suite: Suite,
    gate_public: Seq<u8>,
    gate_id: Seq<u8>,
    pkcs8: Seq<u8>,
) -> Seq<char> {
    kv_line("suite"@, crate::config::suite_name(suite)) + kv_line(
        "gate_pubkey_hex"@,
        hexcode::hexed(gate_public),
    ) + kv_line("gate_id_hex"@, hexcode::hexed(gate_id)) + kv_line(
        "client_pkcs8_hex"@,
        hexcode::hexed(pkcs8),
    ) + kv_line("port"@, crate::text::decimal(KEYGEN_PORT as nat))
}

fn push_kv(out: &mut String, key: &str, value: &str)
    ensures
        final(out)@ == old(out)@ + kv_line(key@, value@),
{
    out.append(key);
    out.append("=");
    out.append(value);
    out.append("\n");
    assert(out@ =~= old(out)@ + kv_line(key@, value@));
}

impl KeyMaterial {
    /// The keys belong together, and to the suite, and are written as its keys
    /// are.
    pub open spec fn valid(self) -> bool {
        &&& self.gate.gate_suite() == self.suite
        &&& self.gate.matched()
        &&& self.gate_private@ == self.gate.gate_private()
        &&& self.gate_private@.len() == GATE_PRIVATE_LEN
        &&& crate::envelope::public_encoded(self.suite, self.gate.gate_public())
        &&& self.client.key_suite() == self.suite
        &&& self.client.matched()
        &&& crate::envelope::public_encoded(self.suite, self.client.key_public())
    }

    /// Generate keys for one gate and one client.
    pub fn generate(suite: Suite) -> (r: Result<KeyMaterial, Error>)
        ensures
            match r {
                Ok(m) => m.valid() && m.suite == suite && crate::envelope::agreement_drawn(
                    suite,
                    m.gate_private@,
                ) && crate::envelope::signing_drawn(suite, m.client.key_pkcs8())
                    && primitives::drawn(GATE_ID_LEN, m.gate_id@),
                Err(e) => e@ == ErrorView::Crypto(CryptoError::Key) && (
                crate::envelope::agreement_draw_failed(suite)
                    || crate::envelope::signing_draw_failed(suite)) || e@ == ErrorView::Format(
                    "rng failed"@,
                ) && primitives::draw_failed(GATE_ID_LEN),
            },
    {
        let (gate, gate_private) = match GateKeypair::generate_raw(suite) {
            Ok(pair) => pair,
            Err(e) => {
                return Err(Error::Crypto(e));
            },
        };
        let client = match ClientKey::generate(suite) {
            Ok(client) => client,
            Err(e) => {
                return Err(Error::Crypto(e));
            },
        };
        let gate_id = random::<GATE_ID_LEN>()?;
        Ok(KeyMaterial { suite, gate, gate_private, client, gate_id })
    }

    /// The daemon's crypto configuration.
    pub fn gate_toml(&self) -> (r: String)
        ensures
            r@ == gate_toml_text(
                self.suite,
                self.gate_private@,
                self.gate_id@,
                self.client.key_thumbprint(),
                self.client.key_public(),
            ),
    {
        let mut out = String::from_str("suite = \"");
        out.append(name_suite(self.suite));
        out.append("\"\ngate_private_hex = \"");
        out.append(hexcode::encode(self.gate_private.as_slice()).as_str());
        out.append("\"\ngate_id_hex = \"");
        out.append(hexcode::encode(self.gate_id.as_slice()).as_str());
        out.append("\"\n\n[[client]]\nthumbprint_hex = \"");
        out.append(hexcode::encode(self.client.thumbprint().as_slice()).as_str());
        out.append("\"\npublic_key_hex = \"");
        out.append(hexcode::encode(self.client.public_key()).as_str());
        out.append("\"\nports = [");
        push_decimal(&mut out, KEYGEN_PORT as u64);
        out.append("]\n");
        out
    }

    /// The client's knock material.
    pub fn knock(&self) -> (r: String)
        ensures
            r@ == knock_text(
                self.suite,
                self.gate.gate_public(),
                self.gate_id@,
                self.client.key_pkcs8(),
            ),
    {
        let mut out = String::new();
        push_kv(&mut out, "suite", name_suite(self.suite));
        push_kv(
            &mut out,
            "gate_pubkey_hex",
            hexcode::encode(self.gate.public_key()).as_str(),
        );
        push_kv(&mut out, "gate_id_hex", hexcode::encode(self.gate_id.as_slice()).as_str());
        let pkcs8 = match self.client.to_pkcs8() {
            Ok(pkcs8) => pkcs8,
            Err(_) => Vec::new(),
        };
        push_kv(&mut out, "client_pkcs8_hex", hexcode::encode(pkcs8.as_slice()).as_str());
        let mut port = String::new();
        push_decimal(&mut port, KEYGEN_PORT as u64);
        assert(port@ =~= crate::text::decimal(KEYGEN_PORT as nat));
        push_kv(&mut out, "port", port.as_str());
        assert(out@ =~= knock_text(
            self.suite,
            self.gate.gate_public(),
            self.gate_id@,
            self.client.key_pkcs8(),
        ));
        out
    }
}

/// A one-time enrollment token, freshly generated.
pub struct TokenMaterial {
    pub token_id: [u8; THUMBPRINT_LEN],
    pub secret: [u8; SECRET_LEN],
}

/// The daemon's side of a token.
pub open spec fn token_toml_text(token_id: Seq<u8>, secret: Seq<u8>) -> Seq<char> {
    "[[token]]\ntoken_id_hex = \""@ + hexcode::hexed(token_id) + "\"\nsecret_hex = \""@
        + hexcode::hexed(secret) + "\"\nports = ["@ + crate::text::decimal(KEYGEN_PORT as nat)
        + "]\n"@
}

/// The client's side of a token.
pub open spec fn enroll_text(token_id: Seq<u8>, secret: Seq<u8>) -> Seq<char> {
    kv_line("token_id_hex"@, hexcode::hexed(token_id)) + kv_line(
        "secret_hex"@,
        hexcode::hexed(secret),
    )
}

/// Draw a token's id.
fn draw_token_id() -> (r: Result<[u8; THUMBPRINT_LEN], Error>)
    ensures
        match r {
            Ok(bytes) => primitives::drawn(THUMBPRINT_LEN, bytes@),
            Err(e) => e@ == ErrorView::Format("rng failed"@) && primitives::draw_failed(
                THUMBPRINT_LEN,
            ),
        },
{
    random::<THUMBPRINT_LEN>()
}

/// Draw a token's secret.
fn draw_secret() -> (r: Result<[u8; SECRET_LEN], Error>)
    ensures
        match r {
            Ok(bytes) => primitives::drawn(SECRET_LEN, bytes@),
            Err(e) => e@ == ErrorView::Format("rng failed"@) && primitives::draw_failed(SECRET_LEN),
        },
{
    random::<SECRET_LEN>()
}

impl TokenMaterial {
    /// Id and secret were drawn one by one: a draw of an id gave the one, and a draw
    /// of a secret the other.
    pub closed spec fn drawn_apart(self) -> bool {
        &&& call_ensures(draw_token_id, (), Ok::<[u8; THUMBPRINT_LEN], Error>(self.token_id))
        &&& call_ensures(draw_secret, (), Ok::<[u8; SECRET_LEN], Error>(self.secret))
    }

    /// What was drawn apart is what the two draws gave, and nothing else.
    proof fn law_drawn_apart_is_two_draws(self)
        ensures
            self.drawn_apart() == (call_ensures(
                draw_token_id,
                (),
                Ok::<[u8; THUMBPRINT_LEN], Error>(self.token_id),
            ) && call_ensures(draw_secret, (), Ok::<[u8; SECRET_LEN], Error>(self.secret))),
    {
    }

    /// The token that two draws make: its id, then its secret. The first draw
    /// that failed is reported.
    pub fn from_draws(
        token_id: Result<[u8; THUMBPRINT_LEN], Error>,
        secret: Result<[u8; SECRET_LEN], Error>,
    ) -> (r: Result<TokenMaterial, Error>)
        ensures
            r == match (token_id, secret) {
                (Ok(token_id), Ok(secret)) => Ok::<TokenMaterial, Error>(
                    TokenMaterial { token_id, secret },
                ),
                (Err(e), _) => Err(e),
                (Ok(_), Err(e)) => Err(e),
            },
    {
        match token_id {
            Err(e) => Err(e),
            Ok(token_id) => match secret {
                Err(e) => Err(e),
                Ok(secret) => Ok(TokenMaterial { token_id, secret }),
            },
        }
    }

    pub fn generate() -> (r: Result<TokenMaterial, Error>)
        ensures
            match r {
                Ok(token) => primitives::drawn(THUMBPRINT_LEN, token.token_id@)
                    && primitives::drawn(SECRET_LEN, token.secret@) && token.drawn_apart(),
                Err(e) => e@ == ErrorView::Format("rng failed"@) && (primitives::draw_failed(
                    THUMBPRINT_LEN,
                ) || primitives::draw_failed(SECRET_LEN)),
            },
    {
        let r = Self::from_draws(draw_token_id(), draw_secret());
        proof {
            if r is Ok {
                r->Ok_0.law_drawn_apart_is_two_draws();
            }
        }
        r
    }

    /// A `[[token]]` block for a gate's configuration.
    pub fn token_toml(&self) -> (r: String)
        ensures
            r@ == token_toml_text(self.token_id@, self.secret@),
    {
        let mut out = String::from_str("[[token]]\ntoken_id_hex = \"");
        out.append(hexcode::encode(self.token_id.as_slice()).as_str());
        out.append("\"\nsecret_hex = \"");
        out.append(hexcode::encode(self.secret.as_slice()).as_str());
        out.append("\"\nports = [");
        push_decimal(&mut out, KEYGEN_PORT as u64);
        out.append("]\n");
        out
    }

    /// What the client needs for the enrollment knock.
    pub fn enroll(&self) -> (r: String)
        ensures
            r@ == enroll_text(self.token_id@, self.secret@),
    {
        let mut out = String::new();
        push_kv(&mut out, "token_id_hex", hexcode::encode(self.token_id.as_slice()).as_str());
        push_kv(&mut out, "secret_hex", hexcode::encode(self.secret.as_slice()).as_str());
        assert(out@ =~= enroll_text(self.token_id@, self.secret@));
        out
    }
}

/// What a self-provisioning gate is told.
pub struct Provision {
    pub interface: String,
    pub knock_port: u16,
    pub bpf_object: String,
    pub suite: Suite,
    pub url: String,
    pub gate_token: String,
    pub address: String,
    pub ca_cert: Option<String>,
}

/// Why a gate cannot be provisioned.
#[derive(Debug)]
pub enum ProvisionError {
    /// An argument is missing.
    Usage,
    UnknownSuite(String),
}

impl ProvisionError {
    /// The error in words.
    pub open spec fn words(self) -> Seq<char> {
        match self {
            ProvisionError::Usage =>
                "usage: provision <interface> <bpf_object> <control-plane-url> <gate-token> <gate-address> [ca_cert]"@,
            ProvisionError::UnknownSuite(name) => "unknown suite "@ + crate::text::quoted(name@)
                + " (fips|modern)"@,
        }
    }

    pub fn message(&self) -> (r: String)
        ensures
            r@ == self.words(),
    {
        match self {
            ProvisionError::Usage => String::from_str(
                "usage: provision <interface> <bpf_object> <control-plane-url> <gate-token> <gate-address> [ca_cert]",
            ),
            ProvisionError::UnknownSuite(name) => {
                let mut out = String::from_str("unknown suite ");
                out.append(quote(name.as_str()).as_str());
                out.append(" (fips|modern)");
                out
            },
        }
    }
}

/// The suite's name, where one is given; else `modern`.
pub open spec fn chosen_suite(name: Option<&str>) -> Seq<char> {
    match name {
        Some(name) => name@,
        None => "modern"@,
    }
}

/// The knock port, where a number is given; else the default.
pub open spec fn chosen_port(text: Option<&str>) -> u16 {
    match text {
        Some(text) => match crate::text::parsed_u16(text@) {
            Some(port) => port,
            None => DEFAULT_KNOCK_PORT,
        },
        None => DEFAULT_KNOCK_PORT,
    }
}

/// The line that pins a private authority, where there is one.
pub open spec fn ca_line(ca_cert: Option<String>) -> Seq<char> {
    match ca_cert {
        Some(path) => "ca_cert    = \""@ + path@ + "\"\n"@,
        None => Seq::empty(),
    }
}

impl Provision {
    /// The configuration file of a self-provisioning gate. It holds neither gate
    /// id nor anchor: a gate fetches both, so that they cannot go stale.
    pub open spec fn gated_toml_text(self, gate_private: Seq<u8>) -> Seq<char> {
        "interface = \""@ + self.interface@ + "\"\nknock_port = "@ + crate::text::decimal(
            self.knock_port as nat,
        ) + "\nbpf_object = \""@ + self.bpf_object@
            + "\"\npinhole_ms = 2000\nskew_seconds = 2\nbundle_path = \"/etc/spa/bundle.spa\"\nsuite = \""@
            + crate::config::suite_name(self.suite) + "\"\ngate_private_hex = \""@
            + hexcode::hexed(gate_private) + "\"\n\n[control_plane]\nurl        = \""@ + self.url@
            + "\"\ngate_token = \""@ + self.gate_token@ + "\"\naddress    = \""@ + self.address@
            + "\"\n"@ + ca_line(self.ca_cert)
    }

    /// Read the arguments: interface, object, address of the control plane,
    /// token, own address, and perhaps a private authority. Suite and knock port
    /// may be overridden.
    pub fn from_args(args: &[String], suite: Option<&str>, port: Option<&str>) -> (r: Result<
        Provision,
        ProvisionError,
    >)
        ensures
            match r {
                Ok(p) => {
                    &&& args@.len() >= 5
                    &&& crate::config::suite_named(chosen_suite(suite)) == Some(p.suite)
                    &&& p.interface@ == args@[0]@
                    &&& p.bpf_object@ == args@[1]@
                    &&& p.url@ == args@[2]@
                    &&& p.gate_token@ == args@[3]@
                    &&& p.address@ == args@[4]@
                    &&& match p.ca_cert {
                        Some(path) => args@.len() >= 6 && path@ == args@[5]@,
                        None => args@.len() < 6,
                    }
                    &&& p.knock_port == chosen_port(port)
                },
                Err(ProvisionError::Usage) => args@.len() < 5,
                Err(ProvisionError::UnknownSuite(name)) => args@.len() >= 5 && name@
                    == chosen_suite(suite) && crate::config::suite_named(name@) is None,
            },
    {
        if args.len() < 5 {
            return Err(ProvisionError::Usage);
        }
        let suite_name = match suite {
            Some(name) => name,
            None => "modern",
        };
        let suite = match find_suite(suite_name) {
            Some(suite) => suite,
            None => {
                return Err(ProvisionError::UnknownSuite(String::from_str(suite_name)));
            },
        };
        let knock_port: u16 = match port {
            Some(text) => {
                let chars = to_chars(text);
                match parse_u16(chars.as_slice()) {
                    Some(port) => port,
                    None => DEFAULT_KNOCK_PORT,
                }
            },
            None => DEFAULT_KNOCK_PORT,
        };
        Ok(
            Provision {
                interface: args[0].clone(),
                knock_port,
                bpf_object: args[1].clone(),
                suite,
                url: args[2].clone(),
                gate_token: args[3].clone(),
                address: args[4].clone(),
                ca_cert: if args.len() >= 6 {
                    Some(args[5].clone())
                } else {
                    None
                },
            },
        )
    }

    /// The configuration file for a given private key.
    pub fn gated_toml(&self, gate_private: &[u8]) -> (r: String)
        ensures
            r@ == self.gated_toml_text(gate_private@),
    {
        let mut out = String::from_str("interface = \"");
        out.append(self.interface.as_str());
        out.append("\"\nknock_port = ");
        push_decimal(&mut out, self.knock_port as u64);
        out.append("\nbpf_object = \"");
        out.append(self.bpf_object.as_str());
        out.append(
            "\"\npinhole_ms = 2000\nskew_seconds = 2\nbundle_path = \"/etc/spa/bundle.spa\"\nsuite = \"",
        );
        out.append(name_suite(self.suite));
        out.append("\"\ngate_private_hex = \"");
        out.append(hexcode::encode(gate_private).as_str());
        out.append("\"\n\n[control_plane]\nurl        = \"");
        out.append(self.url.as_str());
        out.append("\"\ngate_token = \"");
        out.append(self.gate_token.as_str());
        out.append("\"\naddress    = \"");
        out.append(self.address.as_str());
        out.append("\"\n");
        match &self.ca_cert {
            Some(path) => {
                let ghost before = out@;
                out.append("ca_cert    = \"");
                out.append(path.as_str());
                out.append("\"\n");
                assert(out@ =~= before + ca_line(self.ca_cert));
            },
            None => {
                assert(out@ =~= out@ + ca_line(self.ca_cert));
            },
        }
        out
    }

    /// Generate a gate's key and write its configuration file.
    pub fn generate(&self) -> (r: Result<String, Error>)
        ensures
            match r {
                Ok(text) => exists|private: Seq<u8>|
                    private.len() == GATE_PRIVATE_LEN && crate::envelope::agreement_public(
                        self.suite,
                        private,
                    ) is Some && crate::envelope::agreement_drawn(self.suite, private) && text@
                        == #[trigger] self.gated_toml_text(private),
                Err(e) => e@ == ErrorView::Crypto(CryptoError::Key)
                    && crate::envelope::agreement_draw_failed(self.suite),
            },
    {
        match GateKeypair::generate_raw(self.suite) {
            Ok((gate, raw)) => {
                assert(crate::envelope::agreement_public(self.suite, raw@) is Some);
                Ok(self.gated_toml(raw.as_slice()))
            },
            Err(e) => Err(Error::Crypto(e)),
        }
    }
}

/// A value that can stand in a `key=value` line: on one line, with no white
/// space at its ends.
spec fn plain_value(value: Seq<char>) -> bool {
    crate::text::one_line(value) && crate::text::bare(value)
}

proof fn lemma_hexed_plain(bytes: Seq<u8>)
    ensures
        plain_value(hexcode::hexed(bytes)),
{
    hexcode::lemma_hexed_chars(bytes);
    let text = hexcode::hexed(bytes);
    assert forall|i: int| 0 <= i < text.len() implies text[i] != '\n' by {
        assert('0' <= text[i] <= '9' || 'a' <= text[i] <= 'f');
    }
    if text.len() > 0 {
        assert('0' <= text[0] <= '9' || 'a' <= text[0] <= 'f');
        assert('0' <= text[text.len() - 1] <= '9' || 'a' <= text[text.len() - 1] <= 'f');
    }
}

/// The lines of a text that begins with a `key=value` line.
proof fn lemma_kv_first(key: Seq<char>, value: Seq<char>, rest: Seq<char>)
    requires
        plain_value(key),
        plain_value(value),
        key.len() > 0,
        forall|i: int| 0 <= i < key.len() ==> key[i] != '=',
    ensures
        crate::text::lines(kv_line(key, value) + rest) == seq![key + seq!['='] + value]
            + crate::text::lines(rest),
        crate::text::entry_of(key + seq!['='] + value) == Some((key, value)),
{
    reveal_strlit("=");
    reveal_strlit("\n");
    let line = key + seq!['='] + value;
    assert("="@ =~= seq!['=']);
    assert("\n"@ =~= seq!['\n']);
    assert(kv_line(key, value) + rest =~= line + seq!['\n'] + rest);
    assert(crate::text::one_line(line));
    crate::text::lemma_lines_first(line, rest);
    assert(line.last() != '\r') by {
        if value.len() > 0 {
            assert(line.last() == value.last());
            assert(crate::text::white('\r'));
        }
    }
    crate::text::lemma_entry_of_line(key, value);
}

/// The keys of the provisioning files: each stands on one line, holds no `=`,
/// and has its own length.
proof fn lemma_keys()
    ensures
        forall|key: Seq<char>|
            (key == "suite"@ || key == "gate_pubkey_hex"@ || key == "gate_id_hex"@ || key
                == "client_pkcs8_hex"@ || key == "port"@ || key == "token_id_hex"@ || key
                == "secret_hex"@) ==> #[trigger] plain_value(key) && key.len() > 0 && forall|
                i: int,
            |
                0 <= i < key.len() ==> key[i] != '=',
        "suite"@.len() == 5,
        "gate_pubkey_hex"@.len() == 15,
        "gate_id_hex"@.len() == 11,
        "client_pkcs8_hex"@.len() == 16,
        "port"@.len() == 4,
        "token_id_hex"@.len() == 12,
        "secret_hex"@.len() == 10,
{
    reveal_strlit("suite");
    reveal_strlit("gate_pubkey_hex");
    reveal_strlit("gate_id_hex");
    reveal_strlit("client_pkcs8_hex");
    reveal_strlit("port");
    reveal_strlit("token_id_hex");
    reveal_strlit("secret_hex");
}

/// The lines of a `.knock` text, and what each of them sets.
proof fn lemma_knock_lines(
    suite: Suite,
    gate_public: Seq<u8>,
    gate_id: Seq<u8>,
    pkcs8: Seq<u8>,
) -> (ls: Seq<Seq<char>>)
    ensures
        ls == crate::text::lines(knock_text(suite, gate_public, gate_id, pkcs8)),
        ls.len() == 5,
        crate::text::entry_of(ls[0]) == Some(("suite"@, crate::config::suite_name(suite))),
        crate::text::entry_of(ls[1]) == Some(("gate_pubkey_hex"@, hexcode::hexed(gate_public))),
        crate::text::entry_of(ls[2]) == Some(("gate_id_hex"@, hexcode::hexed(gate_id))),
        crate::text::entry_of(ls[3]) == Some(("client_pkcs8_hex"@, hexcode::hexed(pkcs8))),
        crate::text::entry_of(ls[4]) == Some(
            ("port"@, crate::text::decimal(KEYGEN_PORT as nat)),
        ),
{
    let name = crate::config::suite_name(suite);
    let port = crate::text::decimal(KEYGEN_PORT as nat);
    let (hp, hi, hk) = (
        hexcode::hexed(gate_public),
        hexcode::hexed(gate_id),
        hexcode::hexed(pkcs8),
    );
    lemma_keys();
    lemma_hexed_plain(gate_public);
    lemma_hexed_plain(gate_id);
    lemma_hexed_plain(pkcs8);
    reveal_strlit("fips");
    reveal_strlit("modern");
    assert(plain_value(name));
    crate::text::lemma_decimal(KEYGEN_PORT as nat);
    assert(plain_value(port)) by {
        assert forall|i: int| 0 <= i < port.len() implies port[i] != '\n' by {
            assert(crate::text::is_digit(port[i]));
        }
        assert(crate::text::is_digit(port[0]));
        assert(crate::text::is_digit(port[port.len() - 1]));
    }
    let (a, b, c, d, e) = (
        kv_line("suite"@, name),
        kv_line("gate_pubkey_hex"@, hp),
        kv_line("gate_id_hex"@, hi),
        kv_line("client_pkcs8_hex"@, hk),
        kv_line("port"@, port),
    );
    let text = knock_text(suite, gate_public, gate_id, pkcs8);
    assert(plain_value("suite"@) && plain_value("gate_pubkey_hex"@) && plain_value("gate_id_hex"@)
        && plain_value("client_pkcs8_hex"@) && plain_value("port"@));
    lemma_kv_first("suite"@, name, b + (c + (d + (e + Seq::empty()))));
    lemma_kv_first("gate_pubkey_hex"@, hp, c + (d + (e + Seq::empty())));
    lemma_kv_first("gate_id_hex"@, hi, d + (e + Seq::empty()));
    lemma_kv_first("client_pkcs8_hex"@, hk, e + Seq::empty());
    lemma_kv_first("port"@, port, Seq::empty());
    assert(text =~= a + (b + (c + (d + (e + Seq::empty())))));
    let ls = crate::text::lines(text);
    let l0 = "suite"@ + seq!['='] + name;
    let l1 = "gate_pubkey_hex"@ + seq!['='] + hp;
    let l2 = "gate_id_hex"@ + seq!['='] + hi;
    let l3 = "client_pkcs8_hex"@ + seq!['='] + hk;
    let l4 = "port"@ + seq!['='] + port;
    assert(crate::text::lines(Seq::empty()) =~= Seq::<Seq<char>>::empty());
    assert(ls =~= seq![l0, l1, l2, l3, l4]);
    ls
}

/// A generated `.knock` text reads back as the material that it was written
/// from.
pub proof fn law_knock_text_reads_back(
    suite: Suite,
    gate_public: Seq<u8>,
    gate_id: Seq<u8>,
    pkcs8: Seq<u8>,
)
    requires
        gate_id.len() == GATE_ID_LEN,
    ensures
        crate::client::suite_in(knock_text(suite, gate_public, gate_id, pkcs8)) == Ok::<
            Suite,
            ErrorView,
        >(suite),
        crate::client::bytes_in(
            knock_text(suite, gate_public, gate_id, pkcs8),
            "gate_pubkey_hex"@,
        ) == Ok::<Seq<u8>, ErrorView>(gate_public),
        crate::client::exactly_in(
            knock_text(suite, gate_public, gate_id, pkcs8),
            "gate_id_hex"@,
            GATE_ID_LEN as nat,
        ) == Ok::<Seq<u8>, ErrorView>(gate_id),
        crate::client::bytes_in(
            knock_text(suite, gate_public, gate_id, pkcs8),
            "client_pkcs8_hex"@,
        ) == Ok::<Seq<u8>, ErrorView>(pkcs8),
        crate::client::port_in(knock_text(suite, gate_public, gate_id, pkcs8)) == Ok::<
            u16,
            ErrorView,
        >(KEYGEN_PORT),
{
    let name = crate::config::suite_name(suite);
    let port = crate::text::decimal(KEYGEN_PORT as nat);
    let (hp, hi, hk) = (
        hexcode::hexed(gate_public),
        hexcode::hexed(gate_id),
        hexcode::hexed(pkcs8),
    );
    lemma_keys();
    let ls = lemma_knock_lines(suite, gate_public, gate_id, pkcs8);
    let ls3 = ls.take(4);
    let ls2 = ls.take(3);
    let ls1 = ls.take(2);
    let ls0 = ls.take(1);
    assert(ls.drop_last() =~= ls3);
    assert(ls3.drop_last() =~= ls2);
    assert(ls2.drop_last() =~= ls1);
    assert(ls1.drop_last() =~= ls0);
    assert(crate::text::value_on(ls, "port"@) == Some(port));
    assert(crate::text::value_on(ls3, "client_pkcs8_hex"@) == Some(hk));
    assert(crate::text::value_on(ls, "client_pkcs8_hex"@) == Some(hk));
    assert(crate::text::value_on(ls2, "gate_id_hex"@) == Some(hi));
    assert(crate::text::value_on(ls3, "gate_id_hex"@) == Some(hi));
    assert(crate::text::value_on(ls, "gate_id_hex"@) == Some(hi));
    assert(crate::text::value_on(ls1, "gate_pubkey_hex"@) == Some(hp));
    assert(crate::text::value_on(ls2, "gate_pubkey_hex"@) == Some(hp));
    assert(crate::text::value_on(ls3, "gate_pubkey_hex"@) == Some(hp));
    assert(crate::text::value_on(ls, "gate_pubkey_hex"@) == Some(hp));
    assert(crate::text::value_on(ls0, "suite"@) == Some(name));
    assert(crate::text::value_on(ls1, "suite"@) == Some(name));
    assert(crate::text::value_on(ls2, "suite"@) == Some(name));
    assert(crate::text::value_on(ls3, "suite"@) == Some(name));
    assert(crate::text::value_on(ls, "suite"@) == Some(name));
    crate::config::law_suite_named(suite);
    hexcode::law_decode_inverts_encode(gate_public);
    hexcode::law_decode_inverts_encode(gate_id);
    hexcode::law_decode_inverts_encode(pkcs8);
    crate::text::law_parse_inverts_decimal(KEYGEN_PORT);
}

/// A generated `.enroll` text reads back as the token that it was written from.
pub proof fn law_enroll_text_reads_back(token_id: Seq<u8>, secret: Seq<u8>)
    requires
        token_id.len() == THUMBPRINT_LEN,
    ensures
        crate::client::exactly_in(
            enroll_text(token_id, secret),
            "token_id_hex"@,
            THUMBPRINT_LEN as nat,
        ) == Ok::<Seq<u8>, ErrorView>(token_id),
        crate::client::bytes_in(enroll_text(token_id, secret), "secret_hex"@) == Ok::<
            Seq<u8>,
            ErrorView,
        >(secret),
{
    let (ht, hs) = (hexcode::hexed(token_id), hexcode::hexed(secret));
    lemma_keys();
    lemma_hexed_plain(token_id);
    lemma_hexed_plain(secret);
    let text = enroll_text(token_id, secret);
    let (a, b) = (kv_line("token_id_hex"@, ht), kv_line("secret_hex"@, hs));
    assert(plain_value("token_id_hex"@) && plain_value("secret_hex"@));
    lemma_kv_first("token_id_hex"@, ht, b + Seq::empty());
    lemma_kv_first("secret_hex"@, hs, Seq::empty());
    assert(text =~= a + (b + Seq::empty()));
    let ls = crate::text::lines(text);
    let l0 = "token_id_hex"@ + seq!['='] + ht;
    let l1 = "secret_hex"@ + seq!['='] + hs;
    assert(crate::text::lines(Seq::empty()) =~= Seq::<Seq<char>>::empty());
    assert(ls =~= seq![l0, l1]);
    assert(ls.drop_last() =~= seq![l0]);
    assert(crate::text::value_on(ls, "secret_hex"@) == Some(hs));
    assert(crate::text::value_on(seq![l0], "token_id_hex"@) == Some(ht));
    assert(crate::text::value_on(ls, "token_id_hex"@) == Some(ht));
    hexcode::law_decode_inverts_encode(token_id);
    hexcode::law_decode_inverts_encode(secret);
}

/// A key, as it is written to a file or told.
pub fn write_key(key: &[u8]) -> (r: String)
    ensures
        r@ == hexcode::hexed(key@),
{
    hexcode::encode(key)
}

/// A private key, as it is read from a file. White space around it does not
/// count.
pub fn read_key(text: &str) -> (r: Result<Vec<u8>, HexError>)
    ensures
        match r {
            Ok(pkcs8) => hexcode::unhexed(crate::text::trim(text@)) == Ok::<Seq<u8>, HexError>(
                pkcs8@,
            ),
            Err(e) => hexcode::unhexed(crate::text::trim(text@)) == Err::<Seq<u8>, HexError>(e),
        },
{
    let chars = to_chars(text);
    hexcode::decode(from_chars(trimmed(chars.as_slice())).as_str())
}

/// A key that was written to a file is read back from it, also with a line feed
/// behind it.
pub proof fn law_key_file_reads_back(pkcs8: Seq<u8>)
    ensures
        hexcode::unhexed(crate::text::trim(hexcode::hexed(pkcs8))) == Ok::<Seq<u8>, HexError>(
            pkcs8,
        ),
        hexcode::unhexed(crate::text::trim(hexcode::hexed(pkcs8).push('\n'))) == Ok::<
            Seq<u8>,
            HexError,
        >(pkcs8),
{
    let text = hexcode::hexed(pkcs8);
    lemma_hexed_plain(pkcs8);
    hexcode::law_decode_inverts_encode(pkcs8);
    assert(text.push('\n').drop_last() =~= text);
    assert(crate::text::white('\n'));
}

/// The client entry of a generated gate file is accepted, as the client that was
/// generated.
pub proof fn law_generated_client_is_accepted(raw: RawClient, client: ClientKey)
    requires
        raw.thumbprint_hex@ == hexcode::hexed(client.key_thumbprint()),
        raw.public_key_hex@ == hexcode::hexed(client.key_public()),
        client.key_thumbprint().len() == THUMBPRINT_LEN,
    ensures
        crate::config::client_parsed(raw) == Ok::<EntryView, ConfigErrorView>(
            EntryView {
                id: client.key_thumbprint(),
                key: client.key_public(),
                ports: raw.ports@,
            },
        ),
{
    hexcode::law_decode_inverts_encode(client.key_thumbprint());
    hexcode::law_decode_inverts_encode(client.key_public());
}

/// The token entry of a generated token file is accepted, as the token that was
/// generated.
pub proof fn law_generated_token_is_accepted(raw: RawToken, token_id: Seq<u8>, secret: Seq<u8>)
    requires
        raw.token_id_hex@ == hexcode::hexed(token_id),
        raw.secret_hex@ == hexcode::hexed(secret),
        token_id.len() == THUMBPRINT_LEN,
    ensures
        crate::config::token_parsed(raw) == Ok::<EntryView, ConfigErrorView>(
            EntryView { id: token_id, key: secret, ports: raw.ports@ },
        ),
{
    hexcode::law_decode_inverts_encode(token_id);
    hexcode::law_decode_inverts_encode(secret);
}

/// A generated private key and gate id are accepted, as what was generated.
pub proof fn law_generated_gate_keys_are_accepted(gate_private: Seq<u8>, gate_id: Seq<u8>)
    requires
        gate_private.len() == GATE_PRIVATE_LEN,
        gate_id.len() == GATE_ID_LEN,
    ensures
        crate::config::hex_sized(
            hexcode::hexed(gate_private),
            GATE_PRIVATE_LEN as int,
            Field::GatePrivate,
        ) == Ok::<Seq<u8>, ConfigErrorView>(gate_private),
        crate::config::hex_sized(hexcode::hexed(gate_id), GATE_ID_LEN as int, Field::GateId) == Ok::<
            Seq<u8>,
            ConfigErrorView,
        >(gate_id),
{
    hexcode::law_decode_inverts_encode(gate_private);
    hexcode::law_decode_inverts_encode(gate_id);
}

/// A configuration file made of generated material is accepted, and gives the
/// daemon the suite, private key, id and client that were generated.
pub proof fn law_generated_gate_file_is_accepted(raw: RawConfig, material: KeyMaterial)
    requires
        material.valid(),
        material.client.key_thumbprint().len() == THUMBPRINT_LEN,
        raw.suite@ == crate::config::suite_name(material.suite),
        raw.gate_private_hex@ == hexcode::hexed(material.gate_private@),
        raw.gate_id_hex is Some,
        raw.gate_id_hex->0@ == hexcode::hexed(material.gate_id@),
        raw.config_anchor_hex is None,
        raw.client@.len() == 1,
        raw.client@[0].thumbprint_hex@ == hexcode::hexed(material.client.key_thumbprint()),
        raw.client@[0].public_key_hex@ == hexcode::hexed(material.client.key_public()),
        raw.token@.len() == 0,
    ensures
        crate::config::first_error(raw) is None,
        forall|config: Config| #[trigger]
            config.reflects(raw) ==> {
                &&& config.suite == material.suite
                &&& config.gate_private@ == material.gate_private@
                &&& crate::config::gate_id_bytes(config.gate_id) == Some(material.gate_id@)
                &&& crate::config::client_views(config.clients@) == seq![
                    EntryView {
                        id: material.client.key_thumbprint(),
                        key: material.client.key_public(),
                        ports: raw.client@[0].ports@,
                    },
                ]
            },
{
    crate::config::law_suite_named(material.suite);
    law_generated_gate_keys_are_accepted(material.gate_private@, material.gate_id@);
    law_generated_client_is_accepted(raw.client@[0], material.client);
    let results = crate::config::client_results(raw.client@);
    let none = results.drop_last();
    assert(none.len() == 0);
    assert(crate::config::collected(none) == Ok::<Seq<EntryView>, ConfigErrorView>(Seq::empty()));
    assert(results.last() == crate::config::client_parsed(raw.client@[0]));
    let entry = EntryView {
        id: material.client.key_thumbprint(),
        key: material.client.key_public(),
        ports: raw.client@[0].ports@,
    };
    assert(Seq::<EntryView>::empty().push(entry) =~= seq![entry]);
    assert(crate::config::collected(results) == Ok::<Seq<EntryView>, ConfigErrorView>(
        seq![entry],
    ));
    assert(crate::config::token_results(raw.token@) =~= Seq::empty());
}

/// A configuration file made by provisioning is accepted: it gives the daemon the
/// suite and the private key that were generated, and leaves its id to the control
/// plane.
pub proof fn law_provisioned_file_is_accepted(raw: RawConfig, suite: Suite, gate_private: Seq<u8>)
    requires
        gate_private.len() == GATE_PRIVATE_LEN,
        raw.suite@ == crate::config::suite_name(suite),
        raw.gate_private_hex@ == hexcode::hexed(gate_private),
        raw.gate_id_hex is None,
        raw.config_anchor_hex is None,
        raw.client@.len() == 0,
        raw.token@.len() == 0,
    ensures
        crate::config::first_error(raw) is None,
        forall|config: Config| #[trigger]
            config.reflects(raw) ==> config.suite == suite && config.gate_private@ == gate_private
                && config.gate_id is None,
{
    crate::config::law_suite_named(suite);
    hexcode::law_decode_inverts_encode(gate_private);
    assert(crate::config::client_results(raw.client@) =~= Seq::empty());
    assert(crate::config::token_results(raw.token@) =~= Seq::empty());
}

} // verus!
