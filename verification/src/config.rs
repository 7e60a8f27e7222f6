//! Daemon bootstrap configuration.
//!
//! The static bits (keys, interface, timing) live here. The dynamic policy
//! (authorized clients, tokens and protected ports) is either inline or comes
//! from a signed bundle, when an anchor and a bundle path are set.

use vstd::prelude::*;
use vstd::string::*;

use crate::bytes::to_array;
use crate::gatekeeper;
use crate::hexcode;
use crate::hexcode::HexError;
use crate::text::{push_decimal, quote, same_str};
use crate::wire::{Suite, GATE_ID_LEN, THUMBPRINT_LEN};

verus! {

/// Milliseconds that an admitted source stays open, where nothing else is set.
pub const DEFAULT_PINHOLE_MS: u64 = 400;

/// Seconds of clock skew that a knock may have, where nothing else is set.
pub const DEFAULT_SKEW_SECONDS: u64 = 2;

/// Length of a gate's private key.
pub const GATE_PRIVATE_LEN: usize = 32;

/// The configuration file, field by field, before anything is checked.
pub struct RawConfig {
    pub interface: String,
    pub knock_port: u16,
    pub suite: String,
    pub gate_private_hex: String,
    pub gate_id_hex: Option<String>,
    pub bpf_object: String,
    pub pinhole_ms: Option<u64>,
    pub skew_seconds: Option<u64>,
    pub nftables_floor: Option<bool>,
    pub config_anchor_hex: Option<String>,
    pub bundle_path: Option<String>,
    pub protected_ports: Vec<u16>,
    pub client: Vec<RawClient>,
    pub token: Vec<RawToken>,
    pub control_plane: Option<ControlPlane>,
}

pub struct RawClient {
    pub thumbprint_hex: String,
    pub public_key_hex: String,
    pub ports: Vec<u16>,
}

pub struct RawToken {
    pub token_id_hex: String,
    pub secret_hex: String,
    pub ports: Vec<u16>,
}

/// Where a gate provisions itself.
pub struct ControlPlane {
    pub url: String,
    pub gate_token: String,
    /// The address under which clients reach this gate.
    pub address: String,
    pub ca_cert: Option<String>,
}

/// An authorized client: its key thumbprint, public key and permitted ports.
pub struct ClientEntry {
    pub thumbprint: [u8; THUMBPRINT_LEN],
    pub public_key: Vec<u8>,
    pub ports: Vec<u16>,
}

/// A one-time enrollment token: its id, shared secret and permitted ports.
pub struct TokenEntry {
    pub token_id: [u8; THUMBPRINT_LEN],
    pub secret: Vec<u8>,
    pub ports: Vec<u16>,
}

/// What a [`ClientEntry`] or a [`TokenEntry`] says: under which id, with which
/// key material, for which ports.
#[verifier::ext_equal]
pub struct EntryView {
    pub id: Seq<u8>,
    pub key: Seq<u8>,
    pub ports: Seq<u16>,
}

impl View for ClientEntry {
    type V = EntryView;

    open spec fn view(&self) -> EntryView {
        EntryView { id: self.thumbprint@, key: self.public_key@, ports: self.ports@ }
    }
}

impl View for TokenEntry {
    type V = EntryView;

    open spec fn view(&self) -> EntryView {
        EntryView { id: self.token_id@, key: self.secret@, ports: self.ports@ }
    }
}

/// What a list of clients says.
pub open spec fn client_views(list: Seq<ClientEntry>) -> Seq<EntryView> {
    list.map_values(|c: ClientEntry| c@)
}

/// What a list of tokens says.
pub open spec fn token_views(list: Seq<TokenEntry>) -> Seq<EntryView> {
    list.map_values(|t: TokenEntry| t@)
}

impl Clone for ClientEntry {
    fn clone(&self) -> (r: Self)
        ensures
            r@ == self@,
    {
        let r = ClientEntry {
            thumbprint: self.thumbprint,
            public_key: self.public_key.clone(),
            ports: self.ports.clone(),
        };
        assert(r@ =~= self@);
        r
    }
}

impl Clone for TokenEntry {
    fn clone(&self) -> (r: Self)
        ensures
            r@ == self@,
    {
        let r = TokenEntry {
            token_id: self.token_id,
            secret: self.secret.clone(),
            ports: self.ports.clone(),
        };
        assert(r@ =~= self@);
        r
    }
}

/// The daemon's configuration.
pub struct Config {
    pub interface: String,
    pub knock_port: u16,
    pub suite: Suite,
    pub gate_private: Vec<u8>,
    /// Absent where the control plane is to tell it.
    pub gate_id: Option<[u8; GATE_ID_LEN]>,
    pub bpf_object: String,
    pub pinhole_ms: u64,
    pub skew_seconds: u64,
    pub nftables_floor: bool,
    /// Pinned control-plane signing public key (Ed25519) for verifying bundles.
    pub config_anchor: Option<Vec<u8>>,
    pub bundle_path: Option<String>,
    pub protected_ports: Vec<u16>,
    pub clients: Vec<ClientEntry>,
    pub tokens: Vec<TokenEntry>,
    pub control_plane: Option<ControlPlane>,
}

/// A field that holds hexadecimal text.
#[derive(Debug, Clone, Copy, PartialEq, Eq, Structural)]
pub enum Field {
    ConfigAnchor,
    GatePrivate,
    GateId,
    Thumbprint,
    PublicKey,
    TokenId,
    Secret,
}

impl Field {
    /// The field's name in the file.
    pub open spec fn name(self) -> Seq<char> {
        match self {
            Field::ConfigAnchor => "config_anchor_hex"@,
            Field::GatePrivate => "gate_private_hex"@,
            Field::GateId => "gate_id_hex"@,
            Field::Thumbprint => "thumbprint_hex"@,
            Field::PublicKey => "public_key_hex"@,
            Field::TokenId => "token_id_hex"@,
            Field::Secret => "secret_hex"@,
        }
    }

    pub fn as_str(&self) -> (r: &'static str)
        ensures
            r@ == self.name(),
    {
        match self {
            Field::ConfigAnchor => "config_anchor_hex",
            Field::GatePrivate => "gate_private_hex",
            Field::GateId => "gate_id_hex",
            Field::Thumbprint => "thumbprint_hex",
            Field::PublicKey => "public_key_hex",
            Field::TokenId => "token_id_hex",
            Field::Secret => "secret_hex",
        }
    }
}

/// Why a configuration was refused.
#[derive(Debug)]
pub enum ConfigError {
    UnknownSuite(String),
    BadHex(Field, HexError),
    WrongLength { field: Field, expected: usize, got: usize },
}

/// What a [`ConfigError`] says.
pub enum ConfigErrorView {
    UnknownSuite(Seq<char>),
    BadHex(Field, HexError),
    WrongLength { field: Field, expected: int, got: int },
}

impl View for ConfigError {
    type V = ConfigErrorView;

    open spec fn view(&self) -> ConfigErrorView {
        match self {
            ConfigError::UnknownSuite(name) => ConfigErrorView::UnknownSuite(name@),
            ConfigError::BadHex(field, e) => ConfigErrorView::BadHex(*field, *e),
            ConfigError::WrongLength { field, expected, got } => ConfigErrorView::WrongLength {
                field: *field,
                expected: *expected as int,
                got: *got as int,
            },
        }
    }
}

impl ConfigErrorView {
    /// The error in words.
    pub open spec fn words(self) -> Seq<char> {
        match self {
            ConfigErrorView::UnknownSuite(name) => "unknown suite "@ + crate::text::quoted(name),
            ConfigErrorView::BadHex(field, e) => field.name() + ": "@ + e.words(),
            ConfigErrorView::WrongLength { field, expected, got } => field.name() + ": expected "@
                + crate::text::decimal(expected as nat) + " bytes, got "@ + crate::text::decimal(
                got as nat,
            ),
        }
    }
}

impl ConfigError {
    pub fn message(&self) -> (r: String)
        ensures
            r@ == self@.words(),
    {
        match self {
            ConfigError::UnknownSuite(name) => {
                let mut out = String::from_str("unknown suite ");
                out.append(quote(name.as_str()).as_str());
                out
            },
            ConfigError::BadHex(field, e) => {
                let mut out = String::from_str(field.as_str());
                out.append(": ");
                out.append(e.message().as_str());
                out
            },
            ConfigError::WrongLength { field, expected, got } => {
                let mut out = String::from_str(field.as_str());
                out.append(": expected ");
                push_decimal(&mut out, *expected as u64);
                out.append(" bytes, got ");
                push_decimal(&mut out, *got as u64);
                out
            },
        }
    }
}

/// The suite with this name.
pub open spec fn suite_named(name: Seq<char>) -> Option<Suite> {
    if name == "fips"@ {
        Some(Suite::Fips)
    } else if name == "modern"@ {
        Some(Suite::Modern)
    } else {
        None
    }
}

/// The name of a suite.
pub open spec fn suite_name(suite: Suite) -> Seq<char> {
    match suite {
        Suite::Fips => "fips"@,
        Suite::Modern => "modern"@,
    }
}

/// Naming a suite and finding it by that name gives the suite back.
pub proof fn law_suite_named(suite: Suite)
    ensures
        suite_named(suite_name(suite)) == Some(suite),
{
    reveal_strlit("fips");
    reveal_strlit("modern");
    assert("fips"@.len() != "modern"@.len());
}

/// The suite with this name.
pub fn find_suite(name: &str) -> (r: Option<Suite>)
    ensures
        r == suite_named(name@),
{
    if same_str(name, "fips") {
        Some(Suite::Fips)
    } else if same_str(name, "modern") {
        Some(Suite::Modern)
    } else {
        None
    }
}

/// The name of a suite.
pub fn name_suite(suite: Suite) -> (r: &'static str)
    ensures
        r@ == suite_name(suite),
{
    match suite {
        Suite::Fips => "fips",
        Suite::Modern => "modern",
    }
}

/// The bytes in a hexadecimal field of any length.
pub open spec fn hex_any(text: Seq<char>, field: Field) -> Result<Seq<u8>, ConfigErrorView> {
    match hexcode::unhexed(text) {
        Ok(bytes) => Ok(bytes),
        Err(e) => Err(ConfigErrorView::BadHex(field, e)),
    }
}

/// The bytes in a hexadecimal field of fixed length.
pub open spec fn hex_sized(text: Seq<char>, n: int, field: Field) -> Result<
    Seq<u8>,
    ConfigErrorView,
> {
    match hex_any(text, field) {
        Ok(bytes) => if bytes.len() == n {
            Ok(bytes)
        } else {
            Err(ConfigErrorView::WrongLength { field, expected: n, got: bytes.len() as int })
        },
        Err(e) => Err(e),
    }
}

fn hex_bytes(text: &str, field: Field) -> (r: Result<Vec<u8>, ConfigError>)
    ensures
        match r {
            Ok(bytes) => hex_any(text@, field) == Ok::<Seq<u8>, ConfigErrorView>(bytes@),
            Err(e) => hex_any(text@, field) == Err::<Seq<u8>, ConfigErrorView>(e@),
        },
{
    match hexcode::decode(text) {
        Ok(bytes) => Ok(bytes),
        Err(e) => Err(ConfigError::BadHex(field, e)),
    }
}

fn hex_len(text: &str, n: usize, field: Field) -> (r: Result<Vec<u8>, ConfigError>)
    ensures
        match r {
            Ok(bytes) => hex_sized(text@, n as int, field) == Ok::<Seq<u8>, ConfigErrorView>(
                bytes@,
            ),
            Err(e) => hex_sized(text@, n as int, field) == Err::<Seq<u8>, ConfigErrorView>(e@),
        },
{
    let b = hex_bytes(text, field)?;
    if b.len() != n {
        return Err(ConfigError::WrongLength { field, expected: n, got: b.len() });
    }
    Ok(b)
}

fn hex_arr<const N: usize>(text: &str, field: Field) -> (r: Result<[u8; N], ConfigError>)
    ensures
        match r {
            Ok(bytes) => hex_sized(text@, N as int, field) == Ok::<Seq<u8>, ConfigErrorView>(
                bytes@,
            ),
            Err(e) => hex_sized(text@, N as int, field) == Err::<Seq<u8>, ConfigErrorView>(e@),
        },
{
    let b = hex_len(text, N, field)?;
    Ok(to_array::<N>(b.as_slice()))
}

/// What one client of the file parses to.
pub open spec fn client_parsed(raw: RawClient) -> Result<EntryView, ConfigErrorView> {
    match hex_sized(raw.thumbprint_hex@, THUMBPRINT_LEN as int, Field::Thumbprint) {
        Err(e) => Err(e),
        Ok(id) => match hex_any(raw.public_key_hex@, Field::PublicKey) {
            Err(e) => Err(e),
            Ok(key) => Ok(EntryView { id, key, ports: raw.ports@ }),
        },
    }
}

/// What one token of the file parses to.
pub open spec fn token_parsed(raw: RawToken) -> Result<EntryView, ConfigErrorView> {
    match hex_sized(raw.token_id_hex@, THUMBPRINT_LEN as int, Field::TokenId) {
        Err(e) => Err(e),
        Ok(id) => match hex_any(raw.secret_hex@, Field::Secret) {
            Err(e) => Err(e),
            Ok(key) => Ok(EntryView { id, key, ports: raw.ports@ }),
        },
    }
}

/// The values of a list of results, or its first error.
pub open spec fn collected(results: Seq<Result<EntryView, ConfigErrorView>>) -> Result<
    Seq<EntryView>,
    ConfigErrorView,
>
    decreases results.len(),
{
    if results.len() == 0 {
        Ok(Seq::empty())
    } else {
        match collected(results.drop_last()) {
            Err(e) => Err(e),
            Ok(list) => match results.last() {
                Err(e) => Err(e),
                Ok(entry) => Ok(list.push(entry)),
            },
        }
    }
}

/// An error among the first results is the list's error.
proof fn lemma_collected_err(results: Seq<Result<EntryView, ConfigErrorView>>, n: int)
    requires
        0 <= n <= results.len(),
        collected(results.take(n)) is Err,
    ensures
        collected(results) == collected(results.take(n)),
    decreases results.len(),
{
    if n < results.len() {
        let front = results.drop_last();
        assert(front.take(n) =~= results.take(n));
        lemma_collected_err(front, n);
    } else {
        assert(results.take(n) =~= results);
    }
}

/// What each client of the file parses to.
pub open spec fn client_results(raw: Seq<RawClient>) -> Seq<Result<EntryView, ConfigErrorView>> {
    raw.map_values(|c: RawClient| client_parsed(c))
}

/// What each token of the file parses to.
pub open spec fn token_results(raw: Seq<RawToken>) -> Seq<Result<EntryView, ConfigErrorView>> {
    raw.map_values(|t: RawToken| token_parsed(t))
}

fn parse_client(raw: &RawClient) -> (r: Result<ClientEntry, ConfigError>)
    ensures
        match r {
            Ok(entry) => client_parsed(*raw) == Ok::<EntryView, ConfigErrorView>(entry@),
            Err(e) => client_parsed(*raw) == Err::<EntryView, ConfigErrorView>(e@),
        },
{
    let thumbprint = hex_arr::<THUMBPRINT_LEN>(raw.thumbprint_hex.as_str(), Field::Thumbprint)?;
    let public_key = hex_bytes(raw.public_key_hex.as_str(), Field::PublicKey)?;
    let ports = raw.ports.clone();
    assert(ports@ =~= raw.ports@);
    Ok(ClientEntry { thumbprint, public_key, ports })
}

fn parse_token(raw: &RawToken) -> (r: Result<TokenEntry, ConfigError>)
    ensures
        match r {
            Ok(entry) => token_parsed(*raw) == Ok::<EntryView, ConfigErrorView>(entry@),
            Err(e) => token_parsed(*raw) == Err::<EntryView, ConfigErrorView>(e@),
        },
{
    let token_id = hex_arr::<THUMBPRINT_LEN>(raw.token_id_hex.as_str(), Field::TokenId)?;
    let secret = hex_bytes(raw.secret_hex.as_str(), Field::Secret)?;
    let ports = raw.ports.clone();
    assert(ports@ =~= raw.ports@);
    Ok(TokenEntry { token_id, secret, ports })
}

/// Parse the clients of a file.
pub fn parse_clients(raw: &[RawClient]) -> (r: Result<Vec<ClientEntry>, ConfigError>)
    ensures
        match r {
            Ok(list) => collected(client_results(raw@)) == Ok::<Seq<EntryView>, ConfigErrorView>(
                client_views(list@),
            ),
            Err(e) => collected(client_results(raw@)) == Err::<Seq<EntryView>, ConfigErrorView>(
                e@,
            ),
        },
{
    let mut out: Vec<ClientEntry> = Vec::with_capacity(raw.len());
    let ghost results = client_results(raw@);
    let mut i: usize = 0;
    assert(client_views(out@) =~= Seq::empty());
    while i < raw.len()
        invariant
            i <= raw@.len(),
            results == client_results(raw@),
            collected(results.take(i as int)) == Ok::<Seq<EntryView>, ConfigErrorView>(
                client_views(out@),
            ),
        decreases raw@.len() - i,
    {
        let ghost before = out@;
        proof {
            assert(results.take(i + 1).drop_last() =~= results.take(i as int));
            assert(results.take(i + 1).last() == client_parsed(raw@[i as int]));
        }
        match parse_client(&raw[i]) {
            Ok(entry) => {
                out.push(entry);
                assert(client_views(out@) =~= client_views(before).push(entry@));
            },
            Err(e) => {
                proof {
                    lemma_collected_err(results, i + 1);
                }
                return Err(e);
            },
        }
        i += 1;
    }
    assert(results.take(i as int) =~= results);
    Ok(out)
}

/// Parse the tokens of a file.
pub fn parse_tokens(raw: &[RawToken]) -> (r: Result<Vec<TokenEntry>, ConfigError>)
    ensures
        match r {
            Ok(list) => collected(token_results(raw@)) == Ok::<Seq<EntryView>, ConfigErrorView>(
                token_views(list@),
            ),
            Err(e) => collected(token_results(raw@)) == Err::<Seq<EntryView>, ConfigErrorView>(e@),
        },
{
    let mut out: Vec<TokenEntry> = Vec::with_capacity(raw.len());
    let ghost results = token_results(raw@);
    let mut i: usize = 0;
    assert(token_views(out@) =~= Seq::empty());
    while i < raw.len()
        invariant
            i <= raw@.len(),
            results == token_results(raw@),
            collected(results.take(i as int)) == Ok::<Seq<EntryView>, ConfigErrorView>(
                token_views(out@),
            ),
        decreases raw@.len() - i,
    {
        let ghost before = out@;
        proof {
            assert(results.take(i + 1).drop_last() =~= results.take(i as int));
            assert(results.take(i + 1).last() == token_parsed(raw@[i as int]));
        }
        match parse_token(&raw[i]) {
            Ok(entry) => {
                out.push(entry);
                assert(token_views(out@) =~= token_views(before).push(entry@));
            },
            Err(e) => {
                proof {
                    lemma_collected_err(results, i + 1);
                }
                return Err(e);
            },
        }
        i += 1;
    }
    assert(results.take(i as int) =~= results);
    Ok(out)
}

/// The bytes in an optional hexadecimal field of any length.
pub open spec fn hex_any_opt(text: Option<String>, field: Field) -> Result<
    Option<Seq<u8>>,
    ConfigErrorView,
> {
    match text {
        None => Ok(None),
        Some(text) => match hex_any(text@, field) {
            Ok(bytes) => Ok(Some(bytes)),
            Err(e) => Err(e),
        },
    }
}

/// The bytes in an optional hexadecimal field of fixed length.
pub open spec fn hex_sized_opt(text: Option<String>, n: int, field: Field) -> Result<
    Option<Seq<u8>>,
    ConfigErrorView,
> {
    match text {
        None => Ok(None),
        Some(text) => match hex_sized(text@, n, field) {
            Ok(bytes) => Ok(Some(bytes)),
            Err(e) => Err(e),
        },
    }
}

/// The first thing that is wrong with a configuration file, if anything is.
pub open spec fn first_error(raw: RawConfig) -> Option<ConfigErrorView> {
    if suite_named(raw.suite@) is None {
        Some(ConfigErrorView::UnknownSuite(raw.suite@))
    } else if hex_any_opt(raw.config_anchor_hex, Field::ConfigAnchor) is Err {
        Some(hex_any_opt(raw.config_anchor_hex, Field::ConfigAnchor)->Err_0)
    } else if hex_sized(
        raw.gate_private_hex@,
        GATE_PRIVATE_LEN as int,
        Field::GatePrivate,
    ) is Err {
        Some(
            hex_sized(
                raw.gate_private_hex@,
                GATE_PRIVATE_LEN as int,
                Field::GatePrivate,
            )->Err_0,
        )
    } else if hex_sized_opt(raw.gate_id_hex, GATE_ID_LEN as int, Field::GateId) is Err {
        Some(hex_sized_opt(raw.gate_id_hex, GATE_ID_LEN as int, Field::GateId)->Err_0)
    } else if collected(client_results(raw.client@)) is Err {
        Some(collected(client_results(raw.client@))->Err_0)
    } else if collected(token_results(raw.token@)) is Err {
        Some(collected(token_results(raw.token@))->Err_0)
    } else {
        None
    }
}

/// What a field holds, or what it holds by default.
pub open spec fn or_default<T>(value: Option<T>, default: T) -> T {
    match value {
        Some(value) => value,
        None => default,
    }
}

/// The key bytes in an optional anchor.
pub open spec fn anchor_bytes(anchor: Option<Vec<u8>>) -> Option<Seq<u8>> {
    match anchor {
        Some(bytes) => Some(bytes@),
        None => None,
    }
}

/// The bytes of an optional gate id.
pub open spec fn gate_id_bytes(id: Option<[u8; GATE_ID_LEN]>) -> Option<Seq<u8>> {
    match id {
        Some(bytes) => Some(bytes@),
        None => None,
    }
}

impl Config {
    /// This configuration is what the file says.
    pub open spec fn reflects(self, raw: RawConfig) -> bool {
        &&& Some(self.suite) == suite_named(raw.suite@)
        &&& self.interface == raw.interface
        &&& self.knock_port == raw.knock_port
        &&& self.bpf_object == raw.bpf_object
        &&& self.pinhole_ms == or_default(raw.pinhole_ms, DEFAULT_PINHOLE_MS)
        &&& self.skew_seconds == or_default(raw.skew_seconds, DEFAULT_SKEW_SECONDS)
        &&& self.nftables_floor == or_default(raw.nftables_floor, true)
        &&& self.bundle_path == raw.bundle_path
        &&& self.protected_ports == raw.protected_ports
        &&& self.control_plane == raw.control_plane
        &&& hex_sized(raw.gate_private_hex@, GATE_PRIVATE_LEN as int, Field::GatePrivate) == Ok::<
            Seq<u8>,
            ConfigErrorView,
        >(self.gate_private@)
        &&& hex_sized_opt(raw.gate_id_hex, GATE_ID_LEN as int, Field::GateId) == Ok::<
            Option<Seq<u8>>,
            ConfigErrorView,
        >(gate_id_bytes(self.gate_id))
        &&& hex_any_opt(raw.config_anchor_hex, Field::ConfigAnchor) == Ok::<
            Option<Seq<u8>>,
            ConfigErrorView,
        >(anchor_bytes(self.config_anchor))
        &&& collected(client_results(raw.client@)) == Ok::<Seq<EntryView>, ConfigErrorView>(
            client_views(self.clients@),
        )
        &&& collected(token_results(raw.token@)) == Ok::<Seq<EntryView>, ConfigErrorView>(
            token_views(self.tokens@),
        )
    }

    /// Check a configuration file and fill in the defaults.
    pub fn from_raw(raw: RawConfig) -> (r: Result<Config, ConfigError>)
        ensures
            match r {
                Ok(config) => first_error(raw) is None && config.reflects(raw),
                Err(e) => first_error(raw) == Some(e@),
            },
    {
        let suite = match find_suite(raw.suite.as_str()) {
            Some(suite) => suite,
            None => {
                return Err(ConfigError::UnknownSuite(raw.suite));
            },
        };
        let config_anchor = match &raw.config_anchor_hex {
            Some(text) => Some(hex_bytes(text.as_str(), Field::ConfigAnchor)?),
            None => None,
        };
        let gate_private = hex_len(
            raw.gate_private_hex.as_str(),
            GATE_PRIVATE_LEN,
            Field::GatePrivate,
        )?;
        let gate_id = match &raw.gate_id_hex {
            Some(text) => Some(hex_arr::<GATE_ID_LEN>(text.as_str(), Field::GateId)?),
            None => None,
        };
        let clients = parse_clients(raw.client.as_slice())?;
        let tokens = parse_tokens(raw.token.as_slice())?;
        Ok(
            Config {
                interface: raw.interface,
                knock_port: raw.knock_port,
                suite,
                gate_private,
                gate_id,
                bpf_object: raw.bpf_object,
                pinhole_ms: raw.pinhole_ms.unwrap_or(DEFAULT_PINHOLE_MS),
                skew_seconds: raw.skew_seconds.unwrap_or(DEFAULT_SKEW_SECONDS),
                nftables_floor: raw.nftables_floor.unwrap_or(true),
                config_anchor,
                bundle_path: raw.bundle_path,
                protected_ports: raw.protected_ports,
                clients,
                tokens,
                control_plane: raw.control_plane,
            },
        )
    }

    /// The decision core's static policy, in nanoseconds. Times too long for the
    /// clock become the longest that it can tell.
    pub fn gate_policy(&self, gate_id: [u8; GATE_ID_LEN]) -> (r: gatekeeper::Config)
        ensures
            r.gate_id@ == gate_id@,
            r.skew_nanos == crate::grant::at_most(
                self.skew_seconds * 1_000_000_000,
                u64::MAX as int,
            ),
            r.pinhole_nanos == crate::grant::at_most(self.pinhole_ms * 1_000_000, u64::MAX as int),
    {
        gatekeeper::Config {
            gate_id,
            skew_nanos: saturating_mul(self.skew_seconds, 1_000_000_000),
            pinhole_nanos: saturating_mul(self.pinhole_ms, 1_000_000),
        }
    }

    /// How long a nonce must be remembered, in nanoseconds: longer than a knock
    /// can stay timely.
    pub fn replay_window_nanos(&self) -> (r: u128)
        ensures
            r == (self.skew_seconds * 2 + 1) * 1_000_000_000,
    {
        (self.skew_seconds as u128 * 2 + 1) * 1_000_000_000
    }
}

/// The product, or the largest number there is.
pub fn saturating_mul(a: u64, b: u64) -> (r: u64)
    ensures
        r == crate::grant::at_most(a * b, u64::MAX as int),
{
    match a.checked_mul(b) {
        Some(r) => r,
        None => u64::MAX,
    }
}

} // verus!
