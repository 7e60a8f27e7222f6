//! What configuration files and bundles say.

use vstd::prelude::*;
use vstd::string::*;

use crate::bundle::{Bundle, RawBundle};
use crate::config::{
    find_suite, name_suite, parse_clients, parse_tokens, saturating_mul, ClientEntry, Config,
    ConfigError, ConfigErrorView, EntryView, Field, RawClient, RawConfig, RawToken, TokenEntry,
};
use crate::gatekeeper;
use crate::hexcode;
use crate::hexcode::HexError;
use crate::wire::{Suite, GATE_ID_LEN};

verus! {

/// `text` spells `bytes` in hexadecimal.
pub open spec fn holds(text: Seq<char>, bytes: Seq<u8>) -> bool {
    hexcode::unhexed(text) == Ok::<Seq<u8>, HexError>(bytes)
}

/// `text` spells bytes in hexadecimal, and as many as are wanted.
pub open spec fn good(text: Seq<char>, wanted: Option<int>) -> bool {
    hexcode::unhexed(text) matches Ok(bytes) && (wanted matches Some(n) ==> bytes.len() == n)
}

/// What is said of a field that is not good.
pub open spec fn faults(text: Seq<char>, wanted: Option<int>, field: Field, e: ConfigError) -> bool {
    &&& !good(text, wanted)
    &&& match hexcode::unhexed(text) {
        Err(why) => e == ConfigError::BadHex(field, why),
        Ok(bytes) => e matches ConfigError::WrongLength { field: f, expected, got } && f == field
            && expected == wanted->0 && got == bytes.len(),
    }
}

/// What stands in the file is this client.
pub open spec fn client_of(raw: RawClient, c: ClientEntry) -> bool {
    holds(raw.thumbprint_hex@, c.thumbprint@) && holds(raw.public_key_hex@, c.public_key@)
        && c.ports@ == raw.ports@
}

pub open spec fn client_good(raw: RawClient) -> bool {
    good(raw.thumbprint_hex@, Some(32)) && good(raw.public_key_hex@, None)
}

/// What is said of a client that is not good: of its thumbprint before its key.
pub open spec fn client_faults(raw: RawClient, e: ConfigError) -> bool {
    if !good(raw.thumbprint_hex@, Some(32)) {
        faults(raw.thumbprint_hex@, Some(32), Field::Thumbprint, e)
    } else {
        faults(raw.public_key_hex@, None, Field::PublicKey, e)
    }
}

/// What stands in the file is this token.
pub open spec fn token_of(raw: RawToken, t: TokenEntry) -> bool {
    holds(raw.token_id_hex@, t.token_id@) && holds(raw.secret_hex@, t.secret@) && t.ports@
        == raw.ports@
}

pub open spec fn token_good(raw: RawToken) -> bool {
    good(raw.token_id_hex@, Some(32)) && good(raw.secret_hex@, None)
}

/// What is said of a token that is not good: of its id before its secret.
pub open spec fn token_faults(raw: RawToken, e: ConfigError) -> bool {
    if !good(raw.token_id_hex@, Some(32)) {
        faults(raw.token_id_hex@, Some(32), Field::TokenId, e)
    } else {
        faults(raw.secret_hex@, None, Field::Secret, e)
    }
}

/// Each client of the file, in order.
pub open spec fn clients_of(raw: Seq<RawClient>, list: Seq<ClientEntry>) -> bool {
    list.len() == raw.len() && forall|i: int|
        0 <= i < raw.len() ==> client_of(raw[i], #[trigger] list[i])
}

/// The first client of the file that is not good, and what is said of it.
pub open spec fn clients_fault(raw: Seq<RawClient>, e: ConfigError) -> bool {
    exists|n: int|
        0 <= n < raw.len() && client_faults(#[trigger] raw[n], e) && forall|i: int|
            0 <= i < n ==> client_good(#[trigger] raw[i])
}

/// Each token of the file, in order.
pub open spec fn tokens_of(raw: Seq<RawToken>, list: Seq<TokenEntry>) -> bool {
    list.len() == raw.len() && forall|i: int|
        0 <= i < raw.len() ==> token_of(raw[i], #[trigger] list[i])
}

/// The first token of the file that is not good, and what is said of it.
pub open spec fn tokens_fault(raw: Seq<RawToken>, e: ConfigError) -> bool {
    exists|n: int|
        0 <= n < raw.len() && token_faults(#[trigger] raw[n], e) && forall|i: int|
            0 <= i < n ==> token_good(#[trigger] raw[i])
}

proof fn lemma_collected(results: Seq<Result<EntryView, ConfigErrorView>>)
    ensures
        match crate::config::collected(results) {
            Ok(list) => list.len() == results.len() && forall|i: int|
                0 <= i < results.len() ==> #[trigger] results[i] == Ok::<EntryView, ConfigErrorView>(
                    list[i],
                ),
            Err(e) => exists|n: int|
                0 <= n < results.len() && #[trigger] results[n] == Err::<EntryView, ConfigErrorView>(
                    e,
                ) && forall|i: int| 0 <= i < n ==> (#[trigger] results[i]) is Ok,
        },
    decreases results.len(),
{
    if results.len() > 0 {
        let less = results.drop_last();
        lemma_collected(less);
        assert forall|i: int| 0 <= i < less.len() implies #[trigger] results[i] == less[i] by {}
        match crate::config::collected(less) {
            Ok(list) => {
                assert forall|i: int| 0 <= i < less.len() implies (#[trigger] results[i]) is Ok by {
                    assert(less[i] == Ok::<EntryView, ConfigErrorView>(list[i]));
                }
                assert(results[results.len() - 1] == results.last());
            },
            Err(e) => {
                let n = choose|n: int|
                    0 <= n < less.len() && #[trigger] less[n] == Err::<EntryView, ConfigErrorView>(
                        e,
                    ) && forall|i: int| 0 <= i < n ==> (#[trigger] less[i]) is Ok;
                assert(results[n] == less[n]);
                assert forall|i: int| 0 <= i < n implies (#[trigger] results[i]) is Ok by {
                    assert(less[i] is Ok);
                }
            },
        }
    }
}

proof fn lemma_clients_of(raw: Seq<RawClient>, list: Seq<ClientEntry>)
    requires
        crate::config::collected(crate::config::client_results(raw)) == Ok::<
            Seq<EntryView>,
            ConfigErrorView,
        >(crate::config::client_views(list)),
    ensures
        clients_of(raw, list),
        forall|i: int| 0 <= i < raw.len() ==> client_good(#[trigger] raw[i]),
{
    let results = crate::config::client_results(raw);
    lemma_collected(results);
    assert forall|i: int| 0 <= i < raw.len() implies client_of(#[trigger] raw[i], list[i])
        && client_good(raw[i]) by {
        assert(results[i] == crate::config::client_parsed(raw[i]));
        assert(crate::config::client_views(list)[i] == list[i]@);
    }
    assert forall|i: int| 0 <= i < raw.len() implies client_of(raw[i], #[trigger] list[i]) by {
        assert(client_of(raw[i], list[i]));
    }
}

proof fn lemma_clients_fault(raw: Seq<RawClient>, e: ConfigError)
    requires
        crate::config::collected(crate::config::client_results(raw)) == Err::<
            Seq<EntryView>,
            ConfigErrorView,
        >(e@),
    ensures
        clients_fault(raw, e),
        exists|i: int| 0 <= i < raw.len() && !client_good(#[trigger] raw[i]),
{
    let results = crate::config::client_results(raw);
    lemma_collected(results);
    let n = choose|n: int|
        0 <= n < results.len() && #[trigger] results[n] == Err::<EntryView, ConfigErrorView>(e@)
            && forall|i: int| 0 <= i < n ==> (#[trigger] results[i]) is Ok;
    assert(results[n] == crate::config::client_parsed(raw[n]));
    assert(client_faults(raw[n], e));
    assert forall|i: int| 0 <= i < n implies client_good(#[trigger] raw[i]) by {
        assert(results[i] == crate::config::client_parsed(raw[i]));
    }
    assert(!client_good(raw[n]));
}

proof fn lemma_tokens_of(raw: Seq<RawToken>, list: Seq<TokenEntry>)
    requires
        crate::config::collected(crate::config::token_results(raw)) == Ok::<
            Seq<EntryView>,
            ConfigErrorView,
        >(crate::config::token_views(list)),
    ensures
        tokens_of(raw, list),
        forall|i: int| 0 <= i < raw.len() ==> token_good(#[trigger] raw[i]),
{
    let results = crate::config::token_results(raw);
    lemma_collected(results);
    assert forall|i: int| 0 <= i < raw.len() implies token_of(#[trigger] raw[i], list[i])
        && token_good(raw[i]) by {
        assert(results[i] == crate::config::token_parsed(raw[i]));
        assert(crate::config::token_views(list)[i] == list[i]@);
    }
    assert forall|i: int| 0 <= i < raw.len() implies token_of(raw[i], #[trigger] list[i]) by {
        assert(token_of(raw[i], list[i]));
    }
}

proof fn lemma_tokens_fault(raw: Seq<RawToken>, e: ConfigError)
    requires
        crate::config::collected(crate::config::token_results(raw)) == Err::<
            Seq<EntryView>,
            ConfigErrorView,
        >(e@),
    ensures
        tokens_fault(raw, e),
        exists|i: int| 0 <= i < raw.len() && !token_good(#[trigger] raw[i]),
{
    let results = crate::config::token_results(raw);
    lemma_collected(results);
    let n = choose|n: int|
        0 <= n < results.len() && #[trigger] results[n] == Err::<EntryView, ConfigErrorView>(e@)
            && forall|i: int| 0 <= i < n ==> (#[trigger] results[i]) is Ok;
    assert(results[n] == crate::config::token_parsed(raw[n]));
    assert(token_faults(raw[n], e));
    assert forall|i: int| 0 <= i < n implies token_good(#[trigger] raw[i]) by {
        assert(results[i] == crate::config::token_parsed(raw[i]));
    }
    assert(!token_good(raw[n]));
}

/// The clients of a file are read one by one, in order and none left out; the first
/// that is not good is reported.
pub proof fn law_parse_clients(raw: &[RawClient], r: Result<Vec<ClientEntry>, ConfigError>)
    requires
        call_ensures(parse_clients, (raw,), r),
    ensures
        match r {
            Ok(list) => clients_of(raw@, list@),
            Err(e) => clients_fault(raw@, e),
        },
{
    match r {
        Ok(list) => lemma_clients_of(raw@, list@),
        Err(e) => lemma_clients_fault(raw@, e),
    }
}

/// The tokens of a file are read one by one, in order and none left out; the first
/// that is not good is reported.
pub proof fn law_parse_tokens(raw: &[RawToken], r: Result<Vec<TokenEntry>, ConfigError>)
    requires
        call_ensures(parse_tokens, (raw,), r),
    ensures
        match r {
            Ok(list) => tokens_of(raw@, list@),
            Err(e) => tokens_fault(raw@, e),
        },
{
    match r {
        Ok(list) => lemma_tokens_of(raw@, list@),
        Err(e) => lemma_tokens_fault(raw@, e),
    }
}

/// A bundle is what its payload says.
pub proof fn law_bundle_from_raw(raw: RawBundle, r: Result<Bundle, ConfigError>)
    requires
        call_ensures(Bundle::from_raw, (raw,), r),
    ensures
        match r {
            Ok(bundle) => {
                &&& bundle.generation == raw.generation
                &&& bundle.protected_ports@ == raw.protected_ports@
                &&& clients_of(raw.client@, bundle.clients@)
                &&& tokens_of(raw.token@, bundle.tokens@)
            },
            Err(e) => clients_fault(raw.client@, e) || (forall|i: int|
                0 <= i < raw.client@.len() ==> client_good(#[trigger] raw.client@[i]))
                && tokens_fault(raw.token@, e),
        },
{
    let clients = crate::config::collected(crate::config::client_results(raw.client@));
    let tokens = crate::config::collected(crate::config::token_results(raw.token@));
    match r {
        Ok(bundle) => {
            lemma_clients_of(raw.client@, bundle.clients@);
            lemma_tokens_of(raw.token@, bundle.tokens@);
        },
        Err(e) => {
            if clients == Err::<Seq<EntryView>, ConfigErrorView>(e@) {
                lemma_clients_fault(raw.client@, e);
            } else {
                lemma_clients_all_good(raw.client@);
                lemma_tokens_fault(raw.token@, e);
            }
        },
    }
}

proof fn lemma_clients_all_good(raw: Seq<RawClient>)
    requires
        crate::config::collected(crate::config::client_results(raw)) is Ok,
    ensures
        forall|i: int| 0 <= i < raw.len() ==> client_good(#[trigger] raw[i]),
{
    let results = crate::config::client_results(raw);
    lemma_collected(results);
    assert forall|i: int| 0 <= i < raw.len() implies client_good(#[trigger] raw[i]) by {
        assert(results[i] == crate::config::client_parsed(raw[i]));
    }
}

/// An optional field that is there is good.
pub open spec fn good_if_any(text: Option<String>, wanted: Option<int>) -> bool {
    text matches Some(text) ==> good(text@, wanted)
}

/// A configuration is what the file says: pinhole, skew and floor are 400
/// milliseconds, 2 seconds and on where it says nothing of them.
pub open spec fn says(raw: RawConfig, config: Config) -> bool {
    &&& raw.suite@ == "fips"@ ==> config.suite == Suite::Fips
    &&& raw.suite@ == "modern"@ ==> config.suite == Suite::Modern
    &&& config.interface@ == raw.interface@
    &&& config.knock_port == raw.knock_port
    &&& config.bpf_object@ == raw.bpf_object@
    &&& config.pinhole_ms == (if raw.pinhole_ms is Some {
        raw.pinhole_ms->0
    } else {
        400
    })
    &&& config.skew_seconds == (if raw.skew_seconds is Some {
        raw.skew_seconds->0
    } else {
        2
    })
    &&& config.nftables_floor == (raw.nftables_floor is None || raw.nftables_floor->0)
    &&& config.bundle_path == raw.bundle_path
    &&& config.protected_ports@ == raw.protected_ports@
    &&& config.control_plane == raw.control_plane
    &&& holds(raw.gate_private_hex@, config.gate_private@) && config.gate_private@.len() == 32
    &&& config.gate_id is Some == raw.gate_id_hex is Some
    &&& config.gate_id is Some ==> holds(raw.gate_id_hex->0@, config.gate_id->0@)
    &&& config.config_anchor is Some == raw.config_anchor_hex is Some
    &&& config.config_anchor is Some ==> holds(raw.config_anchor_hex->0@, config.config_anchor->0@)
    &&& clients_of(raw.client@, config.clients@)
    &&& tokens_of(raw.token@, config.tokens@)
}

/// The first thing that is wrong with a file.
pub open spec fn faults_in(raw: RawConfig, e: ConfigError) -> bool {
    if raw.suite@ != "fips"@ && raw.suite@ != "modern"@ {
        e matches ConfigError::UnknownSuite(name) && name@ == raw.suite@
    } else if !good_if_any(raw.config_anchor_hex, None) {
        faults(raw.config_anchor_hex->0@, None, Field::ConfigAnchor, e)
    } else if !good(raw.gate_private_hex@, Some(32)) {
        faults(raw.gate_private_hex@, Some(32), Field::GatePrivate, e)
    } else if !good_if_any(raw.gate_id_hex, Some(16)) {
        faults(raw.gate_id_hex->0@, Some(16), Field::GateId, e)
    } else if exists|i: int| 0 <= i < raw.client@.len() && !client_good(#[trigger] raw.client@[i]) {
        clients_fault(raw.client@, e)
    } else {
        tokens_fault(raw.token@, e)
    }
}

/// A file is accepted as what it says, or the first thing that is wrong with it is
/// reported.
pub proof fn law_config_from_raw(raw: RawConfig, r: Result<Config, ConfigError>)
    requires
        call_ensures(Config::from_raw, (raw,), r),
    ensures
        match r {
            Ok(config) => (raw.suite@ == "fips"@ || raw.suite@ == "modern"@) && says(raw, config),
            Err(e) => faults_in(raw, e),
        },
{
    crate::config::law_suite_named(Suite::Modern);
    match r {
        Ok(config) => {
            lemma_clients_of(raw.client@, config.clients@);
            lemma_tokens_of(raw.token@, config.tokens@);
        },
        Err(e) => {
            let clients = crate::config::collected(crate::config::client_results(raw.client@));
            let tokens = crate::config::collected(crate::config::token_results(raw.token@));
            if clients is Err && clients->Err_0 == e@ {
                lemma_clients_fault(raw.client@, e);
            }
            if clients is Ok {
                lemma_clients_all_good(raw.client@);
            }
            if tokens is Err && tokens->Err_0 == e@ {
                lemma_tokens_fault(raw.token@, e);
            }
        },
    }
}

/// Times are kept in nanoseconds, and one that is too long as the longest there is.
pub proof fn law_gate_policy(config: &Config, gate_id: [u8; GATE_ID_LEN], r: gatekeeper::Config)
    requires
        call_ensures(Config::gate_policy, (config, gate_id), r),
    ensures
        r.gate_id@ == gate_id@,
        config.skew_seconds <= 18446744073 ==> r.skew_nanos == config.skew_seconds * 1_000_000_000,
        config.skew_seconds > 18446744073 ==> r.skew_nanos == 0xffff_ffff_ffff_ffff,
        config.pinhole_ms <= 18446744073709 ==> r.pinhole_nanos == config.pinhole_ms * 1_000_000,
        config.pinhole_ms > 18446744073709 ==> r.pinhole_nanos == 0xffff_ffff_ffff_ffff,
{
}

/// A nonce is remembered for a second longer than the time within which two timely
/// knocks can lie, so that no knock is timely once its nonce is forgotten.
pub proof fn law_nonces_outlive_knocks(
    config: &Config,
    gate_id: [u8; GATE_ID_LEN],
    policy: gatekeeper::Config,
    window: u128,
)
    requires
        call_ensures(Config::gate_policy, (config, gate_id), policy),
        call_ensures(Config::replay_window_nanos, (config,), window),
    ensures
        window == config.skew_seconds * 2_000_000_000 + 1_000_000_000,
        window > 2 * policy.skew_nanos,
{
}

/// A product that is too large is the largest number there is.
pub proof fn law_saturating_mul(a: u64, b: u64, r: u64)
    requires
        call_ensures(saturating_mul, (a, b), r),
    ensures
        a * b <= 0xffff_ffff_ffff_ffff ==> r == a * b,
        a * b > 0xffff_ffff_ffff_ffff ==> r == 0xffff_ffff_ffff_ffff,
{
}

/// The suites have their names, and nothing else is a suite's name.
pub proof fn law_suite_names(name: &str, r: Option<Suite>, suite: Suite, s: &str)
    requires
        call_ensures(find_suite, (name,), r),
        call_ensures(name_suite, (suite,), s),
    ensures
        name@ == "fips"@ ==> r == Some(Suite::Fips),
        name@ == "modern"@ ==> r == Some(Suite::Modern),
        name@ != "fips"@ && name@ != "modern"@ ==> r is None,
        suite == Suite::Fips ==> s@ == "fips"@,
        suite == Suite::Modern ==> s@ == "modern"@,
{
    crate::config::law_suite_named(Suite::Modern);
}

} // verus!
