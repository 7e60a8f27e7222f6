//! What is told of ports, decisions and services: to the firewall, to the audit log
//! and to a user.

use vstd::prelude::*;
use vstd::string::*;

use crate::addr::IpAddr;
use crate::audit::{
    applied, bundle, control_plane, floor, knock, name_reject, not_applied, startup, Event,
};
use crate::catalog::{
    catalog_request, join_url, signing_message, Catalog, CatalogRequest, Endpoint, Service,
};
use crate::envelope::CryptoError;
use crate::gatekeeper::{Decision, Reject};
use crate::hexcode;
use crate::identity::ClientKey;
use crate::nft::{install_floor, set_ports, timeout_secs};
use crate::watch::Outcome;
use crate::wire::Suite;

verus! {

/// The command that puts a port under the floor.
pub open spec fn command(port: u16) -> Seq<char> {
    "add element inet spa ports { "@ + crate::text::decimal(port as nat) + " }\n"@
}

/// The commands for ports, in order.
pub open spec fn commands(ports: Seq<u16>) -> Seq<char> {
    ports.map_values(|port: u16| command(port)).flatten()
}

proof fn lemma_commands(ports: Seq<u16>)
    ensures
        crate::nft::port_commands(ports) == commands(ports),
    decreases ports.len(),
{
    let all = ports.map_values(|port: u16| command(port));
    if ports.len() > 0 {
        let less = ports.drop_last();
        lemma_commands(less);
        let front = less.map_values(|port: u16| command(port));
        assert(all =~= front.push(command(ports.last())));
        front.lemma_flatten_push(command(ports.last()));
        assert(crate::nft::port_commands(ports) =~= commands(ports));
    } else {
        assert(crate::nft::port_commands(ports) =~= commands(ports));
    }
}

/// The floor is put in place with a command for each protected port.
pub proof fn law_install_floor(protected: &[u16], script: String)
    requires
        call_ensures(install_floor, (protected,), script),
    ensures
        script@
            == "add table inet spa\nflush table inet spa\ntable inet spa {\n  set allow4 { type ipv4_addr; flags timeout; }\n  set ports { type inet_service; }\n  chain input {\n    type filter hook input priority filter; policy accept;\n    ct state established,related accept\n    tcp dport @ports ip saddr @allow4 accept\n    tcp dport @ports drop\n  }\n}\n"@
            + commands(protected@),
{
    lemma_commands(protected@);
}

/// The floor's ports are replaced by the protected ports.
pub proof fn law_set_ports(protected: &[u16], script: String)
    requires
        call_ensures(set_ports, (protected,), script),
    ensures
        script@ == "flush set inet spa ports\n"@ + commands(protected@),
{
    lemma_commands(protected@);
}

/// An address is let through the floor for its time, and for a second at least.
pub proof fn law_allow(ip: [u8; 4], secs: u64, element: String)
    requires
        call_ensures(crate::nft::allow, (ip, secs), element),
    ensures
        element@ == "{ "@ + (crate::text::decimal(ip@[0] as nat) + "."@ + crate::text::decimal(
            ip@[1] as nat,
        ) + "."@ + crate::text::decimal(ip@[2] as nat) + "."@ + crate::text::decimal(ip@[3] as nat))
            + " timeout "@ + crate::text::decimal(
            if secs >= 1 {
                secs as nat
            } else {
                1
            },
        ) + "s }"@,
{
}

/// A time is told in whole seconds, rounded up.
pub proof fn law_timeout_secs(ttl_nanos: u64, secs: u64)
    requires
        call_ensures(timeout_secs, (ttl_nanos,), secs),
    ensures
        secs == (ttl_nanos + 999_999_999) / 1_000_000_000,
{
}

/// A list of ports, as it is logged: in brackets, with a comma between two.
pub open spec fn listed(ports: Seq<u16>) -> Seq<char> {
    "["@ + (if ports.len() == 0 {
        Seq::empty()
    } else {
        crate::text::decimal(ports[0] as nat) + ports.skip(1).map_values(
            |port: u16| ", "@ + crate::text::decimal(port as nat),
        ).flatten()
    }) + "]"@
}

proof fn lemma_more_ports(ports: Seq<u16>)
    requires
        ports.len() > 0,
    ensures
        crate::audit::more_ports(ports) == ports.skip(1).map_values(
            |port: u16| ", "@ + crate::text::decimal(port as nat),
        ).flatten(),
    decreases ports.len(),
{
    let all = ports.skip(1).map_values(|port: u16| ", "@ + crate::text::decimal(port as nat));
    if ports.len() > 1 {
        let less = ports.drop_last();
        lemma_more_ports(less);
        let front = less.skip(1).map_values(
            |port: u16| ", "@ + crate::text::decimal(port as nat),
        );
        let last = ", "@ + crate::text::decimal(ports.last() as nat);
        assert(all =~= front.push(last));
        front.lemma_flatten_push(last);
        assert(crate::audit::more_ports(ports) =~= all.flatten());
    } else {
        assert(crate::audit::more_ports(ports) =~= all.flatten());
    }
}

/// A bundle that went into force is logged with its generation, how many clients and
/// tokens it has, and its ports.
pub proof fn law_applied(generation: u64, clients: usize, tokens: usize, ports: &[u16], r: Event)
    requires
        call_ensures(applied, (generation, clients, tokens, ports), r),
    ensures
        match r {
            Event::Bundle { action, generation: told, detail } => {
                &&& action@ == "applied"@
                &&& told == Some(generation)
                &&& detail is Some
                &&& detail->0@ == crate::text::decimal(clients as nat) + " clients, "@
                    + crate::text::decimal(tokens as nat) + " tokens, ports "@ + listed(ports@)
            },
            _ => false,
        },
{
    if ports@.len() > 0 {
        lemma_more_ports(ports@);
    }
}

/// A bundle that did not go into force is logged with the reason.
pub proof fn law_not_applied(outcome: &Outcome, r: Option<Event>)
    requires
        call_ensures(not_applied, (outcome,), r),
    ensures
        *outcome is Applied == r is None,
        match (*outcome, r) {
            (
                Outcome::Rejected(words),
                Some(Event::Bundle { action, generation, detail }),
            ) => action@ == "rejected"@ && generation is None && detail is Some && detail->0@
                == words@,
            (
                Outcome::Ignored { generation: seen, applied },
                Some(Event::Bundle { action, generation, detail }),
            ) => action@ == "ignored"@ && generation == Some(seen) && detail is Some && detail->0@
                == "<= applied "@ + crate::text::decimal(applied as nat),
            (Outcome::Applied { .. }, None) => true,
            _ => false,
        },
{
}

/// A knock is logged with its source and what was decided.
pub proof fn law_knock_event(source: IpAddr, decision: &Decision, r: Event)
    requires
        call_ensures(knock, (source, decision), r),
    ensures
        match r {
            Event::Knock { source: from, outcome, ports, reason } => {
                &&& from == source
                &&& match *decision {
                    Decision::Opened { ports: opened } => outcome@ == "open"@ && reason is None
                        && ports is Some && ports->0@ == opened@,
                    Decision::Rejected(why) => outcome@ == "deny"@ && ports is None && reason is Some
                        && reason->0@ == match why {
                        Reject::Undecryptable => "Undecryptable"@,
                        Reject::WrongGate => "WrongGate"@,
                        Reject::Expired => "Expired"@,
                        Reject::UnknownClient => "UnknownClient"@,
                        Reject::BadSignature => "BadSignature"@,
                        Reject::PortNotAllowed => "PortNotAllowed"@,
                        Reject::Replay => "Replay"@,
                    },
                }
            },
            _ => false,
        },
{
}

/// Two reasons have different names.
pub proof fn law_reasons_are_told_apart(a: Reject, b: Reject, x: &str, y: &str)
    requires
        call_ensures(name_reject, (a,), x),
        call_ensures(name_reject, (b,), y),
        x@ == y@,
    ensures
        a == b,
{
    reveal_strlit("Undecryptable");
    reveal_strlit("WrongGate");
    reveal_strlit("Expired");
    reveal_strlit("UnknownClient");
    reveal_strlit("BadSignature");
    reveal_strlit("PortNotAllowed");
    reveal_strlit("Replay");
    assert("Undecryptable"@.len() == 13 && "UnknownClient"@.len() == 13);
    assert("WrongGate"@.len() == 9 && "Expired"@.len() == 7 && "BadSignature"@.len() == 12);
    assert("PortNotAllowed"@.len() == 14 && "Replay"@.len() == 6);
    assert("Undecryptable"@[2] == 'd' && "UnknownClient"@[2] == 'k');
}

/// The other events hold what they are told.
pub proof fn law_events(
    interface: &str,
    knock_port: u16,
    suite: &str,
    protected: &[u16],
    clients: usize,
    tokens: usize,
    nft_floor: bool,
    started: Event,
    floored: Event,
    action: &'static str,
    generation: Option<u64>,
    detail: Option<String>,
    bundled: Event,
    step: &str,
    about: String,
    controlled: Event,
)
    requires
        call_ensures(
            startup,
            (interface, knock_port, suite, protected, clients, tokens, nft_floor),
            started,
        ),
        call_ensures(floor, (protected,), floored),
        call_ensures(bundle, (action, generation, detail), bundled),
        call_ensures(control_plane, (step, about), controlled),
    ensures
        match started {
            Event::Startup { interface: i, knock_port: k, suite: s, protected: p, clients: c, tokens: t, nft_floor: n } =>
                i@ == interface@ && k == knock_port && s@ == suite@ && p@ == protected@ && c
                == clients && t == tokens && n == nft_floor,
            _ => false,
        },
        floored is Floor,
        floored->Floor_protected@ == protected@,
        bundled == (Event::Bundle { action, generation, detail }),
        controlled is ControlPlane,
        controlled->step@ == step@,
        controlled->about@ == about@,
{
}

/// An endpoint, as it is listed.
pub open spec fn endpoint_listed(e: Endpoint) -> Seq<char> {
    "      "@ + e.protocol@ + "/"@ + crate::text::decimal(e.port as nat) + "  via gate "@
        + e.descriptor.address@ + " (knock "@ + crate::text::decimal(e.descriptor.knock_port as nat)
        + ")\n"@
}

/// A service and all of its endpoints, as they are listed.
pub open spec fn service_listed(s: Service) -> Seq<char> {
    "  "@ + s.name@ + "  ->  "@ + s.mesh_ip@ + "\n"@ + s.endpoints@.map_values(
        |e: Endpoint| endpoint_listed(e),
    ).flatten()
}

proof fn lemma_endpoints(endpoints: Seq<Endpoint>)
    ensures
        crate::catalog::endpoint_lines(endpoints) == endpoints.map_values(
            |e: Endpoint| endpoint_listed(e),
        ).flatten(),
    decreases endpoints.len(),
{
    let all = endpoints.map_values(|e: Endpoint| endpoint_listed(e));
    if endpoints.len() > 0 {
        let less = endpoints.drop_last();
        lemma_endpoints(less);
        let front = less.map_values(|e: Endpoint| endpoint_listed(e));
        let last = endpoint_listed(endpoints.last());
        assert(all =~= front.push(last));
        front.lemma_flatten_push(last);
        assert(crate::catalog::endpoint_lines(endpoints) =~= all.flatten());
    } else {
        assert(crate::catalog::endpoint_lines(endpoints) =~= all.flatten());
    }
}

proof fn lemma_services(services: Seq<Service>)
    ensures
        crate::catalog::services_lines(services) == services.map_values(
            |s: Service| service_listed(s),
        ).flatten(),
    decreases services.len(),
{
    let all = services.map_values(|s: Service| service_listed(s));
    if services.len() > 0 {
        let less = services.drop_last();
        lemma_services(less);
        let front = less.map_values(|s: Service| service_listed(s));
        let last = services.last();
        lemma_endpoints(last.endpoints@);
        assert(all =~= front.push(service_listed(last)));
        front.lemma_flatten_push(service_listed(last));
        assert(crate::catalog::services_lines(services) =~= all.flatten());
    } else {
        assert(crate::catalog::services_lines(services) =~= all.flatten());
    }
}

/// Every service that a device may reach is listed, with every endpoint.
pub proof fn law_listing(catalog: &Catalog, out: String)
    requires
        call_ensures(Catalog::listing, (catalog,), out),
    ensures
        out@ == "device "@ + catalog.device.name@ + " ("@ + catalog.device.thumbprint@ + ")  mesh "@
            + catalog.mesh_cidr@ + "\n"@ + (if catalog.services@.len() == 0 {
            "  (no reachable services — check policy)\n"@
        } else {
            catalog.services@.map_values(|s: Service| service_listed(s)).flatten()
        }),
{
    lemma_services(catalog.services@);
}

/// `t` is `s` without the slashes at its end.
pub open spec fn unslashed(s: Seq<char>, t: Seq<char>) -> bool {
    exists|n: int|
        0 <= n <= s.len() && t == #[trigger] s.take(n) && (n > 0 ==> s[n - 1] != '/') && forall|
            i: int,
        |
            n <= i < s.len() ==> s[i] == '/'
}

pub(crate) proof fn lemma_unslashed(s: Seq<char>)
    ensures
        unslashed(s, crate::catalog::trim_slashes(s)),
    decreases s.len(),
{
    if s.len() > 0 && s.last() == '/' {
        let less = s.drop_last();
        lemma_unslashed(less);
        let t = crate::catalog::trim_slashes(s);
        let n = choose|n: int|
            0 <= n <= less.len() && t == #[trigger] less.take(n) && (n > 0 ==> less[n - 1] != '/')
                && forall|i: int| n <= i < less.len() ==> less[i] == '/';
        assert(less.take(n) =~= s.take(n));
        assert forall|i: int| n <= i < s.len() implies s[i] == '/' by {
            if i < less.len() {
                assert(less[i] == s[i]);
            }
        }
    } else {
        assert(s.take(s.len() as int) =~= s);
    }
}

/// A path is put behind an address, whether or not that ends with slashes.
pub proof fn law_join_url(base: &str, path: &str, r: String)
    requires
        call_ensures(join_url, (base, path), r),
    ensures
        exists|address: Seq<char>| #[trigger]
            unslashed(base@, address) && r@ == address + path@,
{
    lemma_unslashed(base@);
}

/// What a device signs to ask for its catalog.
pub proof fn law_signing_message(timestamp: u64, r: String)
    requires
        call_ensures(signing_message, (timestamp,), r),
    ensures
        r@ == "GET\n/api/client/catalog\n"@ + crate::text::decimal(timestamp as nat),
{
}

/// A device asks for its catalog under its thumbprint, at a time, with its signature
/// over both.
pub proof fn law_catalog_request(
    url: &str,
    pkcs8: &[u8],
    suite: Suite,
    key: ClientKey,
    timestamp: u64,
    r: Result<CatalogRequest, CryptoError>,
)
    requires
        call_ensures(ClientKey::from_pkcs8, (suite, pkcs8), Ok::<ClientKey, CryptoError>(key)),
        call_ensures(catalog_request, (url, &key, timestamp), r),
    ensures
        ({
            let message = vstd::utf8::encode_utf8(
                "GET\n/api/client/catalog\n"@ + crate::text::decimal(timestamp as nat),
            );
            let public = crate::guarantees::material::client_public(suite, pkcs8@);
            &&& r is Err ==> r->Err_0 == CryptoError::Sign
            &&& suite == Suite::Modern ==> r is Ok == crate::primitives::ed25519_signature(
                pkcs8@,
                message,
            ) is Some
            &&& r matches Ok(request) ==> {
                &&& exists|address: Seq<char>| #[trigger]
                    unslashed(url@, address) && request.url@ == address + "/api/client/catalog"@
                &&& public is Some
                &&& request.thumbprint@ == hexcode::hexed(crate::primitives::sha256(public->0))
                &&& request.timestamp@ == crate::text::decimal(timestamp as nat)
                &&& exists|signature: Seq<u8>|
                    request.signature@ == #[trigger] hexcode::hexed(signature)
                        && crate::guarantees::sealing::valid(suite, public->0, message, signature)
            }
        }),
{
    lemma_unslashed(url@);
    if let Ok(request) = r {
        let message = vstd::utf8::encode_utf8(crate::catalog::signing_text(timestamp));
        let signature = choose|signature: Seq<u8>|
            request.signature@ == #[trigger] hexcode::hexed(signature)
                && crate::envelope::signature_holds(
                key.key_suite(),
                key.key_public(),
                message,
                signature,
            );
        assert(request.signature@ == hexcode::hexed(signature));
        assert(crate::guarantees::sealing::valid(
            suite,
            key.key_public(),
            message,
            signature,
        ));
    }
}

} // verus!
