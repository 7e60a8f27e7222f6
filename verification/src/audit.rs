//! The audit log's events: every decision and policy change, for collection out
//! of band. A gate never answers on the wire.

use vstd::prelude::*;
use vstd::string::*;

use crate::addr::IpAddr;
use crate::gatekeeper::{Decision, Reject};
use crate::text::push_decimal;
use crate::watch::Outcome;

verus! {

/// One event.
#[derive(Debug)]
pub enum Event {
    Startup {
        interface: String,
        knock_port: u16,
        suite: String,
        protected: Vec<u16>,
        clients: usize,
        tokens: usize,
        nft_floor: bool,
    },
    Floor { protected: Vec<u16> },
    Knock {
        source: IpAddr,
        outcome: &'static str,
        ports: Option<Vec<u16>>,
        reason: Option<&'static str>,
    },
    Bundle { action: &'static str, generation: Option<u64>, detail: Option<String> },
    ControlPlane { step: String, about: String },
}

fn copy_ports(ports: &[u16]) -> (r: Vec<u16>)
    ensures
        r@ == ports@,
{
    let mut r: Vec<u16> = Vec::new();
    r.extend_from_slice(ports);
    assert(r@ =~= ports@);
    r
}

/// The daemon has started.
pub fn startup(
    interface: &str,
    knock_port: u16,
    suite: &str,
    protected: &[u16],
    clients: usize,
    tokens: usize,
    nft_floor: bool,
) -> (r: Event)
    ensures
        match r {
            Event::Startup {
                interface: i,
                knock_port: k,
                suite: s,
                protected: p,
                clients: c,
                tokens: t,
                nft_floor: n,
            } => i@ == interface@ && k == knock_port && s@ == suite@ && p@ == protected@ && c
                == clients && t == tokens && n == nft_floor,
            _ => false,
        },
{
    Event::Startup {
        interface: String::from_str(interface),
        knock_port,
        suite: String::from_str(suite),
        protected: copy_ports(protected),
        clients,
        tokens,
        nft_floor,
    }
}

/// The floor is installed.
pub fn floor(protected: &[u16]) -> (r: Event)
    ensures
        match r {
            Event::Floor { protected: p } => p@ == protected@,
            _ => false,
        },
{
    Event::Floor { protected: copy_ports(protected) }
}

/// The name of a reason.
pub open spec fn reject_name(reason: Reject) -> Seq<char> {
    match reason {
        Reject::Undecryptable => "Undecryptable"@,
        Reject::WrongGate => "WrongGate"@,
        Reject::Expired => "Expired"@,
        Reject::UnknownClient => "UnknownClient"@,
        Reject::BadSignature => "BadSignature"@,
        Reject::PortNotAllowed => "PortNotAllowed"@,
        Reject::Replay => "Replay"@,
    }
}

pub fn name_reject(reason: Reject) -> (r: &'static str)
    ensures
        r@ == reject_name(reason),
{
    match reason {
        Reject::Undecryptable => "Undecryptable",
        Reject::WrongGate => "WrongGate",
        Reject::Expired => "Expired",
        Reject::UnknownClient => "UnknownClient",
        Reject::BadSignature => "BadSignature",
        Reject::PortNotAllowed => "PortNotAllowed",
        Reject::Replay => "Replay",
    }
}

/// A knock was decided: opened, with the ports, or denied, with the reason.
pub fn knock(source: IpAddr, decision: &Decision) -> (r: Event)
    ensures
        match (r, decision@) {
            (
                Event::Knock { source: s, outcome, ports: Some(ports), reason: None },
                Ok(opened),
            ) => s == source && outcome@ == "open"@ && ports@ == opened,
            (
                Event::Knock { source: s, outcome, ports: None, reason: Some(name) },
                Err(reason),
            ) => s == source && outcome@ == "deny"@ && name@ == reject_name(reason),
            _ => false,
        },
{
    match decision {
        Decision::Opened { ports } => Event::Knock {
            source,
            outcome: "open",
            ports: Some(copy_ports(ports.as_slice())),
            reason: None,
        },
        Decision::Rejected(reason) => Event::Knock {
            source,
            outcome: "deny",
            ports: None,
            reason: Some(name_reject(*reason)),
        },
    }
}

/// Something happened to a bundle.
pub fn bundle(action: &'static str, generation: Option<u64>, detail: Option<String>) -> (r: Event)
    ensures
        r == (Event::Bundle { action, generation, detail }),
{
    Event::Bundle { action, generation, detail }
}

/// Something happened between this gate and its control plane.
pub fn control_plane(action: &str, detail: String) -> (r: Event)
    ensures
        match r {
            Event::ControlPlane { step, about } => step@ == action@ && about == detail,
            _ => false,
        },
{
    Event::ControlPlane { step: String::from_str(action), about: detail }
}

/// Ports behind the first, each behind a comma.
pub open spec fn more_ports(ports: Seq<u16>) -> Seq<char>
    decreases ports.len(),
{
    if ports.len() <= 1 {
        Seq::empty()
    } else {
        more_ports(ports.drop_last()) + ", "@ + crate::text::decimal(ports.last() as nat)
    }
}

/// A list of ports in brackets.
pub open spec fn port_list(ports: Seq<u16>) -> Seq<char> {
    "["@ + (if ports.len() == 0 {
        Seq::empty()
    } else {
        crate::text::decimal(ports[0] as nat) + more_ports(ports)
    }) + "]"@
}

fn push_port_list(out: &mut String, ports: &[u16])
    ensures
        final(out)@ == old(out)@ + port_list(ports@),
{
    out.append("[");
    let ghost head = out@;
    if ports.len() > 0 {
        push_decimal(out, ports[0] as u64);
        let ghost first = out@;
        let mut i: usize = 1;
        assert(out@ =~= first + more_ports(ports@.take(1)));
        while i < ports.len()
            invariant
                1 <= i <= ports@.len(),
                out@ == first + more_ports(ports@.take(i as int)),
            decreases ports@.len() - i,
        {
            out.append(", ");
            push_decimal(out, ports[i] as u64);
            proof {
                assert(ports@.take(i + 1).drop_last() =~= ports@.take(i as int));
                assert(out@ =~= first + more_ports(ports@.take(i + 1)));
            }
            i += 1;
        }
        assert(ports@.take(i as int) =~= ports@);
    }
    out.append("]");
    assert(out@ =~= old(out)@ + port_list(ports@));
}

/// What is logged of a bundle that went into force.
pub open spec fn applied_detail(clients: nat, tokens: nat, ports: Seq<u16>) -> Seq<char> {
    crate::text::decimal(clients) + " clients, "@ + crate::text::decimal(tokens)
        + " tokens, ports "@ + port_list(ports)
}

/// A bundle went into force.
pub fn applied(generation: u64, clients: usize, tokens: usize, ports: &[u16]) -> (r: Event)
    ensures
        match r {
            Event::Bundle { action, generation: Some(g), detail: Some(words) } => action@
                == "applied"@ && g == generation && words@ == applied_detail(
                clients as nat,
                tokens as nat,
                ports@,
            ),
            _ => false,
        },
{
    let mut words = String::new();
    push_decimal(&mut words, clients as u64);
    words.append(" clients, ");
    push_decimal(&mut words, tokens as u64);
    words.append(" tokens, ports ");
    push_port_list(&mut words, ports);
    assert(words@ =~= applied_detail(clients as nat, tokens as nat, ports@));
    bundle("applied", Some(generation), Some(words))
}

/// What is logged of a bundle that did not go into force; `None` of one that
/// did.
pub fn not_applied(outcome: &Outcome) -> (r: Option<Event>)
    ensures
        match *outcome {
            Outcome::Rejected(words) => match r {
                Some(Event::Bundle { action, generation: None, detail: Some(d) }) => action@
                    == "rejected"@ && d@ == words@,
                _ => false,
            },
            Outcome::Ignored { generation, applied } => match r {
                Some(Event::Bundle { action, generation: Some(g), detail: Some(d) }) => action@
                    == "ignored"@ && g == generation && d@ == "<= applied "@
                    + crate::text::decimal(applied as nat),
                _ => false,
            },
            Outcome::Applied { .. } => r is None,
        },
{
    match outcome {
        Outcome::Rejected(words) => Some(
            bundle("rejected", None, Some(String::from_str(words.as_str()))),
        ),
        Outcome::Ignored { generation, applied } => {
            let mut words = String::from_str("<= applied ");
            push_decimal(&mut words, *applied);
            Some(bundle("ignored", Some(*generation), Some(words)))
        },
        Outcome::Applied { .. } => None,
    }
}

} // verus!
