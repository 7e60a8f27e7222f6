//! The fail-closed nftables floor: should the packet filter go away with the
//! daemon, the protected ports stay dropped, save for sources in a set whose
//! entries expire on their own and for established connections.

use vstd::prelude::*;
use vstd::string::*;

use crate::text::push_decimal;

verus! {

/// The floor without its ports.
pub const FLOOR: &'static str =
    "add table inet spa\nflush table inet spa\ntable inet spa {\n  set allow4 { type ipv4_addr; flags timeout; }\n  set ports { type inet_service; }\n  chain input {\n    type filter hook input priority filter; policy accept;\n    ct state established,related accept\n    tcp dport @ports ip saddr @allow4 accept\n    tcp dport @ports drop\n  }\n}\n";

/// One command for each protected port.
pub open spec fn port_commands(ports: Seq<u16>) -> Seq<char>
    decreases ports.len(),
{
    if ports.len() == 0 {
        Seq::empty()
    } else {
        port_commands(ports.drop_last()) + "add element inet spa ports { "@ + crate::text::decimal(
            ports.last() as nat,
        ) + " }\n"@
    }
}

fn push_port_commands(out: &mut String, ports: &[u16])
    ensures
        final(out)@ == old(out)@ + port_commands(ports@),
{
    let ghost head = out@;
    let mut i: usize = 0;
    assert(out@ =~= head + port_commands(ports@.take(0)));
    while i < ports.len()
        invariant
            i <= ports@.len(),
            out@ == head + port_commands(ports@.take(i as int)),
        decreases ports@.len() - i,
    {
        out.append("add element inet spa ports { ");
        push_decimal(out, ports[i] as u64);
        out.append(" }\n");
        proof {
            assert(ports@.take(i + 1).drop_last() =~= ports@.take(i as int));
            assert(out@ =~= head + port_commands(ports@.take(i + 1)));
        }
        i += 1;
    }
    assert(ports@.take(i as int) =~= ports@);
}

/// The script that installs the floor for the protected ports, however often it
/// runs.
pub fn install_floor(protected: &[u16]) -> (script: String)
    ensures
        script@ == FLOOR@ + port_commands(protected@),
{
    let mut script = String::from_str(FLOOR);
    push_port_commands(&mut script, protected);
    script
}

/// The script that replaces the floor's ports.
pub fn set_ports(protected: &[u16]) -> (script: String)
    ensures
        script@ == "flush set inet spa ports\n"@ + port_commands(protected@),
{
    let mut script = String::from_str("flush set inet spa ports\n");
    push_port_commands(&mut script, protected);
    script
}

/// An IPv4 address in dotted form.
pub open spec fn dotted(ip: Seq<u8>) -> Seq<char> {
    crate::text::decimal(ip[0] as nat) + "."@ + crate::text::decimal(ip[1] as nat) + "."@
        + crate::text::decimal(ip[2] as nat) + "."@ + crate::text::decimal(ip[3] as nat)
}

/// The set element that lets `ip` through the floor for `timeout_secs`, at least
/// a second.
pub fn allow(ip: [u8; 4], timeout_secs: u64) -> (element: String)
    ensures
        element@ == "{ "@ + dotted(ip@) + " timeout "@ + crate::text::decimal(
            if timeout_secs == 0 {
                1
            } else {
                timeout_secs as nat
            },
        ) + "s }"@,
{
    let secs: u64 = if timeout_secs == 0 {
        1
    } else {
        timeout_secs
    };
    let mut element = String::from_str("{ ");
    push_decimal(&mut element, ip[0] as u64);
    element.append(".");
    push_decimal(&mut element, ip[1] as u64);
    element.append(".");
    push_decimal(&mut element, ip[2] as u64);
    element.append(".");
    push_decimal(&mut element, ip[3] as u64);
    element.append(" timeout ");
    push_decimal(&mut element, secs);
    element.append("s }");
    assert(element@ =~= "{ "@ + dotted(ip@) + " timeout "@ + crate::text::decimal(secs as nat)
        + "s }"@);
    element
}

/// A grant's lifetime in whole seconds, rounded up.
pub fn timeout_secs(ttl_nanos: u64) -> (secs: u64)
    ensures
        secs * 1_000_000_000 >= ttl_nanos,
        secs > 0 ==> (secs - 1) * 1_000_000_000 < ttl_nanos,
{
    let whole: u64 = ttl_nanos / 1_000_000_000;
    if ttl_nanos % 1_000_000_000 == 0 {
        whole
    } else {
        whole + 1
    }
}

} // verus!
