//! Filtering packets in front of a gate, and the grants that it goes by.

use vstd::prelude::*;

use crate::addr::{mapped_v4, IpAddr};
use crate::filter::{
    keys, parse, rate_ok, source_allowed, spa_gate, Action, FlowKey, FlowUpdate, Lookups, Packet,
    RateState, RateUpdate, Truncated, Verdict,
};
use crate::grant::{monotonic_ns, Grant};

verus! {

/// A whole IPv4 header stands behind the link header, and says that it is at least
/// twenty bytes long.
pub open spec fn ipv4(packet: Seq<u8>) -> bool {
    &&& packet.len() >= 34
    &&& packet[12] == 0x08
    &&& packet[13] == 0x00
    &&& packet[14] % 16 >= 5
}

/// A whole IPv6 header stands behind the link header, with TCP or UDP right behind
/// it.
pub open spec fn ipv6(packet: Seq<u8>) -> bool {
    &&& packet.len() >= 54
    &&& packet[12] == 0x86
    &&& packet[13] == 0xdd
    &&& packet[20] == 6 || packet[20] == 17
}

/// The protocol behind the address header, and where it begins.
pub open spec fn transport(packet: Seq<u8>) -> Option<(u8, int)> {
    if ipv4(packet) {
        Some((packet[23], 14 + 4 * (packet[14] % 16)))
    } else if ipv6(packet) {
        Some((packet[20], 54int))
    } else {
        None
    }
}

/// A packet that ends before what its headers announce: before the protocol that the
/// link header names, or within an address header that the filter would read.
pub open spec fn cut_off(packet: Seq<u8>) -> bool {
    ||| packet.len() < 14
    ||| packet[12] == 0x08 && packet[13] == 0x00 && (packet.len() < 15 || packet[14] % 16 >= 5
        && packet.len() < 34)
    ||| packet[12] == 0x86 && packet[13] == 0xdd && (packet.len() < 21 || (packet[20] == 6
        || packet[20] == 17) && packet.len() < 54)
}

/// The destination port of a transport header that begins at `off`.
pub open spec fn destination(packet: Seq<u8>, off: int) -> int {
    packet[off + 2] * 256 + packet[off + 3]
}

/// The time from `then_ns` to `now`, on a clock of 64 bits that may wrap.
pub open spec fn since(then_ns: u64, now: u64) -> int {
    if now >= then_ns {
        now - then_ns
    } else {
        now - then_ns + 0x1_0000_0000_0000_0000
    }
}

/// A flow that was seen less than two minutes ago.
pub open spec fn followed(last_seen: Option<u64>, now: u64) -> bool {
    last_seen matches Some(last) && since(last, now) < 120_000_000_000
}

/// A port stands among the valid ones of a grant that is not over.
pub open spec fn grants(grant: Option<Grant>, port: int, now: u64) -> bool {
    grant matches Some(grant) && now < grant.expiry_ns && exists|i: int|
        0 <= i < 8 && i < grant.port_count && #[trigger] grant.ports@[i] == port
}

/// Nothing is done but to let the packet pass.
pub open spec fn let_pass(v: Verdict) -> bool {
    v.action == Action::Pass && v.flow == FlowUpdate::Keep && v.rate == RateUpdate::Keep
}

proof fn lemma_low_nibble(b: u8)
    ensures
        (b & 0x0fu8) == b % 16,
{
    assert((b & 0x0fu8) == b % 16) by (bit_vector);
}

proof fn lemma_closing_bits(flags: u8)
    ensures
        (flags & (0x01u8 | 0x04u8) != 0) == (flags & 0x01u8 != 0 || flags & 0x04u8 != 0),
{
    assert((flags & (0x01u8 | 0x04u8) != 0) == (flags & 0x01u8 != 0 || flags & 0x04u8 != 0))
        by (bit_vector);
}

/// Where the transport header is found.
proof fn lemma_parsed(packet: Seq<u8>)
    ensures
        match transport(packet) {
            Some((proto, off)) => {
                &&& crate::filter::parsed(packet) is Ok
                &&& crate::filter::parsed(packet)->Ok_0 is Some
                &&& crate::filter::parsed(packet)->Ok_0->0.proto == proto
                &&& crate::filter::parsed(packet)->Ok_0->0.l4_off == off
            },
            None => if cut_off(packet) {
                crate::filter::parsed(packet) is Err
            } else {
                crate::filter::parsed(packet) is Ok && crate::filter::parsed(packet)->Ok_0 is None
            },
        },
{
    if packet.len() > 14 {
        lemma_low_nibble(packet[14]);
    }
}

/// What is found of a packet: its protocol, where that begins, and its addresses,
/// IPv6 verbatim and IPv4 behind ten zero bytes and two of ones. A packet that is cut
/// off is told apart from one that is not the filter's concern.
pub proof fn law_parse(packet: &[u8], r: Result<Option<Packet>, Truncated>)
    requires
        call_ensures(parse, (packet,), r),
    ensures
        match transport(packet@) {
            Some((proto, off)) => {
                &&& r is Ok
                &&& r->Ok_0 is Some
                &&& r->Ok_0->0.proto == proto
                &&& r->Ok_0->0.l4_off == off
                &&& ipv4(packet@) ==> {
                    &&& forall|i: int| 0 <= i < 10 ==> #[trigger] r->Ok_0->0.saddr@[i] == 0
                    &&& forall|i: int| 0 <= i < 10 ==> #[trigger] r->Ok_0->0.daddr@[i] == 0
                    &&& r->Ok_0->0.saddr@[10] == 0xff && r->Ok_0->0.saddr@[11] == 0xff
                    &&& r->Ok_0->0.daddr@[10] == 0xff && r->Ok_0->0.daddr@[11] == 0xff
                    &&& forall|i: int|
                        0 <= i < 4 ==> #[trigger] r->Ok_0->0.saddr@[12 + i] == packet@[26 + i]
                    &&& forall|i: int|
                        0 <= i < 4 ==> #[trigger] r->Ok_0->0.daddr@[12 + i] == packet@[30 + i]
                }
                &&& !ipv4(packet@) ==> {
                    &&& forall|i: int|
                        0 <= i < 16 ==> #[trigger] r->Ok_0->0.saddr@[i] == packet@[22 + i]
                    &&& forall|i: int|
                        0 <= i < 16 ==> #[trigger] r->Ok_0->0.daddr@[i] == packet@[38 + i]
                }
            },
            None => if cut_off(packet@) {
                r is Err
            } else {
                r is Ok && r->Ok_0 is None
            },
        },
{
    lemma_parsed(packet@);
}

/// The keys under which a packet is known: its addresses as they are found, and
/// its two ports.
pub proof fn law_keys(packet: &[u8], r: Option<FlowKey>)
    requires
        call_ensures(keys, (packet,), r),
    ensures
        match transport(packet@) {
            Some((proto, off)) if off + 4 <= packet@.len() => {
                &&& r is Some
                &&& r->0.sport == packet@[off] * 256 + packet@[off + 1]
                &&& r->0.dport == packet@[off + 2] * 256 + packet@[off + 3]
                &&& ipv4(packet@) ==> {
                    &&& forall|i: int| 0 <= i < 10 ==> #[trigger] r->0.saddr@[i] == 0
                    &&& forall|i: int| 0 <= i < 10 ==> #[trigger] r->0.daddr@[i] == 0
                    &&& r->0.saddr@[10] == 0xff && r->0.saddr@[11] == 0xff
                    &&& r->0.daddr@[10] == 0xff && r->0.daddr@[11] == 0xff
                    &&& forall|i: int|
                        0 <= i < 4 ==> #[trigger] r->0.saddr@[12 + i] == packet@[26 + i]
                    &&& forall|i: int|
                        0 <= i < 4 ==> #[trigger] r->0.daddr@[12 + i] == packet@[30 + i]
                }
                &&& !ipv4(packet@) ==> {
                    &&& forall|i: int| 0 <= i < 16 ==> #[trigger] r->0.saddr@[i] == packet@[22 + i]
                    &&& forall|i: int| 0 <= i < 16 ==> #[trigger] r->0.daddr@[i] == packet@[38 + i]
                }
            },
            _ => r is None,
        },
{
    lemma_parsed(packet@);
}

/// A TCP segment to a protected port. A flow that is tracked passes, and is seen
/// now, or is forgotten exactly if the segment carries the finishing or the
/// resetting bit. Without such a flow, only a segment that asks for a connection
/// and acknowledges nothing passes, and only under a grant for its port that is not
/// over; its flow is tracked from then on. Anything else is dropped, and what was
/// known of its flow is forgotten.
pub proof fn law_segment_to_protected_port(packet: &[u8], found: &Lookups, now: u64, v: Verdict)
    requires
        call_ensures(spa_gate, (packet, found, now), v),
        transport(packet@) matches Some((proto, off)) && proto == 6 && off + 14 <= packet@.len(),
        found.protected,
    ensures
        ({
            let (proto, off) = transport(packet@)->0;
            let flags = packet@[off + 13];
            let port = destination(packet@, off);
            &&& v.rate == RateUpdate::Keep
            &&& if followed(found.last_seen, now) {
                &&& v.action == Action::Pass
                &&& v.flow == if flags & 0x01u8 != 0 || flags & 0x04u8 != 0 {
                    FlowUpdate::Forget
                } else {
                    FlowUpdate::SeenAt(now)
                }
            } else if flags & 0x02u8 != 0 && flags & 0x10u8 == 0 && grants(
                found.grant,
                port,
                now,
            ) {
                v.action == Action::Pass && v.flow == FlowUpdate::SeenAt(now)
            } else {
                &&& v.action == Action::Drop
                &&& v.flow == if found.last_seen is Some {
                    FlowUpdate::Forget
                } else {
                    FlowUpdate::Keep
                }
            }
        }),
{
    lemma_parsed(packet@);
    let (proto, off) = transport(packet@)->0;
    let flags = packet@[off + 13];
    lemma_closing_bits(flags);
    let port = destination(packet@, off);
    if let Some(grant) = found.grant {
        lemma_granted(grant, port as u16);
        assert(grants(found.grant, port, now) == grant.live_for(port as u16, now));
    }
}

/// The ports that a grant covers are the valid ones among its places.
proof fn lemma_granted(grant: Grant, port: u16)
    ensures
        grant.granted().contains(port) == exists|i: int|
            0 <= i < 8 && i < grant.port_count && #[trigger] grant.ports@[i] == port,
{
    let covered = grant.granted();
    if covered.contains(port) {
        let i = choose|i: int| 0 <= i < covered.len() && covered[i] == port;
        assert(grant.ports@[i] == port);
    }
    if exists|i: int| 0 <= i < 8 && i < grant.port_count && #[trigger] grant.ports@[i] == port {
        let i = choose|i: int|
            0 <= i < 8 && i < grant.port_count && #[trigger] grant.ports@[i] == port;
        assert(covered[i] == port);
    }
}

/// A datagram to the knock port passes only with a payload of 180 to 260 bytes, and
/// only ten of them from one source within a second of the first; each that passes
/// is counted. Other datagrams pass.
pub proof fn law_datagram(packet: &[u8], found: &Lookups, now: u64, v: Verdict)
    requires
        call_ensures(spa_gate, (packet, found, now), v),
        transport(packet@) matches Some((proto, off)) && proto == 17 && off + 4 <= packet@.len(),
    ensures
        ({
            let (proto, off) = transport(packet@)->0;
            let port = destination(packet@, off);
            let payload = packet@.len() - off - 8;
            let known = found.knock_port matches Some(knock_port) && knock_port == port;
            let counting = found.rate matches Some(rate) && since(rate.window_ns, now)
                < 1_000_000_000;
            &&& v.flow == FlowUpdate::Keep
            &&& if !known {
                let_pass(v)
            } else if payload < 180 || payload > 260 || counting && found.rate->0.count >= 10 {
                v.action == Action::Drop && v.rate == RateUpdate::Keep
            } else {
                &&& v.action == Action::Pass
                &&& v.rate == RateUpdate::Store(
                    if counting {
                        RateState {
                            window_ns: found.rate->0.window_ns,
                            count: (found.rate->0.count + 1) as u32,
                            _pad: 0,
                        }
                    } else {
                        RateState { window_ns: now, count: 1, _pad: 0 }
                    },
                )
            }
        }),
{
    lemma_parsed(packet@);
}

/// Everything else passes, and leaves no trace: what is neither TCP nor UDP, what
/// ends before its ports, and segments to ports that are not protected.
pub proof fn law_other_packets_pass(packet: &[u8], found: &Lookups, now: u64, v: Verdict)
    requires
        call_ensures(spa_gate, (packet, found, now), v),
        match transport(packet@) {
            Some((proto, off)) => {
                ||| proto != 6 && proto != 17
                ||| off + 4 > packet@.len()
                ||| proto == 6 && (off + 14 > packet@.len() || !found.protected)
            },
            None => true,
        },
    ensures
        let_pass(v),
{
    lemma_parsed(packet@);
}

/// The limiter: within a second of the first knock, ten pass, and each is counted;
/// after that the count begins anew.
pub proof fn law_rate(rate: &Option<RateState>, now: u64, r: Option<RateState>)
    requires
        call_ensures(rate_ok, (rate, now), r),
    ensures
        match *rate {
            Some(state) if since(state.window_ns, now) < 1_000_000_000 => if state.count >= 10 {
                r is None
            } else {
                r == Some(
                    RateState {
                        window_ns: state.window_ns,
                        count: (state.count + 1) as u32,
                        _pad: 0,
                    },
                )
            },
            _ => r == Some(RateState { window_ns: now, count: 1, _pad: 0 }),
        },
{
}

/// A source may begin a connection exactly to the ports that stand in its grant,
/// and until the grant is over.
pub proof fn law_source_allowed(grant: &Option<Grant>, dport: u16, now: u64, r: bool)
    requires
        call_ensures(source_allowed, (grant, dport, now), r),
    ensures
        r == grants(*grant, dport as int, now),
{
    if let Some(grant) = *grant {
        lemma_granted(grant, dport);
    }
}

/// A grant is for the first eight of its ports, in their order, and is over when
/// its time is up, or when the clock ends.
pub proof fn law_issue(ports: &[u16], now_ns: u64, ttl_nanos: u64, grant: Grant)
    requires
        call_ensures(Grant::issue, (ports, now_ns, ttl_nanos), grant),
    ensures
        grant.port_count as int == if ports@.len() <= 8 {
            ports@.len() as int
        } else {
            8
        },
        forall|i: int| 0 <= i < grant.port_count ==> #[trigger] grant.ports@[i] == ports@[i],
        now_ns + ttl_nanos <= u64::MAX ==> grant.expiry_ns == now_ns + ttl_nanos,
        now_ns + ttl_nanos > u64::MAX ==> grant.expiry_ns == u64::MAX,
{
    assert forall|i: int| 0 <= i < grant.port_count implies #[trigger] grant.ports@[i]
        == ports@[i] by {
        assert(grant.granted()[i] == grant.ports@[i]);
        assert(ports@.take(grant.port_count as int)[i] == ports@[i]);
    }
}

/// A grant allows exactly the ports that stand at its valid places.
pub proof fn law_allows_port(grant: &Grant, port: u16, r: bool)
    requires
        call_ensures(Grant::allows_port, (grant, port), r),
    ensures
        r == exists|i: int|
            0 <= i < 8 && i < grant.port_count && #[trigger] grant.ports@[i] == port,
{
    lemma_granted(*grant, port);
}

/// A moment of the monotonic clock is its seconds and nanoseconds together, as far
/// as the count goes.
pub proof fn law_monotonic_ns(secs: u64, nanos: u64, r: u64)
    requires
        call_ensures(monotonic_ns, (secs, nanos), r),
    ensures
        secs * 1_000_000_000 + nanos <= u64::MAX ==> r == secs * 1_000_000_000 + nanos,
        secs * 1_000_000_000 + nanos > u64::MAX ==> r == u64::MAX,
{
}

/// An IPv4 address is put behind ten zero bytes and two of ones.
pub proof fn law_mapped_v4(octets: [u8; 4], key: [u8; 16])
    requires
        call_ensures(mapped_v4, (octets,), key),
    ensures
        forall|i: int| 0 <= i < 10 ==> #[trigger] key@[i] == 0,
        key@[10] == 0xff,
        key@[11] == 0xff,
        forall|i: int| 0 <= i < 4 ==> key@[12 + i] == #[trigger] octets@[i],
{
}

/// The key of an address: an IPv6 address as it is, an IPv4 address behind ten zero
/// bytes and two of ones.
pub proof fn law_address_key(address: &IpAddr, key: [u8; 16])
    requires
        call_ensures(IpAddr::key, (address,), key),
    ensures
        match *address {
            IpAddr::V4(octets) => {
                &&& forall|i: int| 0 <= i < 10 ==> #[trigger] key@[i] == 0
                &&& key@[10] == 0xff
                &&& key@[11] == 0xff
                &&& forall|i: int| 0 <= i < 4 ==> key@[12 + i] == #[trigger] octets@[i]
            },
            IpAddr::V6(octets) => key@ == octets@,
        },
{
}

/// The four bytes of an IPv4 source are found in either of its forms, and in no
/// other address.
pub proof fn law_address_v4(address: &IpAddr, r: Option<[u8; 4]>)
    requires
        call_ensures(IpAddr::v4, (address,), r),
    ensures
        match *address {
            IpAddr::V4(octets) => r is Some && r->0@ == octets@,
            IpAddr::V6(octets) => {
                let mapped = (forall|i: int| 0 <= i < 10 ==> #[trigger] octets@[i] == 0)
                    && octets@[10] == 0xff && octets@[11] == 0xff;
                &&& r is Some == mapped
                &&& r matches Some(tail) ==> forall|i: int|
                    0 <= i < 4 ==> #[trigger] tail@[i] == octets@[12 + i]
            },
        },
{
    let key = address.key_bytes();
    let prefix = crate::addr::mapped_prefix();
    match *address {
        IpAddr::V4(octets) => {
            if let Some(tail) = r {
                assert forall|i: int| 0 <= i < 4 implies tail@[i] == octets@[i] by {
                    assert((prefix + octets@)[12 + i] == (prefix + tail@)[12 + i]);
                }
                assert(tail@ =~= octets@);
            } else {
                assert(key.take(12) =~= prefix);
            }
        },
        IpAddr::V6(octets) => {
            if let Some(tail) = r {
                assert forall|i: int| 0 <= i < 10 implies #[trigger] octets@[i] == 0 by {
                    assert((prefix + tail@)[i] == prefix[i]);
                }
                assert((prefix + tail@)[10] == 0xff && (prefix + tail@)[11] == 0xff);
                assert forall|i: int| 0 <= i < 4 implies #[trigger] tail@[i] == octets@[12 + i] by {
                    assert((prefix + tail@)[12 + i] == tail@[i]);
                }
            } else {
                if (forall|i: int| 0 <= i < 10 ==> #[trigger] octets@[i] == 0) && octets@[10] == 0xff
                    && octets@[11] == 0xff {
                    assert(octets@.take(12) =~= prefix);
                }
            }
        },
    }
}

} // verus!
