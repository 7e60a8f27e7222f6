//! The packet filter's decisions, for IPv4 and IPv6.
//!
//! TCP to a protected port:
//!   * a tracked flow that is not idle passes;
//!   * a pure `SYN` from a source that holds a live grant passes and is tracked;
//!   * anything else is dropped in silence.
//!
//! UDP to the knock port passes if its size is that of a knock and its source is
//! within its rate. Everything else passes.
//!
//! Addresses are unified to 16 bytes: IPv6 verbatim, IPv4 in its mapped form, so
//! that one set of tables and one decision path serve both.

use vstd::prelude::*;

use crate::addr::mapped_v4;
use crate::bytes::to_array;
use crate::grant::Grant;

verus! {

pub const ETHERTYPE_IPV4: u16 = 0x0800;

pub const ETHERTYPE_IPV6: u16 = 0x86DD;

pub const IPPROTO_TCP: u8 = 6;

pub const IPPROTO_UDP: u8 = 17;

pub const TCP_FIN: u8 = 0x01;

pub const TCP_SYN: u8 = 0x02;

pub const TCP_RST: u8 = 0x04;

pub const TCP_ACK: u8 = 0x10;

const ETH_HDR_LEN: usize = 14;

const ETH_TYPE_OFF: usize = 12;

const IP_PROTO_OFF: usize = 9;

const IP_SRC_OFF: usize = 12;

const IP_DST_OFF: usize = 16;

const IP6_HDR_LEN: usize = 40;

const IP6_NEXTHDR_OFF: usize = 6;

const IP6_SRC_OFF: usize = 8;

const IP6_DST_OFF: usize = 24;

const TCP_FLAGS_OFF: usize = 13;

const UDP_HDR_LEN: usize = 8;

/// A tracked flow idle this long is treated as gone.
pub const FLOW_IDLE_NS: u64 = 120_000_000_000;

/// Smallest payload that can be a knock.
pub const KNOCK_MIN: usize = 180;

/// Largest payload that can be a knock.
pub const KNOCK_MAX: usize = 260;

/// Knocks that one source may send per `RATE_WINDOW_NS`.
pub const RATE_LIMIT: u32 = 10;

pub const RATE_WINDOW_NS: u64 = 1_000_000_000;

/// An inbound flow.
#[derive(Clone, Copy, Debug, PartialEq, Eq)]
pub struct FlowKey {
    pub saddr: [u8; 16],
    pub daddr: [u8; 16],
    pub sport: u16,
    pub dport: u16,
}

/// How much of its rate a source has used.
#[derive(Clone, Copy, Debug, PartialEq, Eq)]
pub struct RateState {
    pub window_ns: u64,
    pub count: u32,
    pub _pad: u32,
}

/// Where the transport header of a packet begins, and between whom it goes.
pub struct Packet {
    pub saddr: [u8; 16],
    pub daddr: [u8; 16],
    pub proto: u8,
    pub l4_off: usize,
}

/// What a [`Packet`] says.
#[verifier::ext_equal]
pub struct PacketView {
    pub saddr: Seq<u8>,
    pub daddr: Seq<u8>,
    pub proto: u8,
    pub l4_off: int,
}

impl View for Packet {
    type V = PacketView;

    open spec fn view(&self) -> PacketView {
        PacketView {
            saddr: self.saddr@,
            daddr: self.daddr@,
            proto: self.proto,
            l4_off: self.l4_off as int,
        }
    }
}

/// A read ran past the end of the packet.
#[derive(Clone, Copy, Debug, PartialEq, Eq, Structural)]
pub struct Truncated;

/// What becomes of a packet.
#[derive(Clone, Copy, Debug, PartialEq, Eq, Structural)]
pub enum Action {
    Pass,
    Drop,
}

/// What becomes of the tracked flow that a packet belongs to.
#[derive(Clone, Copy, Debug, PartialEq, Eq, Structural)]
pub enum FlowUpdate {
    Keep,
    Forget,
    SeenAt(u64),
}

/// What becomes of the rate state of a packet's source.
#[derive(Clone, Copy, Debug, PartialEq, Eq)]
pub enum RateUpdate {
    Keep,
    Store(RateState),
}

/// The filter's verdict on one packet.
#[derive(Clone, Copy, Debug, PartialEq, Eq)]
pub struct Verdict {
    pub action: Action,
    pub flow: FlowUpdate,
    pub rate: RateUpdate,
}

/// What the tables hold for one packet.
#[derive(Clone, Copy)]
pub struct Lookups {
    /// The knock port, once the daemon has told it.
    pub knock_port: Option<u16>,
    /// Whether the destination port is protected.
    pub protected: bool,
    /// When the flow was last seen.
    pub last_seen: Option<u64>,
    /// The source's grant.
    pub grant: Option<Grant>,
    /// The source's rate state.
    pub rate: Option<RateState>,
}

/// The big-endian number in the two bytes at `off`, if the packet holds them.
pub open spec fn be16_at(packet: Seq<u8>, off: int) -> Option<u16> {
    if off + 2 <= packet.len() {
        Some((packet[off] * 256 + packet[off + 1]) as u16)
    } else {
        None
    }
}

/// Length in bytes of the IPv4 header that begins with this byte.
pub open spec fn ihl(first: u8) -> int {
    (first & 0x0fu8) * 4
}

/// What parsing a packet gives: `None` where it is not the filter's concern.
pub open spec fn parsed(packet: Seq<u8>) -> Result<Option<PacketView>, Truncated> {
    match be16_at(packet, 12) {
        None => Err(Truncated),
        Some(ethertype) => if ethertype == ETHERTYPE_IPV4 {
            if packet.len() < 15 {
                Err(Truncated)
            } else if ihl(packet[14]) < 20 {
                Ok(None)
            } else if packet.len() < 34 {
                Err(Truncated)
            } else {
                Ok(
                    Some(
                        PacketView {
                            saddr: crate::addr::mapped_prefix() + packet.subrange(26, 30),
                            daddr: crate::addr::mapped_prefix() + packet.subrange(30, 34),
                            proto: packet[23],
                            l4_off: 14 + ihl(packet[14]),
                        },
                    ),
                )
            }
        } else if ethertype == ETHERTYPE_IPV6 {
            if packet.len() < 21 {
                Err(Truncated)
            } else if packet[20] != IPPROTO_TCP && packet[20] != IPPROTO_UDP {
                Ok(None)
            } else if packet.len() < 54 {
                Err(Truncated)
            } else {
                Ok(
                    Some(
                        PacketView {
                            saddr: packet.subrange(22, 38),
                            daddr: packet.subrange(38, 54),
                            proto: packet[20],
                            l4_off: 54,
                        },
                    ),
                )
            }
        } else {
            Ok(None)
        },
    }
}

/// The big-endian number at `off`.
fn load_u16(packet: &[u8], off: usize) -> (r: Result<u16, Truncated>)
    requires
        off <= 0xffff,
    ensures
        match r {
            Ok(v) => be16_at(packet@, off as int) == Some(v),
            Err(_) => be16_at(packet@, off as int) is None,
        },
{
    if off + 2 > packet.len() {
        return Err(Truncated);
    }
    Ok(packet[off] as u16 * 256 + packet[off + 1] as u16)
}

/// The byte at `off`.
fn load_u8(packet: &[u8], off: usize) -> (r: Result<u8, Truncated>)
    ensures
        match r {
            Ok(b) => off < packet@.len() && b == packet@[off as int],
            Err(_) => off >= packet@.len(),
        },
{
    if off >= packet.len() {
        return Err(Truncated);
    }
    Ok(packet[off])
}

/// The `N` bytes at `off`.
fn load_array<const N: usize>(packet: &[u8], off: usize) -> (r: Result<[u8; N], Truncated>)
    requires
        off <= 0xffff,
        N <= 0xffff,
    ensures
        match r {
            Ok(a) => off + N <= packet@.len() && a@ == packet@.subrange(off as int, off + N),
            Err(_) => off + N > packet@.len(),
        },
{
    if off + N > packet.len() {
        return Err(Truncated);
    }
    Ok(to_array::<N>(vstd::slice::slice_subrange(packet, off, off + N)))
}

/// Find the transport header of an IPv4 or IPv6 packet. `None` is not the
/// filter's concern: neither family, malformed, or IPv6 with extension headers.
pub fn parse(packet: &[u8]) -> (r: Result<Option<Packet>, Truncated>)
    ensures
        match r {
            Ok(Some(p)) => parsed(packet@) == Ok::<Option<PacketView>, Truncated>(Some(p@)),
            Ok(None) => parsed(packet@) == Ok::<Option<PacketView>, Truncated>(None),
            Err(_) => parsed(packet@) is Err,
        },
        r is Ok && r->Ok_0 is Some ==> r->Ok_0->0.l4_off <= 0x1000,
{
    let ip_off: usize = ETH_HDR_LEN;
    let ethertype: u16 = load_u16(packet, ETH_TYPE_OFF)?;
    if ethertype == ETHERTYPE_IPV4 {
        let header_len: usize = (load_u8(packet, ip_off)? & 0x0fu8) as usize * 4;
        if header_len < 20 {
            return Ok(None);
        }
        let saddr = mapped_v4(load_array::<4>(packet, ip_off + IP_SRC_OFF)?);
        let daddr = mapped_v4(load_array::<4>(packet, ip_off + IP_DST_OFF)?);
        let proto: u8 = load_u8(packet, ip_off + IP_PROTO_OFF)?;
        let found = Packet { saddr, daddr, proto, l4_off: ip_off + header_len };
        Ok(Some(found))
    } else if ethertype == ETHERTYPE_IPV6 {
        let proto: u8 = load_u8(packet, ip_off + IP6_NEXTHDR_OFF)?;
        if proto != IPPROTO_TCP && proto != IPPROTO_UDP {
            return Ok(None);
        }
        let saddr = load_array::<16>(packet, ip_off + IP6_SRC_OFF)?;
        let daddr = load_array::<16>(packet, ip_off + IP6_DST_OFF)?;
        let found = Packet { saddr, daddr, proto, l4_off: ip_off + IP6_HDR_LEN };
        Ok(Some(found))
    } else {
        Ok(None)
    }
}

/// What a [`FlowKey`] says.
#[verifier::ext_equal]
pub struct FlowKeyView {
    pub saddr: Seq<u8>,
    pub daddr: Seq<u8>,
    pub sport: u16,
    pub dport: u16,
}

impl View for FlowKey {
    type V = FlowKeyView;

    open spec fn view(&self) -> FlowKeyView {
        FlowKeyView {
            saddr: self.saddr@,
            daddr: self.daddr@,
            sport: self.sport,
            dport: self.dport,
        }
    }
}

/// The keys under which the tables know a TCP or UDP packet.
pub open spec fn flow_of(packet: Seq<u8>) -> Option<FlowKeyView> {
    match parsed(packet) {
        Ok(Some(p)) => match (be16_at(packet, p.l4_off), be16_at(packet, p.l4_off + 2)) {
            (Some(sport), Some(dport)) => Some(
                FlowKeyView { saddr: p.saddr, daddr: p.daddr, sport, dport },
            ),
            _ => None,
        },
        _ => None,
    }
}

/// The keys under which the tables know a packet: its flow, which holds its
/// source and its destination port. `None` where no table is to be asked.
pub fn keys(packet: &[u8]) -> (r: Option<FlowKey>)
    ensures
        match r {
            Some(flow) => flow_of(packet@) == Some(flow@),
            None => flow_of(packet@) is None,
        },
{
    match parse(packet) {
        Ok(Some(p)) => match (load_u16(packet, p.l4_off), load_u16(packet, p.l4_off + 2)) {
            (Ok(sport), Ok(dport)) => Some(
                FlowKey { saddr: p.saddr, daddr: p.daddr, sport, dport },
            ),
            _ => None,
        },
        _ => None,
    }
}

/// How long ago `then` was, on a clock that may wrap.
pub open spec fn age(now: u64, then_ns: u64) -> u64 {
    if now >= then_ns {
        (now - then_ns) as u64
    } else {
        (now - then_ns + 0x1_0000_0000_0000_0000) as u64
    }
}

/// A flow that was seen recently enough to be alive.
pub open spec fn alive(last_seen: Option<u64>, now: u64) -> bool {
    last_seen is Some && age(now, last_seen->0) < FLOW_IDLE_NS
}

/// The first segment of a connection, with nothing acknowledged.
pub open spec fn pure_syn(flags: u8) -> bool {
    flags & TCP_SYN != 0 && flags & TCP_ACK == 0
}

/// A segment that ends its connection.
pub open spec fn closing(flags: u8) -> bool {
    flags & (TCP_FIN | TCP_RST) != 0
}

/// The verdict on a TCP segment to a protected port.
pub open spec fn tcp_verdict(dport: u16, flags: u8, found: Lookups, now: u64) -> (
    Action,
    FlowUpdate,
) {
    if alive(found.last_seen, now) {
        (
            Action::Pass,
            if closing(flags) {
                FlowUpdate::Forget
            } else {
                FlowUpdate::SeenAt(now)
            },
        )
    } else if pure_syn(flags) && found.grant is Some && found.grant->0.live_for(dport, now) {
        (Action::Pass, FlowUpdate::SeenAt(now))
    } else {
        (
            Action::Drop,
            if found.last_seen is Some {
                FlowUpdate::Forget
            } else {
                FlowUpdate::Keep
            },
        )
    }
}

/// The rate state after one more knock, or `None` if that is one too many.
pub open spec fn rate_after(rate: Option<RateState>, now: u64) -> Option<RateState> {
    if rate is Some && age(now, rate->0.window_ns) < RATE_WINDOW_NS {
        if rate->0.count >= RATE_LIMIT {
            None
        } else {
            Some(
                RateState {
                    window_ns: rate->0.window_ns,
                    count: (rate->0.count + 1) as u32,
                    _pad: 0,
                },
            )
        }
    } else {
        Some(RateState { window_ns: now, count: 1, _pad: 0 })
    }
}

/// Whether `size` bytes of payload can be a knock.
pub open spec fn knock_sized(size: int) -> bool {
    KNOCK_MIN <= size <= KNOCK_MAX
}

pub open spec fn untouched(action: Action) -> Verdict {
    Verdict { action, flow: FlowUpdate::Keep, rate: RateUpdate::Keep }
}

/// The verdict on a packet.
pub open spec fn verdict(packet: Seq<u8>, found: Lookups, now: u64) -> Verdict {
    match parsed(packet) {
        Ok(Some(p)) => {
            let dport = be16_at(packet, p.l4_off + 2);
            if p.proto == IPPROTO_TCP {
                if dport is Some && found.protected && p.l4_off + 13 < packet.len() {
                    let (action, flow) = tcp_verdict(
                        dport->0,
                        packet[p.l4_off + 13],
                        found,
                        now,
                    );
                    Verdict { action, flow, rate: RateUpdate::Keep }
                } else {
                    untouched(Action::Pass)
                }
            } else if p.proto == IPPROTO_UDP {
                if dport is Some && found.knock_port == dport {
                    if !knock_sized(packet.len() - p.l4_off - 8) {
                        untouched(Action::Drop)
                    } else {
                        match rate_after(found.rate, now) {
                            Some(next) => Verdict {
                                action: Action::Pass,
                                flow: FlowUpdate::Keep,
                                rate: RateUpdate::Store(next),
                            },
                            None => untouched(Action::Drop),
                        }
                    }
                } else {
                    untouched(Action::Pass)
                }
            } else {
                untouched(Action::Pass)
            }
        },
        _ => untouched(Action::Pass),
    }
}

/// Decide on one packet, given what the tables hold under its [`keys`]. The
/// caller carries out the updates.
pub fn spa_gate(packet: &[u8], found: &Lookups, now: u64) -> (r: Verdict)
    ensures
        r == verdict(packet@, *found, now),
{
    match try_gate(packet, found, now) {
        Ok(v) => v,
        Err(_) => pass(),
    }
}

fn pass() -> (r: Verdict)
    ensures
        r == untouched(Action::Pass),
{
    Verdict { action: Action::Pass, flow: FlowUpdate::Keep, rate: RateUpdate::Keep }
}

fn drop_packet() -> (r: Verdict)
    ensures
        r == untouched(Action::Drop),
{
    Verdict { action: Action::Drop, flow: FlowUpdate::Keep, rate: RateUpdate::Keep }
}

fn try_gate(packet: &[u8], found: &Lookups, now: u64) -> (r: Result<Verdict, Truncated>)
    ensures
        match r {
            Ok(v) => v == verdict(packet@, *found, now),
            Err(_) => verdict(packet@, *found, now) == untouched(Action::Pass),
        },
{
    let p = match parse(packet)? {
        Some(p) => p,
        None => {
            return Ok(pass());
        },
    };
    if p.proto == IPPROTO_TCP {
        tcp_gate(packet, &p, found, now)
    } else if p.proto == IPPROTO_UDP {
        udp_gate(packet, &p, found, now)
    } else {
        Ok(pass())
    }
}

fn tcp_gate(packet: &[u8], p: &Packet, found: &Lookups, now: u64) -> (r: Result<Verdict, Truncated>)
    requires
        parsed(packet@) == Ok::<Option<PacketView>, Truncated>(Some(p@)),
        p.proto == IPPROTO_TCP,
        p.l4_off <= 0x1000,
    ensures
        match r {
            Ok(v) => v == verdict(packet@, *found, now),
            Err(_) => verdict(packet@, *found, now) == untouched(Action::Pass),
        },
{
    let dport: u16 = load_u16(packet, p.l4_off + 2)?;
    if !found.protected {
        return Ok(pass());
    }
    let flags: u8 = load_u8(packet, p.l4_off + TCP_FLAGS_OFF)?;
    let mut stale: bool = false;
    if let Some(last) = found.last_seen {
        if now.wrapping_sub(last) < FLOW_IDLE_NS {
            let flow = if flags & (TCP_FIN | TCP_RST) != 0 {
                FlowUpdate::Forget
            } else {
                FlowUpdate::SeenAt(now)
            };
            return Ok(Verdict { action: Action::Pass, flow, rate: RateUpdate::Keep });
        }
        stale = true;
    }
    if flags & TCP_SYN != 0 && flags & TCP_ACK == 0 && source_allowed(&found.grant, dport, now) {
        return Ok(
            Verdict { action: Action::Pass, flow: FlowUpdate::SeenAt(now), rate: RateUpdate::Keep },
        );
    }
    let flow = if stale {
        FlowUpdate::Forget
    } else {
        FlowUpdate::Keep
    };
    Ok(Verdict { action: Action::Drop, flow, rate: RateUpdate::Keep })
}

fn udp_gate(packet: &[u8], p: &Packet, found: &Lookups, now: u64) -> (r: Result<Verdict, Truncated>)
    requires
        parsed(packet@) == Ok::<Option<PacketView>, Truncated>(Some(p@)),
        p.proto == IPPROTO_UDP,
        p.l4_off <= 0x1000,
    ensures
        match r {
            Ok(v) => v == verdict(packet@, *found, now),
            Err(_) => verdict(packet@, *found, now) == untouched(Action::Pass),
        },
{
    let dport: u16 = load_u16(packet, p.l4_off + 2)?;
    let knock_port: u16 = match found.knock_port {
        Some(port) => port,
        None => {
            return Ok(pass());
        },
    };
    if dport != knock_port {
        return Ok(pass());
    }
    let base: usize = p.l4_off + UDP_HDR_LEN;
    if base + KNOCK_MIN > packet.len() || base + KNOCK_MAX < packet.len() {
        return Ok(drop_packet());
    }
    match rate_ok(&found.rate, now) {
        Some(next) => Ok(
            Verdict { action: Action::Pass, flow: FlowUpdate::Keep, rate: RateUpdate::Store(next) },
        ),
        None => Ok(drop_packet()),
    }
}

/// Per-source fixed-window limiter: at most `RATE_LIMIT` knocks per window. The
/// state to store for a knock within the rate, `None` for one beyond it.
pub fn rate_ok(rate: &Option<RateState>, now: u64) -> (r: Option<RateState>)
    ensures
        r == rate_after(*rate, now),
{
    match rate {
        Some(s) => {
            if now.wrapping_sub(s.window_ns) < RATE_WINDOW_NS {
                if s.count >= RATE_LIMIT {
                    return None;
                }
                return Some(RateState { window_ns: s.window_ns, count: s.count + 1, _pad: 0 });
            }
        },
        None => {},
    }
    Some(RateState { window_ns: now, count: 1, _pad: 0 })
}

/// Whether a source with this grant may begin a connection to `dport`.
pub fn source_allowed(grant: &Option<Grant>, dport: u16, now: u64) -> (r: bool)
    ensures
        r == (*grant is Some && (*grant)->0.live_for(dport, now)),
{
    match grant {
        Some(grant) => now < grant.expiry_ns && grant.allows_port(dport),
        None => false,
    }
}

/// `packet` is a TCP segment, whole as far as its flags.
pub open spec fn tcp_segment(packet: Seq<u8>) -> bool {
    match parsed(packet) {
        Ok(Some(p)) => p.proto == IPPROTO_TCP && p.l4_off + 13 < packet.len(),
        _ => false,
    }
}

/// The flags of a TCP segment.
pub open spec fn tcp_flags(packet: Seq<u8>) -> u8 {
    packet[parsed(packet)->Ok_0->0.l4_off + 13]
}

/// The cloak: a segment to a protected port that neither belongs to a live flow
/// nor begins a connection under a live grant is dropped, whatever its flags.
pub proof fn law_protected_port_is_cloaked(packet: Seq<u8>, found: Lookups, now: u64)
    requires
        tcp_segment(packet),
        found.protected,
        !alive(found.last_seen, now),
        !(pure_syn(tcp_flags(packet)) && found.grant is Some && found.grant->0.live_for(
            flow_of(packet)->0.dport,
            now,
        )),
    ensures
        verdict(packet, found, now).action == Action::Drop,
{
}

/// A connection may begin while the source's grant is live, and is tracked from
/// then on.
pub proof fn law_grant_admits_connection(packet: Seq<u8>, found: Lookups, now: u64)
    requires
        tcp_segment(packet),
        found.protected,
        pure_syn(tcp_flags(packet)),
        found.grant is Some,
        found.grant->0.live_for(flow_of(packet)->0.dport, now),
    ensures
        verdict(packet, found, now).action == Action::Pass,
        closing(tcp_flags(packet)) || verdict(packet, found, now).flow == FlowUpdate::SeenAt(now),
{
}

/// A tracked flow outlives the grant that it began under: while it is not idle
/// it passes, whatever the grant says.
pub proof fn law_established_flow_passes(packet: Seq<u8>, found: Lookups, now: u64)
    requires
        tcp_segment(packet),
        alive(found.last_seen, now),
    ensures
        verdict(packet, found, now).action == Action::Pass,
        found.protected && !closing(tcp_flags(packet)) ==> verdict(packet, found, now).flow
            == FlowUpdate::SeenAt(now),
        found.protected && closing(tcp_flags(packet)) ==> verdict(packet, found, now).flow
            == FlowUpdate::Forget,
{
}

/// What is not addressed to a protected port or to the knock port is none of
/// the filter's business.
pub proof fn law_other_traffic_passes(packet: Seq<u8>, found: Lookups, now: u64)
    requires
        !found.protected,
        match flow_of(packet) {
            Some(flow) => found.knock_port != Some(flow.dport),
            None => true,
        },
    ensures
        verdict(packet, found, now) == untouched(Action::Pass),
{
}

/// The rate state, and how many knocks passed, after knocks at `times`.
pub open spec fn rate_run(rate: Option<RateState>, times: Seq<u64>) -> (Option<RateState>, nat)
    decreases times.len(),
{
    if times.len() == 0 {
        (rate, 0)
    } else {
        let (before, passed) = rate_run(rate, times.drop_last());
        match rate_after(before, times.last()) {
            Some(next) => (Some(next), passed + 1),
            None => (before, passed),
        }
    }
}

/// From the knock that starts a window, exactly the first `RATE_LIMIT` knocks of
/// that window pass.
pub proof fn law_rate_limit(rate: Option<RateState>, times: Seq<u64>)
    requires
        rate is Some ==> age(times[0], rate->0.window_ns) >= RATE_WINDOW_NS,
        times.len() > 0,
        forall|i: int| 0 <= i < times.len() ==> age(#[trigger] times[i], times[0]) < RATE_WINDOW_NS,
    ensures
        rate_run(rate, times).1 == if times.len() < RATE_LIMIT {
            times.len()
        } else {
            RATE_LIMIT as nat
        },
        rate_run(rate, times).0 is Some,
        rate_run(rate, times).0->0.window_ns == times[0],
        rate_run(rate, times).0->0.count == rate_run(rate, times).1,
    decreases times.len(),
{
    let front = times.drop_last();
    if front.len() == 0 {
        assert(rate_run(rate, front) == (rate, 0nat));
    } else {
        assert forall|i: int| 0 <= i < front.len() implies age(#[trigger] front[i], front[0])
            < RATE_WINDOW_NS by {
            assert(front[i] == times[i]);
        }
        law_rate_limit(rate, front);
        assert(age(times[times.len() - 1], times[0]) < RATE_WINDOW_NS);
    }
}

} // verus!
