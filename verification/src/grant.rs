//! What the daemon tells the packet filter: grants, and the knock port.

use vstd::prelude::*;

verus! {

/// Maximum ports a single grant may cover. Matches [`crate::wire::MAX_PORTS`].
pub const MAX_GRANT_PORTS: usize = 8;

/// An entry in the allow-list: a source may reach `ports` until `expiry_ns`.
/// Keyed by source address.
#[derive(Clone, Copy, Debug, PartialEq, Eq)]
pub struct Grant {
    /// Monotonic nanoseconds after which the grant is dead.
    pub expiry_ns: u64,
    /// Granted destination ports. Only the first `port_count` entries are valid.
    pub ports: [u16; MAX_GRANT_PORTS],
    /// Number of valid entries in `ports`.
    pub port_count: u8,
    /// Explicit padding to a clean multiple of eight bytes.
    pub _pad: [u8; 7],
}

/// The smaller of two lengths.
pub open spec fn at_most(n: int, limit: int) -> int {
    if n > limit {
        limit
    } else {
        n
    }
}

impl Grant {
    /// The ports that this grant covers. A count beyond the array's capacity
    /// means the whole array.
    pub open spec fn granted(self) -> Seq<u16> {
        self.ports@.take(at_most(self.port_count as int, MAX_GRANT_PORTS as int))
    }

    /// The grant for the first `MAX_GRANT_PORTS` of `ports`, good for
    /// `ttl_nanos` from `now_ns`.
    pub fn issue(ports: &[u16], now_ns: u64, ttl_nanos: u64) -> (grant: Grant)
        ensures
            grant.granted() == ports@.take(at_most(ports@.len() as int, MAX_GRANT_PORTS as int)),
            grant.expiry_ns == at_most(now_ns + ttl_nanos, u64::MAX as int),
            grant.port_count == at_most(ports@.len() as int, MAX_GRANT_PORTS as int),
    {
        let mut slots: [u16; MAX_GRANT_PORTS] = [0u16; MAX_GRANT_PORTS];
        let n: usize = if ports.len() > MAX_GRANT_PORTS {
            MAX_GRANT_PORTS
        } else {
            ports.len()
        };
        let mut i: usize = 0;
        while i < n
            invariant
                i <= n <= MAX_GRANT_PORTS,
                n <= ports@.len(),
                forall|k: int| 0 <= k < i ==> slots@[k] == ports@[k],
            decreases n - i,
        {
            slots[i] = ports[i];
            i += 1;
        }
        let grant = Grant {
            expiry_ns: now_ns.saturating_add(ttl_nanos),
            ports: slots,
            port_count: n as u8,
            _pad: [0u8; 7],
        };
        assert(grant.granted() =~= ports@.take(n as int));
        grant
    }

    /// Whether `port` is one of the granted ports.
    pub fn allows_port(&self, port: u16) -> (r: bool)
        ensures
            r == self.granted().contains(port),
    {
        let n: usize = if (self.port_count as usize) > MAX_GRANT_PORTS {
            MAX_GRANT_PORTS
        } else {
            self.port_count as usize
        };
        let mut i: usize = 0;
        while i < n
            invariant
                i <= n <= MAX_GRANT_PORTS,
                n == at_most(self.port_count as int, MAX_GRANT_PORTS as int),
                forall|k: int| 0 <= k < i ==> self.ports@[k] != port,
            decreases n - i,
        {
            if self.ports[i] == port {
                assert(self.granted()[i as int] == port);
                return true;
            }
            i += 1;
        }
        assert(!self.granted().contains(port));
        false
    }

    /// Whether the grant lets a connection to `port` begin at `now_ns`.
    pub open spec fn live_for(self, port: u16, now_ns: u64) -> bool {
        now_ns < self.expiry_ns && self.granted().contains(port)
    }
}

/// What the daemon tells the packet filter at startup.
#[derive(Clone, Copy, Debug, PartialEq, Eq)]
pub struct GateConfig {
    /// UDP port that knocks arrive on.
    pub knock_port: u16,
    pub _pad: [u8; 6],
}

/// A moment on the monotonic clock, in nanoseconds; one too late for the count
/// becomes the last that it can tell.
pub fn monotonic_ns(secs: u64, nanos: u64) -> (r: u64)
    ensures
        r == at_most(secs * 1_000_000_000 + nanos, u64::MAX as int),
{
    crate::config::saturating_mul(secs, 1_000_000_000).saturating_add(nanos)
}

/// A grant covers each port that it was issued for, from the moment of issue
/// until its time is up, where its time does not run past the clock's end.
pub proof fn law_issued_grant_is_live(
    grant: Grant,
    ports: Seq<u16>,
    now_ns: u64,
    ttl_nanos: u64,
    i: int,
    later_ns: u64,
)
    requires
        grant.granted() == ports.take(at_most(ports.len() as int, MAX_GRANT_PORTS as int)),
        grant.expiry_ns == at_most(now_ns + ttl_nanos, u64::MAX as int),
        0 <= i < ports.len(),
        i < MAX_GRANT_PORTS,
        now_ns + ttl_nanos <= u64::MAX,
    ensures
        grant.live_for(ports[i], later_ns) == (later_ns < now_ns + ttl_nanos),
{
    assert(grant.granted()[i] == ports[i]);
}

} // verus!
