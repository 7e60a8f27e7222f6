//! Source addresses, and the one 16-byte form that keys both families.

use vstd::prelude::*;

use crate::bytes::{same, to_array};

verus! {

/// An IP address, in network byte order.
#[derive(Debug, Clone, Copy, PartialEq, Eq)]
pub enum IpAddr {
    V4([u8; 4]),
    V6([u8; 16]),
}

/// The prefix that marks an IPv4 address written as an IPv6 one: ten zero
/// bytes, then two of ones.
pub open spec fn mapped_prefix() -> Seq<u8> {
    seq![0u8, 0, 0, 0, 0, 0, 0, 0, 0, 0, 0xff, 0xff]
}

/// The IPv4-mapped form of four address bytes.
pub fn mapped_v4(octets: [u8; 4]) -> (key: [u8; 16])
    ensures
        key@ == mapped_prefix() + octets@,
{
    let key: [u8; 16] = [
        0,
        0,
        0,
        0,
        0,
        0,
        0,
        0,
        0,
        0,
        0xff,
        0xff,
        octets[0],
        octets[1],
        octets[2],
        octets[3],
    ];
    assert(key@ =~= mapped_prefix() + octets@);
    key
}

impl IpAddr {
    /// The 16 bytes by which the packet filter knows this address: IPv6
    /// verbatim, IPv4 in its mapped form.
    pub open spec fn key_bytes(self) -> Seq<u8> {
        match self {
            IpAddr::V4(octets) => mapped_prefix() + octets@,
            IpAddr::V6(octets) => octets@,
        }
    }

    pub fn key(&self) -> (key: [u8; 16])
        ensures
            key@ == self.key_bytes(),
    {
        match self {
            IpAddr::V4(octets) => mapped_v4(*octets),
            IpAddr::V6(octets) => *octets,
        }
    }

    /// The four bytes of an IPv4 source, also where a socket for both families
    /// reports it in its mapped form.
    pub fn v4(&self) -> (r: Option<[u8; 4]>)
        ensures
            match r {
                Some(octets) => self.key_bytes() == mapped_prefix() + octets@,
                None => self.key_bytes().take(12) != mapped_prefix(),
            },
    {
        match self {
            IpAddr::V4(octets) => Some(*octets),
            IpAddr::V6(octets) => {
                let head = vstd::slice::slice_subrange(octets.as_slice(), 0, 12);
                let tail = vstd::slice::slice_subrange(octets.as_slice(), 12, 16);
                let prefix: [u8; 12] = [0, 0, 0, 0, 0, 0, 0, 0, 0, 0, 0xff, 0xff];
                assert(prefix@ =~= mapped_prefix());
                assert(head@ =~= octets@.take(12));
                if same(head, prefix.as_slice()) {
                    assert(octets@ =~= octets@.take(12) + tail@);
                    Some(to_array::<4>(tail))
                } else {
                    None
                }
            },
        }
    }
}

/// Two IPv4 sources never share a key, and neither do two IPv6 sources.
pub proof fn law_key_bytes_injective(a: IpAddr, b: IpAddr)
    requires
        a.key_bytes() == b.key_bytes(),
        (a is V4) == (b is V4),
    ensures
        a == b,
{
    match (a, b) {
        (IpAddr::V4(x), IpAddr::V4(y)) => {
            assert forall|i: int| 0 <= i < 4 implies #[trigger] x@[i] == y@[i] by {
                assert(a.key_bytes()[12 + i] == x@[i]);
                assert(b.key_bytes()[12 + i] == y@[i]);
            }
            assert(x@ =~= y@);
            assert(x =~= y);
        },
        (IpAddr::V6(x), IpAddr::V6(y)) => {
            assert(x =~= y);
        },
        _ => {},
    }
}

} // verus!
