//! IP address families and addresses, held as plain octets.

use crate::wire::put_slice;
use vstd::prelude::*;

verus! {

/// Largest IP time-to-live; VRRP advertisements are sent with it and
/// received ones must carry it.
pub const TTL_MAX: u8 = 255;

/// An IP address family.
#[derive(Clone, Copy, Debug, PartialEq, Eq, Structural)]
pub enum AddressFamily {
    Ipv4,
    Ipv6,
}

impl AddressFamily {
    /// Number of octets in an address of the family.
    pub open spec fn spec_addr_len(self) -> nat {
        match self {
            AddressFamily::Ipv4 => 4,
            AddressFamily::Ipv6 => 16,
        }
    }

    /// Number of octets in an address of this family.
    pub fn addr_len(&self) -> (len: usize)
        ensures
            len == self.spec_addr_len(),
    {
        match self {
            AddressFamily::Ipv4 => 4,
            AddressFamily::Ipv6 => 16,
        }
    }
}

/// An IPv4 address, as its four octets in network order.
#[derive(Clone, Copy, Debug, PartialEq, Eq)]
pub struct Ipv4Addr(pub [u8; 4]);

/// An IPv6 address, as its sixteen octets in network order.
#[derive(Clone, Copy, Debug, PartialEq, Eq)]
pub struct Ipv6Addr(pub [u8; 16]);

/// An IPv4 or IPv6 address.
#[derive(Clone, Copy, Debug, PartialEq, Eq)]
pub enum IpAddr {
    V4(Ipv4Addr),
    V6(Ipv6Addr),
}

impl IpAddr {
    /// The octets of the address in network order.
    pub open spec fn octets(self) -> Seq<u8> {
        match self {
            IpAddr::V4(a) => a.0@,
            IpAddr::V6(a) => a.0@,
        }
    }

    /// The family of the address.
    pub open spec fn family(self) -> AddressFamily {
        match self {
            IpAddr::V4(_) => AddressFamily::Ipv4,
            IpAddr::V6(_) => AddressFamily::Ipv6,
        }
    }
}

/// The IPv4 address held by the four octets of `s` from `i` on.
pub open spec fn ipv4_at(s: Seq<u8>, i: int) -> Ipv4Addr {
    Ipv4Addr([s[i], s[i + 1], s[i + 2], s[i + 3]])
}

/// The IPv6 address held by the sixteen octets of `s` from `i` on.
pub open spec fn ipv6_at(s: Seq<u8>, i: int) -> Ipv6Addr {
    Ipv6Addr(
        [
            s[i],
            s[i + 1],
            s[i + 2],
            s[i + 3],
            s[i + 4],
            s[i + 5],
            s[i + 6],
            s[i + 7],
            s[i + 8],
            s[i + 9],
            s[i + 10],
            s[i + 11],
            s[i + 12],
            s[i + 13],
            s[i + 14],
            s[i + 15],
        ],
    )
}

/// Reads the IPv4 address at `i`.
pub fn get_ipv4(data: &[u8], i: usize) -> (a: Ipv4Addr)
    requires
        i + 4 <= data@.len(),
    ensures
        a == ipv4_at(data@, i as int),
{
    Ipv4Addr([data[i], data[i + 1], data[i + 2], data[i + 3]])
}

/// Reads the IPv6 address at `i`.
pub fn get_ipv6(data: &[u8], i: usize) -> (a: Ipv6Addr)
    requires
        i + 16 <= data@.len(),
    ensures
        a == ipv6_at(data@, i as int),
{
    Ipv6Addr(
        [
            data[i],
            data[i + 1],
            data[i + 2],
            data[i + 3],
            data[i + 4],
            data[i + 5],
            data[i + 6],
            data[i + 7],
            data[i + 8],
            data[i + 9],
            data[i + 10],
            data[i + 11],
            data[i + 12],
            data[i + 13],
            data[i + 14],
            data[i + 15],
        ],
    )
}

/// Appends the octets of an IPv4 address.
pub fn put_ipv4(buf: &mut Vec<u8>, a: &Ipv4Addr)
    ensures
        final(buf)@ == old(buf)@ + a.0@,
{
    put_slice(buf, a.0.as_slice());
}

/// Appends the octets of an IPv6 address.
pub fn put_ipv6(buf: &mut Vec<u8>, a: &Ipv6Addr)
    ensures
        final(buf)@ == old(buf)@ + a.0@,
{
    put_slice(buf, a.0.as_slice());
}

/// Appends the octets of an address of either family.
pub fn put_ip(buf: &mut Vec<u8>, a: &IpAddr)
    ensures
        final(buf)@ == old(buf)@ + a.octets(),
{
    match a {
        IpAddr::V4(v4) => put_ipv4(buf, v4),
        IpAddr::V6(v6) => put_ipv6(buf, v6),
    }
}

/// Reading an address back from its octets gives the address.
pub proof fn lemma_ip_octets_roundtrip(a: IpAddr, s: Seq<u8>, i: int)
    requires
        0 <= i,
        i + a.octets().len() <= s.len(),
        s.subrange(i, i + a.octets().len()) == a.octets(),
    ensures
        a matches IpAddr::V4(x) ==> ipv4_at(s, i) == x,
        a matches IpAddr::V6(x) ==> ipv6_at(s, i) == x,
{
    match a {
        IpAddr::V4(x) => {
            assert(s[i] == s.subrange(i, i + 4)[0]);
            assert(s[i + 1] == s.subrange(i, i + 4)[1]);
            assert(s[i + 2] == s.subrange(i, i + 4)[2]);
            assert(s[i + 3] == s.subrange(i, i + 4)[3]);
            assert(ipv4_at(s, i).0 =~= x.0);
        },
        IpAddr::V6(x) => {
            assert forall|j: int| 0 <= j < 16 implies #[trigger] s[i + j] == x.0@[j] by {
                assert(s[i + j] == s.subrange(i, i + 16)[j]);
            }
            assert(ipv6_at(s, i).0 =~= x.0);
        },
    }
}

} // verus!
