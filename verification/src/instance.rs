//! The VRRP protocol version run by an instance, with the address family
//! it protects.

use crate::ip::AddressFamily;
use vstd::prelude::*;

verus! {

/// A VRRP protocol version: version 2 (IPv4 only) or version 3 for an
/// address family.
#[derive(Clone, Copy, Debug, PartialEq, Eq, Structural)]
pub enum Version {
    V2,
    V3(AddressFamily),
}

impl Version {
    /// The version number carried in the packet header.
    pub open spec fn spec_version(self) -> u8 {
        match self {
            Version::V2 => 2,
            Version::V3(_) => 3,
        }
    }

    /// The address family of the protected addresses.
    pub open spec fn spec_address_family(self) -> AddressFamily {
        match self {
            Version::V2 => AddressFamily::Ipv4,
            Version::V3(af) => af,
        }
    }

    /// The version number carried in the packet header.
    pub fn version(&self) -> (v: u8)
        ensures
            v == self.spec_version(),
    {
        match self {
            Version::V2 => 2,
            Version::V3(_) => 3,
        }
    }

    /// The address family of the protected addresses.
    pub fn address_family(&self) -> (af: AddressFamily)
        ensures
            af == self.spec_address_family(),
    {
        match self {
            Version::V2 => AddressFamily::Ipv4,
            Version::V3(af) => *af,
        }
    }
}

} // verus!
