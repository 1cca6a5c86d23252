//! VRRP advertisements and the IPv4, Ethernet, ARP and ICMPv6 Neighbor
//! Advertisement headers that carry or accompany them: their octet layouts,
//! encoders and decoders.
//!
//! VRRP version 2 advertisement:
//!
//! ```text
//!  0                   1                   2                   3
//!  0 1 2 3 4 5 6 7 8 9 0 1 2 3 4 5 6 7 8 9 0 1 2 3 4 5 6 7 8 9 0 1
//! +-+-+-+-+-+-+-+-+-+-+-+-+-+-+-+-+-+-+-+-+-+-+-+-+-+-+-+-+-+-+-+-+
//! |Version| Type  | Virtual Rtr ID|   Priority    | Count IP Addrs|
//! +-+-+-+-+-+-+-+-+-+-+-+-+-+-+-+-+-+-+-+-+-+-+-+-+-+-+-+-+-+-+-+-+
//! |   Auth Type   |   Adver Int   |          Checksum             |
//! +-+-+-+-+-+-+-+-+-+-+-+-+-+-+-+-+-+-+-+-+-+-+-+-+-+-+-+-+-+-+-+-+
//! |                     IP Address (1) ... (n)                    |
//! +-+-+-+-+-+-+-+-+-+-+-+-+-+-+-+-+-+-+-+-+-+-+-+-+-+-+-+-+-+-+-+-+
//! |             Authentication Data (1) and (2)                   |
//! +-+-+-+-+-+-+-+-+-+-+-+-+-+-+-+-+-+-+-+-+-+-+-+-+-+-+-+-+-+-+-+-+
//! ```
//!
//! VRRP version 3 advertisement:
//!
//! ```text
//! +-+-+-+-+-+-+-+-+-+-+-+-+-+-+-+-+-+-+-+-+-+-+-+-+-+-+-+-+-+-+-+-+
//! |Version| Type  | Virtual Rtr ID|   Priority    |IPvX Addr Count|
//! +-+-+-+-+-+-+-+-+-+-+-+-+-+-+-+-+-+-+-+-+-+-+-+-+-+-+-+-+-+-+-+-+
//! |Reserve| Max Advertise Interval|          Checksum             |
//! +-+-+-+-+-+-+-+-+-+-+-+-+-+-+-+-+-+-+-+-+-+-+-+-+-+-+-+-+-+-+-+-+
//! |                       IPvX Address(es)                        |
//! +-+-+-+-+-+-+-+-+-+-+-+-+-+-+-+-+-+-+-+-+-+-+-+-+-+-+-+-+-+-+-+-+
//! ```

use crate::checksum::{checksum_input_limit, checksum_octets, checksum_verifies, compute_checksum};
use crate::instance::Version;
use crate::ip::{
    get_ipv4, get_ipv6, ipv4_at, ipv6_at, put_ip, put_ipv4, AddressFamily, IpAddr, Ipv4Addr,
    Ipv6Addr, put_ipv6, TTL_MAX,
};
use crate::wire::{
    be16, be32, bytes_mut_from_slice, bytes_mut_octets, get_u16, get_u32, put_slice, put_u16, put_u32,
    put_u8, read_be16, read_be32,
};
use bytes::BytesMut;
use vstd::prelude::*;

verus! {

/// The result of a decoder.
pub type DecodeResult<T> = Result<T, DecodeError>;

/// A VRRP advertisement header.
#[derive(Clone, Debug, Eq, PartialEq)]
pub struct VrrpHdr {
    pub version: Version,
    pub hdr_type: u8,
    pub vrid: u8,
    pub priority: u8,
    pub count_ip: u8,
    pub adver_int: u16,
    pub checksum: u16,
    pub ip_addresses: Vec<IpAddr>,
}

/// The value of a `VrrpHdr`, its address list as a sequence.
pub struct VrrpHdrView {
    pub version: Version,
    pub hdr_type: u8,
    pub vrid: u8,
    pub priority: u8,
    pub count_ip: u8,
    pub adver_int: u16,
    pub checksum: u16,
    pub ip_addresses: Seq<IpAddr>,
}

impl View for VrrpHdr {
    type V = VrrpHdrView;

    open spec fn view(&self) -> VrrpHdrView {
        VrrpHdrView {
            version: self.version,
            hdr_type: self.hdr_type,
            vrid: self.vrid,
            priority: self.priority,
            count_ip: self.count_ip,
            adver_int: self.adver_int,
            checksum: self.checksum,
            ip_addresses: self.ip_addresses@,
        }
    }
}

/// Why a received packet was rejected.
#[derive(Debug, Eq, PartialEq)]
pub enum DecodeError {
    ChecksumError,
    IncompletePacket,
    PacketLengthError { vrid: u8, version: Version },
    IpTtlError { ttl: u8 },
    VersionError { vrid: u8 },
}

/// The octets of the IPv4 addresses of `addrs`, in order; IPv6 addresses
/// are left out.
pub open spec fn ipv4_list_octets(addrs: Seq<IpAddr>) -> Seq<u8>
    decreases addrs.len(),
{
    if addrs.len() == 0 {
        Seq::empty()
    } else {
        ipv4_list_octets(addrs.drop_last()) + match addrs.last() {
            IpAddr::V4(a) => a.0@,
            IpAddr::V6(_) => Seq::empty(),
        }
    }
}

/// The octets of all the addresses of `addrs`, in order.
pub open spec fn ip_list_octets(addrs: Seq<IpAddr>) -> Seq<u8>
    decreases addrs.len(),
{
    if addrs.len() == 0 {
        Seq::empty()
    } else {
        ip_list_octets(addrs.drop_last()) + addrs.last().octets()
    }
}

/// `n` zero octets.
pub open spec fn zeros(n: nat) -> Seq<u8> {
    Seq::new(n, |i: int| 0u8)
}

/// The first octet of a VRRP header: version in the high nibble, type in
/// the low one.
pub open spec fn vrrp_ver_type(h: VrrpHdrView) -> u8 {
    (h.version.spec_version() << 4u8) | h.hdr_type
}

/// The octets of a VRRP header with its checksum field as given in `h`.
pub open spec fn vrrp_raw_octets(h: VrrpHdrView) -> Seq<u8> {
    let head = seq![vrrp_ver_type(h), h.vrid, h.priority, h.count_ip];
    match h.version {
        Version::V2 => head + seq![0u8, h.adver_int as u8] + be16(h.checksum) + ipv4_list_octets(
            h.ip_addresses,
        ) + zeros(8),
        Version::V3(_) => head + be16(h.adver_int & 0x0FFF) + be16(h.checksum) + ip_list_octets(
            h.ip_addresses,
        ),
    }
}

/// `s` with the 16-bit word at `k` replaced by the checksum of `s`.
pub open spec fn with_checksum_at(s: Seq<u8>, k: int) -> Seq<u8> {
    s.update(k, checksum_octets(s)[0]).update(k + 1, checksum_octets(s)[1])
}

/// The octets `VrrpHdr::encode` produces: for IPv4 the checksum field then
/// holds the checksum of the header as first laid out.
pub open spec fn vrrp_octets(h: VrrpHdrView) -> Seq<u8> {
    let raw = vrrp_raw_octets(h);
    if h.version.spec_address_family() == AddressFamily::Ipv4 {
        with_checksum_at(raw, 6)
    } else {
        raw
    }
}

/// The protocol version a VRRP header announces, for packets received on
/// an interface of family `af`.
pub open spec fn vrrp_decode_version(ver: u8, af: AddressFamily) -> Option<Version> {
    if ver == 2 && af == AddressFamily::Ipv4 {
        Some(Version::V2)
    } else if ver == 3 {
        Some(Version::V3(af))
    } else {
        None
    }
}

/// Maximum number of octets in a VRRP packet of a version.
pub open spec fn vrrp_max_length(version: Version) -> nat {
    8 + version.spec_address_family().spec_addr_len() * 20
}

/// Number of octets the fields of a VRRP header with `count` addresses span.
pub open spec fn vrrp_fields_length(version: Version, count: u8) -> nat {
    match version {
        Version::V2 => 16 + 4 * (count as nat),
        Version::V3(af) => 8 + af.spec_addr_len() * (count as nat),
    }
}

/// The version of the header in `data`, if the header is long enough and
/// announces a version accepted on family `af`.
pub open spec fn vrrp_header_version(data: Seq<u8>, af: AddressFamily) -> Option<Version> {
    if data.len() < 8 {
        None
    } else {
        vrrp_decode_version(data[0] >> 4u8, af)
    }
}

/// `data` holds every field that decoding it reads: a header that passes the
/// length and version checks is long enough for its advertised addresses.
pub open spec fn vrrp_fields_present(data: Seq<u8>, af: AddressFamily) -> bool {
    match vrrp_header_version(data, af) {
        Some(v) => data.len() <= vrrp_max_length(v) ==> vrrp_fields_length(v, data[3]) <= data.len(),
        None => true,
    }
}

/// The `i`-th address of a VRRP header of version `v` held in `data`.
pub open spec fn vrrp_address_at(data: Seq<u8>, v: Version, i: int) -> IpAddr {
    match v {
        Version::V3(AddressFamily::Ipv6) => IpAddr::V6(ipv6_at(data, 8 + 16 * i)),
        _ => IpAddr::V4(ipv4_at(data, 8 + 4 * i)),
    }
}

/// The header `VrrpHdr::decode` reads from `data`, checks aside.
pub open spec fn vrrp_fields(data: Seq<u8>, v: Version) -> VrrpHdrView {
    VrrpHdrView {
        version: v,
        hdr_type: data[0] & 0x0Fu8,
        vrid: data[1],
        priority: data[2],
        count_ip: data[3],
        adver_int: match v {
            Version::V2 => data[5] as u16,
            Version::V3(_) => read_be16(data, 4) & 0x0FFFu16,
        },
        checksum: read_be16(data, 6),
        ip_addresses: Seq::new(data[3] as nat, |i: int| vrrp_address_at(data, v, i)),
    }
}

/// What decoding `data` received on family `af` gives: the first failed
/// check in the order length, version, maximum length, checksum (IPv4
/// only), or the header.
pub open spec fn spec_vrrp_decode(data: Seq<u8>, af: AddressFamily) -> Result<
    VrrpHdrView,
    DecodeError,
> {
    if data.len() < 8 {
        Err(DecodeError::IncompletePacket)
    } else {
        match vrrp_decode_version(data[0] >> 4u8, af) {
            None => Err(DecodeError::VersionError { vrid: data[1] }),
            Some(v) => if data.len() > vrrp_max_length(v) {
                Err(DecodeError::PacketLengthError { vrid: data[1], version: v })
            } else if af == AddressFamily::Ipv4 && !checksum_verifies(data) {
                Err(DecodeError::ChecksumError)
            } else {
                Ok(vrrp_fields(data, v))
            },
        }
    }
}

/// A decoding result, the header taken by its value.
pub open spec fn vrrp_result_view(r: DecodeResult<VrrpHdr>) -> Result<VrrpHdrView, DecodeError> {
    match r {
        Ok(h) => Ok(h@),
        Err(e) => Err(e),
    }
}

impl VrrpHdr {
    /// Minimum number of octets in a VRRP header (either version).
    const MIN_LEN: usize = 8;

    /// Maximum number of virtual addresses in a VRRP advertisement.
    const MAX_VIRTUAL_IP_COUNT: usize = 20;

    /// Valid VRRP protocol versions.
    pub const VALID_VERSIONS: [u8; 2] = [2, 3];

    /// Offset of the checksum field within the VRRP header.
    pub const CHECKSUM_OFFSET: i32 = 6;

    /// Encodes the header. For IPv4 (version 2, and version 3 over IPv4)
    /// the checksum field holds the checksum of the header as first laid out
    /// with `self.checksum` in that field; version 2 leaves out any IPv6
    /// address and ends with eight zero octets of authentication data.
    pub fn encode(&self) -> (buf: BytesMut)
        requires
            self.ip_addresses@.len() <= 0x100_0000_0000,
        ensures
            bytes_mut_octets(buf) == vrrp_octets(self@),
    {
        let buf = self.encode_octets();
        bytes_mut_from_slice(buf.as_slice())
    }

    /// The octets of `encode`, in a vector.
    fn encode_octets(&self) -> (buf: Vec<u8>)
        requires
            self.ip_addresses@.len() <= 0x100_0000_0000,
        ensures
            buf@ == vrrp_octets(self@),
    {
        let mut buf: Vec<u8> = Vec::with_capacity(114);
        let ver_type = (self.version.version() << 4u8) | self.hdr_type;
        put_u8(&mut buf, ver_type);
        put_u8(&mut buf, self.vrid);
        put_u8(&mut buf, self.priority);
        put_u8(&mut buf, self.count_ip);
        let ghost head = buf@;
        assert(head =~= seq![vrrp_ver_type(self@), self.vrid, self.priority, self.count_ip]);
        match self.version {
            Version::V2 => {
                put_u8(&mut buf, 0);
                put_u8(&mut buf, self.adver_int as u8);
                put_u16(&mut buf, self.checksum);
                let ghost fixed = buf@;
                let mut i: usize = 0;
                while i < self.ip_addresses.len()
                    invariant
                        i <= self.ip_addresses@.len(),
                        buf@ == fixed + ipv4_list_octets(self.ip_addresses@.take(i as int)),
                        fixed.len() == 8,
                        buf@.len() <= 8 + 4 * i,
                    decreases self.ip_addresses@.len() - i,
                {
                    if let IpAddr::V4(ipv4_addr) = &self.ip_addresses[i] {
                        put_ipv4(&mut buf, ipv4_addr);
                    }
                    assert(self.ip_addresses@.take(i + 1).drop_last() =~= self.ip_addresses@.take(
                        i as int,
                    ));
                    i = i + 1;
                    assert(buf@ =~= fixed + ipv4_list_octets(self.ip_addresses@.take(i as int)));
                }
                assert(self.ip_addresses@.take(i as int) =~= self.ip_addresses@);
                put_u32(&mut buf, 0);
                put_u32(&mut buf, 0);
                assert(buf@ =~= vrrp_raw_octets(self@));
            },
            Version::V3(_) => {
                put_u16(&mut buf, self.adver_int & 0x0FFF);
                put_u16(&mut buf, self.checksum);
                let ghost fixed = buf@;
                let mut i: usize = 0;
                while i < self.ip_addresses.len()
                    invariant
                        i <= self.ip_addresses@.len(),
                        buf@ == fixed + ip_list_octets(self.ip_addresses@.take(i as int)),
                        fixed.len() == 8,
                        buf@.len() <= 8 + 16 * i,
                    decreases self.ip_addresses@.len() - i,
                {
                    put_ip(&mut buf, &self.ip_addresses[i]);
                    assert(self.ip_addresses@.take(i + 1).drop_last() =~= self.ip_addresses@.take(
                        i as int,
                    ));
                    i = i + 1;
                    assert(buf@ =~= fixed + ip_list_octets(self.ip_addresses@.take(i as int)));
                }
                assert(self.ip_addresses@.take(i as int) =~= self.ip_addresses@);
                assert(buf@ =~= vrrp_raw_octets(self@));
            },
        }
        // Generate checksum.
        if let AddressFamily::Ipv4 = self.version.address_family() {
            let check = compute_checksum(buf.as_slice());
            buf[6] = check[0];
            buf[7] = check[1];
            assert(buf@ =~= with_checksum_at(vrrp_raw_octets(self@), 6));
        }
        buf
    }

    /// Decodes a VRRP header received on an interface of family `af`.
    /// IPv4 packets must pass the checksum check; for IPv6 the kernel checks
    /// it.
    pub fn decode(data: &[u8], af: AddressFamily) -> (r: DecodeResult<Self>)
        requires
            vrrp_fields_present(data@, af),
        ensures
            vrrp_result_view(r) == spec_vrrp_decode(data@, af),
    {
        let pkt_size = data.len();
        if pkt_size < Self::MIN_LEN {
            return Err(DecodeError::IncompletePacket);
        }
        let ver_type = data[0];
        let ver = ver_type >> 4u8;
        let hdr_type = ver_type & 0x0F;
        let vrid = data[1];
        let version = match (ver, af) {
            (2, AddressFamily::Ipv4) => Version::V2,
            (3, AddressFamily::Ipv4) => Version::V3(AddressFamily::Ipv4),
            (3, AddressFamily::Ipv6) => Version::V3(AddressFamily::Ipv6),
            _ => return Err(DecodeError::VersionError { vrid }),
        };
        if pkt_size > Self::max_length(version) {
            return Err(DecodeError::PacketLengthError { vrid, version });
        }
        let priority = data[2];
        let count_ip = data[3];
        let adver_int;
        let checksum;
        let mut ip_addresses: Vec<IpAddr> = Vec::new();
        let ghost addrs = Seq::new(count_ip as nat, |i: int| vrrp_address_at(data@, version, i));
        match version {
            Version::V2 => {
                let _auth_type = data[4];
                adver_int = data[5] as u16;
                checksum = get_u16(data, 6);
                let mut i: u8 = 0;
                while i < count_ip
                    invariant
                        i <= count_ip,
                        count_ip == data@[3],
                        version == Version::V2,
                        16 + 4 * count_ip <= data@.len(),
                        addrs == Seq::new(count_ip as nat, |i: int| vrrp_address_at(data@, version, i)),
                        ip_addresses@ == addrs.take(i as int),
                    decreases count_ip - i,
                {
                    let a = get_ipv4(data, 8 + 4 * (i as usize));
                    ip_addresses.push(IpAddr::V4(a));
                    i = i + 1;
                    assert(ip_addresses@ =~= addrs.take(i as int));
                }
            },
            Version::V3(af) => {
                adver_int = get_u16(data, 4) & 0x0FFF;
                checksum = get_u16(data, 6);
                let mut i: u8 = 0;
                while i < count_ip
                    invariant
                        i <= count_ip,
                        count_ip == data@[3],
                        version == Version::V3(af),
                        8 + af.spec_addr_len() * count_ip <= data@.len(),
                        addrs == Seq::new(count_ip as nat, |i: int| vrrp_address_at(data@, version, i)),
                        ip_addresses@ == addrs.take(i as int),
                    decreases count_ip - i,
                {
                    match af {
                        AddressFamily::Ipv4 => {
                            let a = get_ipv4(data, 8 + 4 * (i as usize));
                            ip_addresses.push(IpAddr::V4(a));
                        },
                        AddressFamily::Ipv6 => {
                            let a = get_ipv6(data, 8 + 16 * (i as usize));
                            ip_addresses.push(IpAddr::V6(a));
                        },
                    }
                    i = i + 1;
                    assert(ip_addresses@ =~= addrs.take(i as int));
                }
            },
        }
        assert(addrs.take(count_ip as int) =~= addrs);

        // Checksum validation.
        match af {
            AddressFamily::Ipv4 => {
                let check = compute_checksum(data);
                if check[0] != 0 || check[1] != 0 {
                    return Err(DecodeError::ChecksumError);
                }
            },
            AddressFamily::Ipv6 => {
                // For IPv6, checksum validation is offloaded to the kernel.
            },
        }

        let hdr = Self {
            version,
            hdr_type,
            vrid,
            priority,
            count_ip,
            adver_int,
            checksum,
            ip_addresses,
        };
        assert(hdr@ == vrrp_fields(data@, version));
        Ok(hdr)
    }

    /// Maximum number of octets in a packet of `version`.
    pub fn max_length(version: Version) -> (len: usize)
        ensures
            len == vrrp_max_length(version),
    {
        Self::MIN_LEN + version.address_family().addr_len() * Self::MAX_VIRTUAL_IP_COUNT
    }
}

/// An IPv4 header, with the optional options word split into 24 bits of
/// options and 8 of padding.
#[derive(Clone, Debug, Eq, PartialEq)]
pub struct Ipv4Hdr {
    pub version: u8,
    pub ihl: u8,
    pub tos: u8,
    pub total_length: u16,
    pub identification: u16,
    pub flags: u8,
    pub offset: u16,
    pub ttl: u8,
    pub protocol: u8,
    pub checksum: u16,
    pub src_address: Ipv4Addr,
    pub dst_address: Ipv4Addr,
    pub options: Option<u32>,
    pub padding: Option<u8>,
}

/// The octets of an IPv4 header with its checksum field as given in `h`:
/// twenty octets, then the options word when both options and padding are
/// present.
pub open spec fn ipv4_raw_octets(h: Ipv4Hdr) -> Seq<u8> {
    let fixed = seq![(h.version << 4u8) | h.ihl, h.tos] + be16(h.total_length) + be16(
        h.identification,
    ) + be16(((h.flags as u16) << 12u16) | h.offset) + seq![h.ttl, h.protocol] + be16(h.checksum)
        + h.src_address.0@ + h.dst_address.0@;
    match (h.options, h.padding) {
        (Some(options), Some(padding)) => fixed + be32((options << 8u32) | (padding as u32)),
        _ => fixed,
    }
}

/// The octets `Ipv4Hdr::encode` produces: the checksum field holds the
/// checksum of the header as first laid out.
pub open spec fn ipv4_octets(h: Ipv4Hdr) -> Seq<u8> {
    with_checksum_at(ipv4_raw_octets(h), 10)
}

/// `data` holds every field that decoding it as an IPv4 header reads: the
/// time-to-live, and when that check passes the rest of the twenty octets,
/// plus the options word when the header length (in 32-bit words) exceeds
/// five. It is also no longer than the checksum computation takes.
pub open spec fn ipv4_fields_present(data: Seq<u8>) -> bool {
    &&& data.len() >= 9
    &&& data[8] == TTL_MAX ==> data.len() >= 20
    &&& data[8] == TTL_MAX && (data[0] & 0x0Fu8) > 5 ==> data.len() >= 24
    &&& data.len() <= checksum_input_limit()
}

/// What decoding `data` as an IPv4 header gives: a time-to-live other than
/// the maximum, a failed checksum over all of `data`, or the header. A
/// header longer than five 32-bit words carries the options word: its top
/// 24 bits are the options, its low octet the padding.
pub open spec fn spec_ipv4_decode(data: Seq<u8>) -> DecodeResult<Ipv4Hdr> {
    if data[8] != TTL_MAX {
        Err(DecodeError::IpTtlError { ttl: data[8] })
    } else if !checksum_verifies(data) {
        Err(DecodeError::ChecksumError)
    } else {
        let has_options = (data[0] & 0x0Fu8) > 5;
        Ok(
            Ipv4Hdr {
                version: data[0] >> 4u8,
                ihl: data[0] & 0x0Fu8,
                tos: data[1],
                total_length: read_be16(data, 2),
                identification: read_be16(data, 4),
                flags: (read_be16(data, 6) >> 12u16) as u8,
                offset: read_be16(data, 6) & 0xFFFu16,
                ttl: data[8],
                protocol: data[9],
                checksum: read_be16(data, 10),
                src_address: ipv4_at(data, 12),
                dst_address: ipv4_at(data, 16),
                options: if has_options {
                    Some(read_be32(data, 20) >> 8u32)
                } else {
                    None
                },
                padding: if has_options {
                    Some(data[23])
                } else {
                    None
                },
            },
        )
    }
}

impl Ipv4Hdr {
    /// Minimum number of octets in an IPv4 header.
    const MIN_LEN: usize = 20;

    /// Encodes the header; the checksum field holds the checksum of the
    /// header as first laid out with `self.checksum` in that field.
    pub fn encode(&self) -> (buf: BytesMut)
        ensures
            bytes_mut_octets(buf) == ipv4_octets(*self),
    {
        let buf = self.encode_octets();
        bytes_mut_from_slice(buf.as_slice())
    }

    /// The octets of `encode`, in a vector.
    fn encode_octets(&self) -> (buf: Vec<u8>)
        ensures
            buf@ == ipv4_octets(*self),
    {
        let mut buf: Vec<u8> = Vec::new();

        // ver_ihl -> version[4 bits] + ihl[4 bits]
        put_u8(&mut buf, (self.version << 4u8) | self.ihl);
        put_u8(&mut buf, self.tos);
        put_u16(&mut buf, self.total_length);
        put_u16(&mut buf, self.identification);

        // flag_off -> flags[4 bits] + offset[12 bits]
        let flag_off: u16 = ((self.flags as u16) << 12u16) | self.offset;
        put_u16(&mut buf, flag_off);
        put_u8(&mut buf, self.ttl);
        put_u8(&mut buf, self.protocol);
        put_u16(&mut buf, self.checksum);
        put_ipv4(&mut buf, &self.src_address);
        put_ipv4(&mut buf, &self.dst_address);

        // The header is 20 octets long, or 24 when the options and padding
        // fields are present.
        if let (Some(options), Some(padding)) = (self.options, self.padding) {
            let opt_pad: u32 = (options << 8u32) | (padding as u32);
            put_u32(&mut buf, opt_pad);
        }
        assert(buf@ =~= ipv4_raw_octets(*self));

        let check = compute_checksum(buf.as_slice());
        buf[10] = check[0];
        buf[11] = check[1];
        assert(buf@ =~= ipv4_octets(*self));
        buf
    }

    /// Decodes an IPv4 header; the time-to-live must be the maximum and the
    /// checksum over all of `data` must pass. The options word is read when
    /// the header is longer than five 32-bit words.
    pub fn decode(data: &[u8]) -> (r: DecodeResult<Self>)
        requires
            ipv4_fields_present(data@),
        ensures
            r == spec_ipv4_decode(data@),
    {
        // ver_ihl -> version[4 bits] + ihl[4 bits]
        let ver_ihl = data[0];
        let version = ver_ihl >> 4u8;
        let ihl = ver_ihl & 0x0F;

        let tos = data[1];
        let total_length = get_u16(data, 2);
        let identification = get_u16(data, 4);

        // flag_off -> flags[4 bits] + offset[12 bits]
        let flag_off = get_u16(data, 6);
        let flags: u8 = (flag_off >> 12u16) as u8;
        let offset: u16 = flag_off & 0xFFF;

        let ttl = data[8];
        if ttl != TTL_MAX {
            return Err(DecodeError::IpTtlError { ttl });
        }
        let protocol = data[9];
        let checksum = get_u16(data, 10);

        let src_address = get_ipv4(data, 12);
        let dst_address = get_ipv4(data, 16);

        let mut options: Option<u32> = None;
        let mut padding: Option<u8> = None;

        // The header length counts 32-bit words; past the minimum length
        // the header carries the options and padding fields.
        if (ihl as usize) * 4 > Self::MIN_LEN {
            let opt_pad = get_u32(data, 20);
            options = Some(opt_pad >> 8u32);
            padding = Some((opt_pad & 0xFF) as u8);
            let ghost b0 = data@[20];
            let ghost b1 = data@[21];
            let ghost b2 = data@[22];
            let ghost b3 = data@[23];
            assert(opt_pad == b0 as u32 * 0x100_0000u32 + b1 as u32 * 0x1_0000u32 + b2 as u32
                * 256u32 + b3 as u32 ==> (opt_pad & 0xFFu32) as u8 == b3) by (bit_vector);
        }

        let check = compute_checksum(data);
        if check[0] != 0 || check[1] != 0 {
            return Err(DecodeError::ChecksumError);
        }

        Ok(
            Self {
                version,
                ihl,
                tos,
                total_length,
                identification,
                flags,
                offset,
                ttl,
                protocol,
                checksum,
                src_address,
                dst_address,
                options,
                padding,
            },
        )
    }
}

/// An Ethernet header.
#[derive(Clone, Copy, Debug, Eq, PartialEq)]
pub struct EthernetHdr {
    pub dst_mac: [u8; 6],
    pub src_mac: [u8; 6],
    pub ethertype: u16,
}

/// `libc::ETH_P_IP`: the EtherType of IPv4.
#[verifier::external_body]
fn eth_p_ip() -> (t: u16)
    ensures
        t == 0x0800,
{
    libc::ETH_P_IP as u16
}

/// The MAC address held by the six octets of `s` from `i` on.
pub open spec fn mac_at(s: Seq<u8>, i: int) -> [u8; 6] {
    [s[i], s[i + 1], s[i + 2], s[i + 3], s[i + 4], s[i + 5]]
}

/// Reads the MAC address at `i`.
fn get_mac(data: &[u8], i: usize) -> (m: [u8; 6])
    requires
        i + 6 <= data@.len(),
    ensures
        m == mac_at(data@, i as int),
{
    [data[i], data[i + 1], data[i + 2], data[i + 3], data[i + 4], data[i + 5]]
}

/// The octets of an Ethernet header: destination, source, EtherType.
pub open spec fn ethernet_octets(h: EthernetHdr) -> Seq<u8> {
    h.dst_mac@ + h.src_mac@ + be16(h.ethertype)
}

/// What decoding `data` as an Ethernet header gives: the two addresses,
/// and the EtherType of IPv4 whatever `data` holds there.
pub open spec fn spec_ethernet_decode(data: Seq<u8>) -> DecodeResult<EthernetHdr> {
    Ok(EthernetHdr { dst_mac: mac_at(data, 0), src_mac: mac_at(data, 6), ethertype: 0x0800 })
}

impl EthernetHdr {
    /// Encodes the header.
    pub fn encode(&self) -> (buf: BytesMut)
        ensures
            bytes_mut_octets(buf) == ethernet_octets(*self),
    {
        let mut buf: Vec<u8> = Vec::new();
        put_slice(&mut buf, self.dst_mac.as_slice());
        put_slice(&mut buf, self.src_mac.as_slice());
        put_u16(&mut buf, self.ethertype);
        bytes_mut_from_slice(buf.as_slice())
    }

    /// Decodes the two addresses of an Ethernet header; the EtherType is
    /// taken to be that of IPv4.
    pub fn decode(data: &[u8]) -> (r: DecodeResult<Self>)
        requires
            data@.len() >= 12,
        ensures
            r == spec_ethernet_decode(data@),
    {
        let dst_mac = get_mac(data, 0);
        let src_mac = get_mac(data, 6);
        Ok(Self { dst_mac, src_mac, ethertype: eth_p_ip() })
    }
}

/// An ARP header for IPv4 over Ethernet.
#[derive(Clone, Debug, Eq, PartialEq)]
pub struct ArpHdr {
    pub hw_type: u16,
    pub proto_type: u16,
    pub hw_length: u8,
    pub proto_length: u8,
    pub operation: u16,
    pub sender_hw_address: [u8; 6],
    pub sender_proto_address: Ipv4Addr,
    pub target_hw_address: [u8; 6],
    pub target_proto_address: Ipv4Addr,
}

/// The octets of an ARP header, fields in order.
pub open spec fn arp_octets(h: ArpHdr) -> Seq<u8> {
    be16(h.hw_type) + be16(h.proto_type) + seq![h.hw_length, h.proto_length] + be16(h.operation)
        + h.sender_hw_address@ + h.sender_proto_address.0@ + h.target_hw_address@
        + h.target_proto_address.0@
}

/// What decoding `data` as an ARP header gives: the fields of its first
/// 28 octets.
pub open spec fn spec_arp_decode(data: Seq<u8>) -> DecodeResult<ArpHdr> {
    Ok(
        ArpHdr {
            hw_type: read_be16(data, 0),
            proto_type: read_be16(data, 2),
            hw_length: data[4],
            proto_length: data[5],
            operation: read_be16(data, 6),
            sender_hw_address: mac_at(data, 8),
            sender_proto_address: ipv4_at(data, 14),
            target_hw_address: mac_at(data, 18),
            target_proto_address: ipv4_at(data, 24),
        },
    )
}

impl ArpHdr {
    /// Encodes the header.
    pub fn encode(&self) -> (buf: BytesMut)
        ensures
            bytes_mut_octets(buf) == arp_octets(*self),
    {
        let mut buf: Vec<u8> = Vec::with_capacity(28);
        put_u16(&mut buf, self.hw_type);
        put_u16(&mut buf, self.proto_type);
        put_u8(&mut buf, self.hw_length);
        put_u8(&mut buf, self.proto_length);
        put_u16(&mut buf, self.operation);
        put_slice(&mut buf, self.sender_hw_address.as_slice());
        put_ipv4(&mut buf, &self.sender_proto_address);
        put_slice(&mut buf, self.target_hw_address.as_slice());
        put_ipv4(&mut buf, &self.target_proto_address);
        assert(buf@ =~= arp_octets(*self));
        bytes_mut_from_slice(buf.as_slice())
    }

    /// Decodes an ARP header from the first 28 octets of `data`.
    pub fn decode(data: &[u8]) -> (r: DecodeResult<Self>)
        requires
            data@.len() >= 28,
        ensures
            r == spec_arp_decode(data@),
    {
        let hw_type = get_u16(data, 0);
        let proto_type = get_u16(data, 2);
        let hw_length = data[4];
        let proto_length = data[5];
        let operation = get_u16(data, 6);
        let sender_hw_address = get_mac(data, 8);
        let sender_proto_address = get_ipv4(data, 14);
        let target_hw_address = get_mac(data, 18);
        let target_proto_address = get_ipv4(data, 24);

        Ok(
            Self {
                hw_type,
                proto_type,
                hw_length,
                proto_length,
                operation,
                sender_hw_address,
                sender_proto_address,
                target_hw_address,
                target_proto_address,
            },
        )
    }
}

/// The headers of a VRRP advertisement sent over IPv4.
#[derive(Clone, Debug, Eq, PartialEq)]
pub struct Vrrp4Packet {
    pub ip: Ipv4Hdr,
    pub vrrp: VrrpHdr,
}

/// The octets of a VRRP advertisement over IPv4: the IPv4 header, then the
/// VRRP header, each encoded with its own checksum.
pub open spec fn vrrp4_octets(p: Vrrp4Packet) -> Seq<u8> {
    ipv4_octets(p.ip) + vrrp_octets(p.vrrp@)
}

impl Vrrp4Packet {
    /// Maximum size of the IPv4 and VRRP headers together.
    pub const MAX_LEN: usize = 130;

    /// Encodes the IPv4 header followed by the VRRP header.
    pub fn encode(&self) -> (buf: BytesMut)
        requires
            self.vrrp.ip_addresses@.len() <= 0x100_0000_0000,
        ensures
            bytes_mut_octets(buf) == vrrp4_octets(*self),
    {
        let mut buf: Vec<u8> = Vec::with_capacity(Self::MAX_LEN);
        let mut ip = self.ip.encode_octets();
        let mut vrrp = self.vrrp.encode_octets();
        buf.append(&mut ip);
        buf.append(&mut vrrp);
        assert(buf@ =~= vrrp4_octets(*self));
        bytes_mut_from_slice(buf.as_slice())
    }
}

/// The IP protocol number of ICMPv6.
pub const ICMP_PROTO_NUMBER: i32 = 58;

/// An ICMPv6 Neighbor Advertisement: the ICMPv6 header and the fields of
/// the advertisement.
#[derive(Clone, Debug, Eq, PartialEq)]
pub struct NeighborAdvertisement {
    pub icmp_type: u8,
    pub code: u8,
    pub checksum: u16,
    pub r: u8,
    pub s: u8,
    pub o: u8,
    pub reserved: u32,
    pub target_address: Ipv6Addr,
}

/// The word after the checksum: the router, solicited and override flags
/// in its top three bits, then the reserved field shifted right by three.
pub open spec fn na_rso_reserved(na: NeighborAdvertisement) -> u32 {
    ((na.r as u32) << 31u32) | ((na.s as u32) << 30u32) | ((na.o as u32) << 29u32) | (na.reserved
        >> 3u32)
}

/// The router, solicited and override flags in the top three bits, then
/// `reserved` shifted right by three.
fn rso_word(r: u8, s: u8, o: u8, reserved: u32) -> (w: u32)
    ensures
        w == ((r as u32) << 31u32) | ((s as u32) << 30u32) | ((o as u32) << 29u32) | (reserved
            >> 3u32),
{
    ((r as u32) << 31u32) | ((s as u32) << 30u32) | ((o as u32) << 29u32) | (reserved >> 3u32)
}

/// The octets of a Neighbor Advertisement.
pub open spec fn na_octets(na: NeighborAdvertisement) -> Seq<u8> {
    seq![na.icmp_type, na.code] + be16(na.checksum) + be32(na_rso_reserved(na))
        + na.target_address.0@
}

/// The octets of the IPv6 pseudo-header for a Neighbor Advertisement: the
/// target address as source and as destination, the payload length, and
/// the ICMPv6 protocol number.
pub open spec fn na_pseudo_header_octets(na: NeighborAdvertisement) -> Seq<u8> {
    na.target_address.0@ + na.target_address.0@ + be32(24) + be32(58)
}

impl NeighborAdvertisement {
    /// Size of the buffer an advertisement is encoded into.
    pub const PKT_LEN: usize = 192;

    /// Number of octets in the IPv6 pseudo-header.
    pub const PSEUDO_LENGTH: usize = 40;

    /// Payload length written in the pseudo-header.
    pub const PAYLOAD_LENGTH: u32 = 24;

    /// Encodes the advertisement.
    pub fn encode(&self) -> (buf: BytesMut)
        ensures
            bytes_mut_octets(buf) == na_octets(*self),
    {
        let mut buf: Vec<u8> = Vec::with_capacity(Self::PKT_LEN);
        put_u8(&mut buf, self.icmp_type);
        put_u8(&mut buf, self.code);
        put_u16(&mut buf, self.checksum);

        let rso_reserved = rso_word(self.r, self.s, self.o, self.reserved);

        put_u32(&mut buf, rso_reserved);
        put_ipv6(&mut buf, &self.target_address);
        assert(buf@ =~= na_octets(*self));
        bytes_mut_from_slice(buf.as_slice())
    }

    /// Encodes the IPv6 pseudo-header used for the ICMPv6 checksum.
    pub fn pseudo_header(&self) -> (buf: BytesMut)
        ensures
            bytes_mut_octets(buf) == na_pseudo_header_octets(*self),
    {
        let mut buf: Vec<u8> = Vec::with_capacity(Self::PSEUDO_LENGTH);
        put_ipv6(&mut buf, &self.target_address);
        put_ipv6(&mut buf, &self.target_address);
        put_u32(&mut buf, Self::PAYLOAD_LENGTH);
        put_u32(&mut buf, ICMP_PROTO_NUMBER as u32);
        assert(buf@ =~= na_pseudo_header_octets(*self));
        bytes_mut_from_slice(buf.as_slice())
    }
}

} // verus!
