//! Where each field of a header lies in its encoding, and which octets each
//! decoded field comes from, stated octet by octet in network byte order.

use crate::checksum::{checksum_verifies, lemma_checksum_insert};
use crate::instance::Version;
use crate::ip::{ipv4_at, ipv6_at, AddressFamily};
use crate::laws::{all_of_family, lemma_ip_list_layout, lemma_ipv4_list_octets};
use crate::packet::{
    arp_octets, ethernet_octets, ip_list_octets, spec_arp_decode, spec_ethernet_decode,
    vrrp_fields_present, vrrp_raw_octets, ArpHdr, EthernetHdr,
    ipv4_fields_present, ipv4_octets, ipv4_raw_octets, spec_ipv4_decode, spec_vrrp_decode,
    na_octets, na_pseudo_header_octets, vrrp_octets, DecodeError, Ipv4Hdr, NeighborAdvertisement,
    VrrpHdrView,
};
use crate::wire::{be16, be32, read_be16, read_be32};
use vstd::prelude::*;

verus! {

/// The fixed part of an encoded VRRP header: version and type in the first
/// octet, then virtual router id, priority and address count. Version 2
/// follows with a zero authentication type and the interval's low octet,
/// version 3 with the interval's twelve bits in network byte order. Over
/// IPv6 the checksum field is written as given; over IPv4 it holds the
/// computed checksum.
pub proof fn law_vrrp_encode_fields(h: VrrpHdrView)
    ensures
        ({
            let d = vrrp_octets(h);
            &&& d.len() >= 8
            &&& h.hdr_type < 16 ==> d[0] as int == h.version.spec_version() as int * 16
                + h.hdr_type as int
            &&& d[1] == h.vrid
            &&& d[2] == h.priority
            &&& d[3] == h.count_ip
            &&& h.version == Version::V2 ==> d[4] == 0 && d[5] as int == h.adver_int as int
                % 256
            &&& h.version != Version::V2 ==> d[4] as int * 256 + d[5] as int == h.adver_int as int
                % 4096
            &&& h.version.spec_address_family() == AddressFamily::Ipv6 ==> d[6] as int * 256
                + d[7] as int == h.checksum as int
        }),
{
    let v = h.version.spec_version();
    let t = h.hdr_type;
    assert(v <= 3u8 && t < 16u8 ==> ((v << 4u8) | t) as int == v as int * 16 + t as int)
        by (bit_vector);
    let a = h.adver_int;
    assert((a & 0x0FFFu16) as int == a as int % 4096) by (bit_vector);
    assert((a as u8) as int == a as int % 256) by (bit_vector);
}

/// The fields of a decoded VRRP header come from the octets they occupy:
/// version and type from the two halves of the first octet, then virtual
/// router id, priority and address count; in version 2 the interval is the
/// single octet after the authentication type, in version 3 the low twelve
/// bits of the big-endian word at octet 4; the checksum is the big-endian
/// word at octet 6. Over IPv4 only packets passing the checksum check are
/// accepted.
pub proof fn law_vrrp_decode_fields(data: Seq<u8>, af: AddressFamily)
    requires
        vrrp_fields_present(data, af),
    ensures
        spec_vrrp_decode(data, af) matches Ok(h) ==> {
            &&& data.len() >= 8
            &&& h.version.spec_version() as int == data[0] as int / 16
            &&& h.version.spec_address_family() == af
            &&& h.hdr_type as int == data[0] as int % 16
            &&& h.vrid == data[1]
            &&& h.priority == data[2]
            &&& h.count_ip == data[3]
            &&& h.version == Version::V2 ==> h.adver_int as int == data[5] as int
            &&& h.version != Version::V2 ==> h.adver_int as int == (data[4] as int * 256
                + data[5] as int) % 4096
            &&& h.checksum as int == data[6] as int * 256 + data[7] as int
            &&& h.ip_addresses.len() == data[3] as int
            &&& forall|i: int|
                0 <= i < h.ip_addresses.len() ==> (#[trigger] h.ip_addresses[i]).family() == af
                    && h.ip_addresses[i].octets() == data.subrange(
                    8 + af.spec_addr_len() * i,
                    8 + af.spec_addr_len() * i + af.spec_addr_len(),
                )
            &&& af == AddressFamily::Ipv4 ==> checksum_verifies(data)
        },
{
    if spec_vrrp_decode(data, af) is Ok {
        let h = spec_vrrp_decode(data, af)->Ok_0;
        let k = af.spec_addr_len() as int;
        assert forall|i: int| 0 <= i < h.ip_addresses.len() implies (
        #[trigger] h.ip_addresses[i]).family() == af && h.ip_addresses[i].octets()
            == data.subrange(8 + k * i, 8 + k * i + k) by {
            if af == AddressFamily::Ipv4 {
                assert(ipv4_at(data, 8 + 4 * i).0@ =~= data.subrange(8 + 4 * i, 8 + 4 * i + 4));
            } else {
                assert(ipv6_at(data, 8 + 16 * i).0@ =~= data.subrange(
                    8 + 16 * i,
                    8 + 16 * i + 16,
                ));
            }
        }
    }
    if data.len() >= 8 {
        let b = data[0];
        assert((b >> 4u8) as int == b as int / 16 && (b & 0x0Fu8) as int == b as int % 16)
            by (bit_vector);
        let w = (data[4] as int * 256 + data[5] as int) as u16;
        assert((w & 0x0FFFu16) as int == w as int % 4096) by (bit_vector);
    }
}

/// An IPv4 header is accepted only with a time-to-live of 255; any other
/// time-to-live is rejected with that value, before anything else is
/// checked. With time-to-live 255, a header is accepted exactly when all of
/// `data` passes the checksum check, and otherwise is a checksum error.
pub proof fn law_ipv4_decode_ttl(data: Seq<u8>)
    requires
        data.len() >= 9,
    ensures
        spec_ipv4_decode(data) is Ok ==> data[8] == 255,
        data[8] != 255 ==> spec_ipv4_decode(data) == Err::<Ipv4Hdr, DecodeError>(
            DecodeError::IpTtlError { ttl: data[8] },
        ),
        data[8] == 255 ==> (spec_ipv4_decode(data) is Ok <==> checksum_verifies(data)),
        data[8] == 255 && !checksum_verifies(data) ==> spec_ipv4_decode(data) == Err::<
            Ipv4Hdr,
            DecodeError,
        >(DecodeError::ChecksumError),
{
}

/// The header as first laid out, before the checksum is filled in, octet by
/// octet.
proof fn lemma_ipv4_raw_fields(h: Ipv4Hdr)
    ensures
        ipv4_raw_octets(h).len() == if h.options is Some && h.padding is Some {
            24int
        } else {
            20int
        },
        ipv4_raw_octets(h)[0] == (h.version << 4u8) | h.ihl,
        ipv4_raw_octets(h)[1] == h.tos,
        ipv4_raw_octets(h).subrange(2, 4) == be16(h.total_length),
        ipv4_raw_octets(h).subrange(4, 6) == be16(h.identification),
        ipv4_raw_octets(h).subrange(6, 8) == be16(((h.flags as u16) << 12u16) | h.offset),
        ipv4_raw_octets(h)[8] == h.ttl,
        ipv4_raw_octets(h)[9] == h.protocol,
        ipv4_raw_octets(h).subrange(10, 12) == be16(h.checksum),
        ipv4_raw_octets(h).subrange(12, 16) == h.src_address.0@,
        ipv4_raw_octets(h).subrange(16, 20) == h.dst_address.0@,
        (h.options, h.padding) matches (Some(o), Some(p)) ==> ipv4_raw_octets(h).subrange(
            20,
            24,
        ) == be32((o << 8u32) | (p as u32)),
{
    let d = ipv4_raw_octets(h);
    let fixed = seq![(h.version << 4u8) | h.ihl, h.tos] + be16(h.total_length) + be16(
        h.identification,
    ) + be16(((h.flags as u16) << 12u16) | h.offset) + seq![h.ttl, h.protocol] + be16(h.checksum)
        + h.src_address.0@ + h.dst_address.0@;
    assert(fixed.len() == 20);
    match (h.options, h.padding) {
        (Some(o), Some(p)) => {
            assert(d == fixed + be32((o << 8u32) | (p as u32)));
            assert(d.subrange(20, 24) =~= be32((o << 8u32) | (p as u32)));
        },
        _ => {
            assert(d == fixed);
        },
    }
    assert(d.subrange(0, 20) =~= fixed);
    assert(d[0] == fixed[0] && d[1] == fixed[1] && d[8] == fixed[8] && d[9] == fixed[9]);
    assert(d.subrange(2, 4) =~= be16(h.total_length));
    assert(d.subrange(4, 6) =~= be16(h.identification));
    assert(d.subrange(6, 8) =~= be16(((h.flags as u16) << 12u16) | h.offset));
    assert(d.subrange(10, 12) =~= be16(h.checksum));
    assert(d.subrange(12, 16) =~= h.src_address.0@);
    assert(d.subrange(16, 20) =~= h.dst_address.0@);
    if h.options is Some && h.padding is Some {
        let o = h.options->Some_0;
        let p = h.padding->Some_0;
        assert(d.subrange(20, 24) =~= be32((o << 8u32) | (p as u32)));
    }
}

/// Where the fields of an encoded IPv4 header lie: version and header
/// length share the first octet, then type of service, the total length and
/// identification in network byte order, flags in the top four bits of the
/// fragment word, time-to-live, protocol, source and destination; then the
/// options word (24 bits of options, 8 of padding) when both are present.
/// With a zero checksum field to fill, the header passes the checksum check.
pub proof fn law_ipv4_encode_fields(h: Ipv4Hdr)
    ensures
        ({
            let d = ipv4_octets(h);
            &&& d.len() == if h.options is Some && h.padding is Some {
                24int
            } else {
                20int
            }
            &&& h.version < 16 && h.ihl < 16 ==> d[0] as int == h.version as int * 16
                + h.ihl as int
            &&& d[1] == h.tos
            &&& d[2] as int * 256 + d[3] as int == h.total_length as int
            &&& d[4] as int * 256 + d[5] as int == h.identification as int
            &&& h.flags < 16 && h.offset < 4096 ==> d[6] as int * 256 + d[7] as int
                == h.flags as int * 4096 + h.offset as int
            &&& d[8] == h.ttl
            &&& d[9] == h.protocol
            &&& d.subrange(12, 16) == h.src_address.0@
            &&& d.subrange(16, 20) == h.dst_address.0@
            &&& (h.options, h.padding) matches (Some(o), Some(p)) ==> d[20] as int
                * 0x1_0000 + d[21] as int * 256 + d[22] as int == o as int % 0x100_0000
                && d[23] == p
            &&& h.checksum == 0 ==> checksum_verifies(d)
        }),
{
    let raw = ipv4_raw_octets(h);
    let d = ipv4_octets(h);
    lemma_ipv4_raw_fields(h);
    assert(d.len() == raw.len());
    assert forall|i: int| 0 <= i < d.len() && i != 10 && i != 11 implies d[i] == raw[i] by {}
    assert(d.subrange(12, 16) =~= raw.subrange(12, 16));
    assert(d.subrange(16, 20) =~= raw.subrange(16, 20));
    if h.checksum == 0 {
        assert(raw[10] == raw.subrange(10, 12)[0] && raw[11] == raw.subrange(10, 12)[1]);
        lemma_checksum_insert(raw, 10);
    }
    assert(raw[2] == raw.subrange(2, 4)[0] && raw[3] == raw.subrange(2, 4)[1]);
    assert(raw[4] == raw.subrange(4, 6)[0] && raw[5] == raw.subrange(4, 6)[1]);
    assert(raw[6] == raw.subrange(6, 8)[0] && raw[7] == raw.subrange(6, 8)[1]);
    let v = h.version;
    let l = h.ihl;
    assert(v < 16u8 && l < 16u8 ==> ((v << 4u8) | l) as int == v as int * 16 + l as int)
        by (bit_vector);
    let f = h.flags as u16;
    let off = h.offset;
    assert(f < 16u16 && off < 4096u16 ==> ((f << 12u16) | off) as int == f as int * 4096
        + off as int) by (bit_vector);
    if h.options is Some && h.padding is Some {
        let o = h.options->Some_0;
        let p = h.padding->Some_0;
        assert(((o << 8u32) | (p as u32)) as int == (o as int % 0x100_0000) * 256 + p as int)
            by (bit_vector);
        assert(raw[20] == raw.subrange(20, 24)[0] && raw[21] == raw.subrange(20, 24)[1]
            && raw[22] == raw.subrange(20, 24)[2] && raw[23] == raw.subrange(20, 24)[3]);
    }
}

/// The fields of a decoded IPv4 header come from the octets they occupy,
/// in network byte order: version and header length from the two halves of
/// the first octet, flags from the top four bits and the fragment offset
/// from the low twelve bits of the word at octet 6. The options word is read
/// exactly when the header length exceeds five 32-bit words.
pub proof fn law_ipv4_decode_fields(data: Seq<u8>)
    requires
        ipv4_fields_present(data),
    ensures
        spec_ipv4_decode(data) matches Ok(h) ==> {
            &&& h.version as int == data[0] as int / 16
            &&& h.ihl as int == data[0] as int % 16
            &&& h.tos == data[1]
            &&& h.total_length as int == data[2] as int * 256 + data[3] as int
            &&& h.identification as int == data[4] as int * 256 + data[5] as int
            &&& h.flags as int == data[6] as int / 16
            &&& h.offset as int == (data[6] as int % 16) * 256 + data[7] as int
            &&& h.ttl == 255
            &&& h.protocol == data[9]
            &&& h.checksum as int == data[10] as int * 256 + data[11] as int
            &&& h.src_address.0@ == data.subrange(12, 16)
            &&& h.dst_address.0@ == data.subrange(16, 20)
            &&& if h.ihl > 5 {
                &&& h.options matches Some(o) && o as int == data[20] as int * 0x1_0000
                    + data[21] as int * 256 + data[22] as int
                &&& h.padding == Some(data[23])
            } else {
                h.options is None && h.padding is None
            }
            &&& checksum_verifies(data)
        },
{
    if spec_ipv4_decode(data) is Ok {
        let b = data[0];
        assert((b >> 4u8) as int == b as int / 16 && (b & 0x0Fu8) as int == b as int % 16)
            by (bit_vector);
        let w = read_be16(data, 6);
        assert(w as int == data[6] as int * 256 + data[7] as int);
        assert(((w >> 12u16) as u8) as int == w as int / 4096 && (w & 0xFFFu16) as int == w as int
            % 4096) by (bit_vector);
        let h = spec_ipv4_decode(data)->Ok_0;
        assert(h.src_address.0@ =~= data.subrange(12, 16));
        assert(h.dst_address.0@ =~= data.subrange(16, 20));
        if h.ihl > 5 {
            let x = read_be32(data, 20);
            assert(x as int == data[20] as int * 0x100_0000 + data[21] as int * 0x1_0000
                + data[22] as int * 256 + data[23] as int);
            assert((x >> 8u32) as int == x as int / 256) by (bit_vector);
        }
    }
}

/// The flags word of a Neighbor Advertisement, as a number: router flag in
/// bit 31, solicited in bit 30, override in bit 29, then the reserved field
/// shifted right by three.
proof fn lemma_rso_value(r: u8, s: u8, o: u8, reserved: u32)
    requires
        r <= 1,
        s <= 1,
        o <= 1,
    ensures
        (((r as u32) << 31u32) | ((s as u32) << 30u32) | ((o as u32) << 29u32) | (reserved
            >> 3u32)) as int == r as int * 0x8000_0000 + s as int * 0x4000_0000 + o as int
            * 0x2000_0000 + reserved as int / 8,
{
    assert(r <= 1u8 && s <= 1u8 && o <= 1u8 ==> (((r as u32) << 31u32) | ((s as u32) << 30u32)
        | ((o as u32) << 29u32) | (reserved >> 3u32)) == (r as u32) * 0x8000_0000u32 + (s as u32)
        * 0x4000_0000u32 + (o as u32) * 0x2000_0000u32 + reserved / 8u32) by (bit_vector);
}

/// Where the fields of an encoded Neighbor Advertisement lie: type, code,
/// the checksum in network byte order, the flags word (router, solicited
/// and override flags in bits 31, 30 and 29, then the reserved field
/// shifted right by three) and the target address.
pub proof fn law_na_encode_fields(na: NeighborAdvertisement)
    ensures
        ({
            let d = na_octets(na);
            &&& d.len() == 24
            &&& d[0] == na.icmp_type
            &&& d[1] == na.code
            &&& d[2] * 256int + d[3] == na.checksum
            &&& na.r <= 1 && na.s <= 1 && na.o <= 1 ==> d[4] * 0x100_0000int + d[5] * 0x1_0000int
                + d[6] * 256int + d[7] == na.r * 0x8000_0000int + na.s * 0x4000_0000int + na.o
                * 0x2000_0000int + na.reserved / 8u32
            &&& d.subrange(8, 24) == na.target_address.0@
        }),
{
    let d = na_octets(na);
    assert(d.subrange(8, 24) =~= na.target_address.0@);
    if na.r <= 1 && na.s <= 1 && na.o <= 1 {
        lemma_rso_value(na.r, na.s, na.o, na.reserved);
    }
}

/// The IPv6 pseudo-header of a Neighbor Advertisement: the target address
/// as source and as destination, the payload length 24 and the ICMPv6
/// protocol number 58, each as a big-endian 32-bit word.
pub proof fn law_na_pseudo_header_fields(na: NeighborAdvertisement)
    ensures
        ({
            let d = na_pseudo_header_octets(na);
            &&& d.len() == 40
            &&& d.subrange(0, 16) == na.target_address.0@
            &&& d.subrange(16, 32) == na.target_address.0@
            &&& d.subrange(32, 40) == seq![0u8, 0, 0, 24, 0, 0, 0, 58]
        }),
{
    let d = na_pseudo_header_octets(na);
    assert(d.subrange(0, 16) =~= na.target_address.0@);
    assert(d.subrange(16, 32) =~= na.target_address.0@);
    assert(d.subrange(32, 40) =~= seq![0u8, 0, 0, 24, 0, 0, 0, 58]);
}

/// The checks of VRRP decoding, in order: fewer than 8 octets is an
/// incomplete packet; a version other than 3, or 2 on IPv4, is a version
/// error; more than 20 addresses' worth (88 octets over IPv4, 328 over
/// IPv6) is a length error; over IPv4 a failed checksum is a checksum
/// error. Decoding succeeds exactly when every check passes.
pub proof fn law_vrrp_decode_checks(data: Seq<u8>, af: AddressFamily)
    ensures
        ({
            let complete = data.len() >= 8;
            let ver = if complete {
                data[0] as int / 16
            } else {
                0
            };
            let known = ver == 3 || (ver == 2 && af == AddressFamily::Ipv4);
            let max: int = if af == AddressFamily::Ipv4 {
                88
            } else {
                328
            };
            let fits = data.len() <= max;
            let summed = af == AddressFamily::Ipv6 || checksum_verifies(data);
            &&& !complete ==> spec_vrrp_decode(data, af) == Err::<VrrpHdrView, DecodeError>(
                DecodeError::IncompletePacket,
            )
            &&& complete && !known ==> spec_vrrp_decode(data, af) == Err::<
                VrrpHdrView,
                DecodeError,
            >(DecodeError::VersionError { vrid: data[1] })
            &&& complete && known && !fits ==> (spec_vrrp_decode(data, af) matches Err(
                DecodeError::PacketLengthError { vrid, version },
            ) && vrid == data[1] && version.spec_version() as int == ver
                && version.spec_address_family() == af)
            &&& complete && known && fits && !summed ==> spec_vrrp_decode(data, af) == Err::<
                VrrpHdrView,
                DecodeError,
            >(DecodeError::ChecksumError)
            &&& spec_vrrp_decode(data, af) is Ok <==> complete && known && fits && summed
        }),
{
    if data.len() >= 8 {
        let b = data[0];
        assert((b >> 4u8) as int == b as int / 16) by (bit_vector);
    }
}

/// The address part of an encoded VRRP header: with every address of the
/// version's family, address `i` occupies the octets from `8 + len * i`,
/// in list order; version 2 ends with eight zero octets of authentication
/// data.
pub proof fn law_vrrp_encode_addresses(h: VrrpHdrView)
    requires
        all_of_family(h.ip_addresses, h.version.spec_address_family()),
    ensures
        ({
            let d = vrrp_octets(h);
            let k = h.version.spec_address_family().spec_addr_len() as int;
            let n = h.ip_addresses.len() as int;
            &&& d.len() == if h.version == Version::V2 {
                16 + 4 * n
            } else {
                8 + k * n
            }
            &&& forall|i: int|
                0 <= i < n ==> d.subrange(8 + k * i, 8 + k * i + k)
                    == (#[trigger] h.ip_addresses[i]).octets()
            &&& h.version == Version::V2 ==> d.subrange(8 + 4 * n, 16 + 4 * n) == seq![
                0u8,
                0,
                0,
                0,
                0,
                0,
                0,
                0,
            ]
        }),
{
    let af = h.version.spec_address_family();
    let k = af.spec_addr_len() as int;
    let n = h.ip_addresses.len() as int;
    let raw = vrrp_raw_octets(h);
    let d = vrrp_octets(h);
    let list = ip_list_octets(h.ip_addresses);
    lemma_ip_list_layout(h.ip_addresses, af);
    if h.version == Version::V2 {
        lemma_ipv4_list_octets(h.ip_addresses);
        assert(raw.subrange(8 + 4 * n, 16 + 4 * n) =~= seq![0u8, 0, 0, 0, 0, 0, 0, 0]);
    }
    assert(raw.subrange(8, 8 + k * n) =~= list);
    assert(d.len() == raw.len());
    assert forall|i: int| 0 <= i < d.len() && i != 6 && i != 7 implies d[i] == raw[i] by {}
    assert forall|i: int| 0 <= i < n implies d.subrange(8 + k * i, 8 + k * i + k)
        == (#[trigger] h.ip_addresses[i]).octets() by {
        assert(k * i + k <= k * n) by (nonlinear_arith)
            requires
                i < n,
                k >= 0,
        ;
        assert(0 <= k * i) by (nonlinear_arith)
            requires
                i >= 0,
                k >= 0,
        ;
        assert(d.subrange(8 + k * i, 8 + k * i + k) =~= list.subrange(k * i, k * i + k));
    }
    if h.version == Version::V2 {
        assert(d.subrange(8 + 4 * n, 16 + 4 * n) =~= raw.subrange(8 + 4 * n, 16 + 4 * n));
    }
}

/// Where the fields of an encoded Ethernet header lie: destination in
/// octets 0..6, source in 6..12, EtherType in network byte order.
pub proof fn law_ethernet_encode_fields(h: EthernetHdr)
    ensures
        ({
            let d = ethernet_octets(h);
            &&& d.len() == 14
            &&& d.subrange(0, 6) == h.dst_mac@
            &&& d.subrange(6, 12) == h.src_mac@
            &&& d[12] as int * 256 + d[13] as int == h.ethertype as int
        }),
{
    let d = ethernet_octets(h);
    assert(d.subrange(0, 6) =~= h.dst_mac@);
    assert(d.subrange(6, 12) =~= h.src_mac@);
}

/// A decoded Ethernet header takes its destination from octets 0..6, its
/// source from 6..12, and always has the EtherType of IPv4 (0x0800).
pub proof fn law_ethernet_decode_fields(data: Seq<u8>)
    requires
        data.len() >= 12,
    ensures
        spec_ethernet_decode(data) matches Ok(h) && h.dst_mac@ == data.subrange(0, 6)
            && h.src_mac@ == data.subrange(6, 12) && h.ethertype == 0x0800,
{
    let h = spec_ethernet_decode(data)->Ok_0;
    assert(h.dst_mac@ =~= data.subrange(0, 6));
    assert(h.src_mac@ =~= data.subrange(6, 12));
}

/// Where the fields of an encoded ARP header lie, in network byte order:
/// hardware type, protocol type, the two lengths, operation, then sender
/// hardware and protocol addresses and target hardware and protocol
/// addresses.
pub proof fn law_arp_encode_fields(h: ArpHdr)
    ensures
        ({
            let d = arp_octets(h);
            &&& d.len() == 28
            &&& d[0] as int * 256 + d[1] as int == h.hw_type as int
            &&& d[2] as int * 256 + d[3] as int == h.proto_type as int
            &&& d[4] == h.hw_length
            &&& d[5] == h.proto_length
            &&& d[6] as int * 256 + d[7] as int == h.operation as int
            &&& d.subrange(8, 14) == h.sender_hw_address@
            &&& d.subrange(14, 18) == h.sender_proto_address.0@
            &&& d.subrange(18, 24) == h.target_hw_address@
            &&& d.subrange(24, 28) == h.target_proto_address.0@
        }),
{
    let d = arp_octets(h);
    assert(d.subrange(8, 14) =~= h.sender_hw_address@);
    assert(d.subrange(14, 18) =~= h.sender_proto_address.0@);
    assert(d.subrange(18, 24) =~= h.target_hw_address@);
    assert(d.subrange(24, 28) =~= h.target_proto_address.0@);
}

/// A decoded ARP header takes each field from the octets it occupies, in
/// network byte order.
pub proof fn law_arp_decode_fields(data: Seq<u8>)
    requires
        data.len() >= 28,
    ensures
        spec_arp_decode(data) matches Ok(h) && {
            &&& h.hw_type as int == data[0] as int * 256 + data[1] as int
            &&& h.proto_type as int == data[2] as int * 256 + data[3] as int
            &&& h.hw_length == data[4]
            &&& h.proto_length == data[5]
            &&& h.operation as int == data[6] as int * 256 + data[7] as int
            &&& h.sender_hw_address@ == data.subrange(8, 14)
            &&& h.sender_proto_address.0@ == data.subrange(14, 18)
            &&& h.target_hw_address@ == data.subrange(18, 24)
            &&& h.target_proto_address.0@ == data.subrange(24, 28)
        },
{
    let h = spec_arp_decode(data)->Ok_0;
    assert(h.sender_hw_address@ =~= data.subrange(8, 14));
    assert(h.sender_proto_address.0@ =~= data.subrange(14, 18));
    assert(h.target_hw_address@ =~= data.subrange(18, 24));
    assert(h.target_proto_address.0@ =~= data.subrange(24, 28));
}

} // verus!
