//! What decoding gives back of what encoding wrote, and that encoded
//! packets pass the checksum check.

use crate::checksum::{checksum_verifies, lemma_checksum_insert};
use crate::instance::Version;
use crate::ip::{ipv4_at, lemma_ip_octets_roundtrip, AddressFamily, IpAddr, TTL_MAX};
use crate::packet::{
    arp_octets, ethernet_octets, ipv4_fields_present, ipv4_octets, ipv4_raw_octets, mac_at,
    spec_arp_decode, spec_ethernet_decode, spec_ipv4_decode, ArpHdr, DecodeError, EthernetHdr,
    Ipv4Hdr, Vrrp4Packet, ip_list_octets, vrrp4_octets, ipv4_list_octets, spec_vrrp_decode, vrrp_address_at, vrrp_fields_length,
    vrrp_fields_present, vrrp_max_length, vrrp_octets, vrrp_raw_octets, VrrpHdrView,
};
use crate::wire::{read_be16, read_be32};
use vstd::prelude::*;

verus! {

/// All the addresses of `addrs` are of family `af`.
pub open spec fn all_of_family(addrs: Seq<IpAddr>, af: AddressFamily) -> bool {
    forall|i: int| 0 <= i < addrs.len() ==> #[trigger] addrs[i].family() == af
}

/// The octets of a list of addresses of one family lie end to end, each
/// address taking the length of its family.
pub proof fn lemma_ip_list_layout(addrs: Seq<IpAddr>, af: AddressFamily)
    requires
        all_of_family(addrs, af),
    ensures
        ip_list_octets(addrs).len() == af.spec_addr_len() * addrs.len(),
        forall|i: int|
            0 <= i < addrs.len() ==> ip_list_octets(addrs).subrange(
                af.spec_addr_len() * i,
                af.spec_addr_len() * i + af.spec_addr_len(),
            ) == #[trigger] addrs[i].octets(),
    decreases addrs.len(),
{
    let k = af.spec_addr_len();
    if addrs.len() > 0 {
        let p = addrs.drop_last();
        let n = addrs.len() - 1;
        assert(all_of_family(p, af)) by {
            assert forall|i: int| 0 <= i < p.len() implies #[trigger] p[i].family() == af by {
                assert(p[i] == addrs[i]);
            }
        }
        lemma_ip_list_layout(p, af);
        let l = ip_list_octets(p);
        let last = addrs.last();
        assert(last.family() == af);
        assert(last.octets().len() == k);
        assert(k * n + k == k * addrs.len()) by (nonlinear_arith)
            requires
                n == addrs.len() - 1,
        ;
        assert forall|i: int| 0 <= i < addrs.len() implies ip_list_octets(addrs).subrange(
            k * i,
            k * i + k,
        ) == #[trigger] addrs[i].octets() by {
            if i < n {
                assert(k * i + k <= k * n) by (nonlinear_arith)
                    requires
                        i < n,
                        k >= 0,
                ;
                assert(0 <= k * i) by (nonlinear_arith)
                    requires
                        i >= 0,
                        k >= 0,
                ;
                assert(ip_list_octets(addrs).subrange(k * i, k * i + k) =~= l.subrange(
                    k * i,
                    k * i + k,
                ));
                assert(p[i] == addrs[i]);
            } else {
                assert(ip_list_octets(addrs).subrange(k * i, k * i + k) =~= last.octets());
            }
        }
    }
}

/// A list of IPv4 addresses is written the same whether IPv6 addresses are
/// being left out or not.
pub proof fn lemma_ipv4_list_octets(addrs: Seq<IpAddr>)
    requires
        all_of_family(addrs, AddressFamily::Ipv4),
    ensures
        ipv4_list_octets(addrs) == ip_list_octets(addrs),
    decreases addrs.len(),
{
    if addrs.len() > 0 {
        let p = addrs.drop_last();
        assert(all_of_family(p, AddressFamily::Ipv4)) by {
            assert forall|i: int| 0 <= i < p.len() implies #[trigger] p[i].family()
                == AddressFamily::Ipv4 by {
                assert(p[i] == addrs[i]);
            }
        }
        lemma_ipv4_list_octets(p);
        assert(addrs.last().family() == AddressFamily::Ipv4);
    }
}

/// The addresses a VRRP header of version `v` holds from octet 8 on are
/// read back as the list they were written from.
proof fn lemma_vrrp_addresses_read_back(data: Seq<u8>, v: Version, addrs: Seq<IpAddr>)
    requires
        all_of_family(addrs, v.spec_address_family()),
        ({
            let k = v.spec_address_family().spec_addr_len();
            &&& 8 + k * addrs.len() <= data.len()
            &&& forall|i: int|
                0 <= i < addrs.len() ==> data.subrange(8 + k * i, 8 + k * i + k)
                    == #[trigger] addrs[i].octets()
        }),
    ensures
        Seq::new(addrs.len(), |i: int| vrrp_address_at(data, v, i)) == addrs,
{
    let k = v.spec_address_family().spec_addr_len();
    let got = Seq::new(addrs.len(), |i: int| vrrp_address_at(data, v, i));
    assert forall|i: int| 0 <= i < addrs.len() implies got[i] == addrs[i] by {
        let a = addrs[i];
        assert(a.family() == v.spec_address_family());
        assert(k * i + k <= k * addrs.len()) by (nonlinear_arith)
            requires
                i < addrs.len(),
                k >= 0,
        ;
        assert(0 <= k * i) by (nonlinear_arith)
            requires
                i >= 0,
                k >= 0,
        ;
        assert(data.subrange(8 + k * i, 8 + k * i + k) == a.octets());
        lemma_ip_octets_roundtrip(a, data, 8 + k * i);
    }
    assert(got =~= addrs);
}

/// A VRRP header that encoding then decoding gives back: a four-bit type, an
/// address count that matches the list, addresses of the family of the
/// version and no more than fit in a packet, an advertisement interval that
/// fits its field (eight bits in version 2, twelve in version 3), and, over
/// IPv4, a zero checksum field for the computed checksum to fill.
pub open spec fn vrrp_roundtrips(h: VrrpHdrView) -> bool {
    &&& h.hdr_type < 16
    &&& h.count_ip as nat == h.ip_addresses.len()
    &&& all_of_family(h.ip_addresses, h.version.spec_address_family())
    &&& vrrp_fields_length(h.version, h.count_ip) <= vrrp_max_length(h.version)
    &&& match h.version {
        Version::V2 => h.adver_int < 256,
        Version::V3(_) => h.adver_int < 4096,
    }
    &&& h.version.spec_address_family() == AddressFamily::Ipv4 ==> h.checksum == 0
}

/// Decoding an encoded VRRP header, on an interface of the family of its
/// version, gives the header back, its checksum field now holding what was
/// written there; over IPv4 the encoded header passes the checksum check.
pub proof fn law_vrrp_decode_encode(h: VrrpHdrView)
    requires
        vrrp_roundtrips(h),
    ensures
        vrrp_fields_present(vrrp_octets(h), h.version.spec_address_family()),
        h.version.spec_address_family() == AddressFamily::Ipv4 ==> checksum_verifies(
            vrrp_octets(h),
        ),
        spec_vrrp_decode(vrrp_octets(h), h.version.spec_address_family()) == Ok::<
            VrrpHdrView,
            DecodeError,
        >(
            VrrpHdrView {
                version: h.version,
                hdr_type: h.hdr_type,
                vrid: h.vrid,
                priority: h.priority,
                count_ip: h.count_ip,
                adver_int: h.adver_int,
                checksum: read_be16(vrrp_octets(h), 6),
                ip_addresses: h.ip_addresses,
            },
        ),
{
    let af = h.version.spec_address_family();
    let k: int = af.spec_addr_len() as int;
    let n: int = h.ip_addresses.len() as int;
    let raw = vrrp_raw_octets(h);
    let data = vrrp_octets(h);
    let list = ip_list_octets(h.ip_addresses);
    lemma_ip_list_layout(h.ip_addresses, af);
    if h.version == Version::V2 {
        lemma_ipv4_list_octets(h.ip_addresses);
    }
    assert(list.len() == k * n);
    // Where the fields of the raw header lie.
    assert(raw.subrange(8, 8 + k * n) =~= list);
    assert(raw.len() == vrrp_fields_length(h.version, h.count_ip));
    if af == AddressFamily::Ipv4 {
        assert(raw[6] == 0 && raw[7] == 0);
        lemma_checksum_insert(raw, 6);
    }
    assert(data.len() == raw.len());
    assert forall|i: int| 0 <= i < data.len() && i != 6 && i != 7 implies data[i] == raw[i] by {}
    assert(data.subrange(8, 8 + k * n) =~= raw.subrange(8, 8 + k * n));
    // The first octet.
    let ver = h.version.spec_version();
    let t = h.hdr_type;
    assert(data[0] == (ver << 4u8) | t);
    assert(ver < 16u8 && t < 16u8 ==> ((ver << 4u8) | t) >> 4u8 == ver && ((ver << 4u8) | t)
        & 0x0Fu8 == t) by (bit_vector);
    // The advertisement interval.
    let adv = h.adver_int;
    assert(adv < 4096u16 ==> adv & 0x0FFFu16 == adv) by (bit_vector);
    // The addresses.
    assert forall|i: int| 0 <= i < n implies data.subrange(8 + k * i, 8 + k * i + k)
        == #[trigger] h.ip_addresses[i].octets() by {
        assert(k * i + k <= k * n) by (nonlinear_arith)
            requires
                i < n,
                k >= 0,
        ;
        assert(0 <= k * i) by (nonlinear_arith)
            requires
                i >= 0,
                k >= 0,
        ;
        assert(data.subrange(8 + k * i, 8 + k * i + k) =~= list.subrange(k * i, k * i + k));
    }
    lemma_vrrp_addresses_read_back(data, h.version, h.ip_addresses);
}

/// An IPv4 header that encoding then decoding gives back: version, header
/// length and flags of four bits, a twelve-bit fragment offset, the maximum
/// time-to-live, a zero checksum field for the computed checksum to fill,
/// and options and padding present (options of 24 bits) exactly when the
/// header length exceeds five words.
pub open spec fn ipv4_roundtrips(h: Ipv4Hdr) -> bool {
    &&& h.version < 16
    &&& h.ihl < 16
    &&& if h.ihl > 5 {
        h.options matches Some(o) && o < 0x100_0000 && h.padding is Some
    } else {
        h.options is None && h.padding is None
    }
    &&& h.flags < 16
    &&& h.offset < 4096
    &&& h.ttl == TTL_MAX
    &&& h.checksum == 0
}

/// Decoding an encoded IPv4 header gives the header back, its checksum
/// field now holding what was written there; the encoded header passes the
/// checksum check.
pub proof fn law_ipv4_decode_encode(h: Ipv4Hdr)
    requires
        ipv4_roundtrips(h),
    ensures
        ipv4_fields_present(ipv4_octets(h)),
        checksum_verifies(ipv4_octets(h)),
        spec_ipv4_decode(ipv4_octets(h)) == Ok::<Ipv4Hdr, DecodeError>(
            Ipv4Hdr {
                version: h.version,
                ihl: h.ihl,
                tos: h.tos,
                total_length: h.total_length,
                identification: h.identification,
                flags: h.flags,
                offset: h.offset,
                ttl: h.ttl,
                protocol: h.protocol,
                checksum: read_be16(ipv4_octets(h), 10),
                src_address: h.src_address,
                dst_address: h.dst_address,
                options: h.options,
                padding: h.padding,
            },
        ),
{
    let raw = ipv4_raw_octets(h);
    let data = ipv4_octets(h);
    assert(raw[10] == 0 && raw[11] == 0);
    lemma_checksum_insert(raw, 10);
    assert forall|i: int| 0 <= i < data.len() && i != 10 && i != 11 implies data[i] == raw[i] by {}
    let v = h.version;
    let l = h.ihl;
    assert(v < 16u8 && l < 16u8 ==> ((v << 4u8) | l) >> 4u8 == v && ((v << 4u8) | l) & 0x0Fu8
        == l) by (bit_vector);
    let f = h.flags as u16;
    let o = h.offset;
    assert(f < 16u16 && o < 4096u16 ==> ((f << 12u16) | o) >> 12u16 == f && ((f << 12u16) | o)
        & 0xFFFu16 == o) by (bit_vector);
    assert(ipv4_at(data, 12).0 =~= h.src_address.0);
    assert(ipv4_at(data, 16).0 =~= h.dst_address.0);
    if h.ihl > 5 {
        let o = h.options->Some_0;
        let p = h.padding->Some_0;
        let w = (o << 8u32) | (p as u32);
        assert(o < 0x100_0000u32 ==> ((o << 8u32) | (p as u32)) >> 8u32 == o && (((o << 8u32)
            | (p as u32)) & 0xFFu32) as u8 == p) by (bit_vector);
        assert(read_be32(data, 20) == w);
        assert(data[23] == (w % 256) as u8);
        assert((w & 0xFFu32) == w % 256) by (bit_vector);
    }
}

/// Decoding an encoded Ethernet header gives its two addresses back, with
/// the EtherType of IPv4.
pub proof fn law_ethernet_decode_encode(h: EthernetHdr)
    ensures
        ethernet_octets(h).len() == 14,
        spec_ethernet_decode(ethernet_octets(h)) == Ok::<EthernetHdr, DecodeError>(
            EthernetHdr { dst_mac: h.dst_mac, src_mac: h.src_mac, ethertype: 0x0800 },
        ),
{
    let data = ethernet_octets(h);
    assert(mac_at(data, 0) =~= h.dst_mac);
    assert(mac_at(data, 6) =~= h.src_mac);
}

/// Decoding an encoded ARP header gives the header back.
pub proof fn law_arp_decode_encode(h: ArpHdr)
    ensures
        arp_octets(h).len() == 28,
        spec_arp_decode(arp_octets(h)) == Ok::<ArpHdr, DecodeError>(h),
{
    let data = arp_octets(h);
    assert(mac_at(data, 8) =~= h.sender_hw_address);
    assert(ipv4_at(data, 14).0 =~= h.sender_proto_address.0);
    assert(mac_at(data, 18) =~= h.target_hw_address);
    assert(ipv4_at(data, 24).0 =~= h.target_proto_address.0);
}

/// The headers of a VRRP advertisement over IPv4 are each read back from
/// their part of the encoded packet: the IPv4 header from its octets, the
/// VRRP header from the octets after it.
pub proof fn law_vrrp4_packet_decode_encode(p: Vrrp4Packet)
    requires
        ipv4_roundtrips(p.ip),
        vrrp_roundtrips(p.vrrp@),
        p.vrrp.version.spec_address_family() == AddressFamily::Ipv4,
    ensures
        ({
            let data = vrrp4_octets(p);
            let n = ipv4_octets(p.ip).len() as int;
            &&& data.subrange(0, n) == ipv4_octets(p.ip)
            &&& data.subrange(n, data.len() as int) == vrrp_octets(p.vrrp@)
            &&& spec_ipv4_decode(data.subrange(0, n)) is Ok
            &&& spec_vrrp_decode(data.subrange(n, data.len() as int), AddressFamily::Ipv4) is Ok
        }),
{
    let data = vrrp4_octets(p);
    let n = ipv4_octets(p.ip).len() as int;
    assert(data.subrange(0, n) =~= ipv4_octets(p.ip));
    assert(data.subrange(n, data.len() as int) =~= vrrp_octets(p.vrrp@));
    law_ipv4_decode_encode(p.ip);
    law_vrrp_decode_encode(p.vrrp@);
}

/// Encoding a decoded ARP header gives back the 28 octets it was read from.
pub proof fn law_arp_encode_decode(data: Seq<u8>)
    requires
        data.len() >= 28,
    ensures
        spec_arp_decode(data) matches Ok(h) && arp_octets(h) == data.take(28),
{
    let h = spec_arp_decode(data)->Ok_0;
    assert(arp_octets(h) =~= data.take(28));
}

/// Encoding a decoded Ethernet header gives back the two addresses it was
/// read from, followed by the EtherType of IPv4.
pub proof fn law_ethernet_encode_decode(data: Seq<u8>)
    requires
        data.len() >= 12,
    ensures
        spec_ethernet_decode(data) matches Ok(h) && ethernet_octets(h) == data.take(12) + seq![
            0x08u8,
            0x00u8,
        ],
{
    let h = spec_ethernet_decode(data)->Ok_0;
    assert(ethernet_octets(h) =~= data.take(12) + seq![0x08u8, 0x00u8]);
}

/// A VRRP advertisement over IPv4 is encoded as its IPv4 header followed by
/// its VRRP header, each as its own encoder writes it, and nothing else.
pub proof fn law_vrrp4_packet_octets(p: Vrrp4Packet)
    ensures
        vrrp4_octets(p) == ipv4_octets(p.ip) + vrrp_octets(p.vrrp@),
        vrrp4_octets(p).len() == ipv4_octets(p.ip).len() + vrrp_octets(p.vrrp@).len(),
{
}

} // verus!
