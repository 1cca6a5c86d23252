use holo_vrrp::instance::Version;
use holo_vrrp::ip::{AddressFamily, IpAddr, Ipv4Addr, Ipv6Addr};
use holo_vrrp::packet::{
    ArpHdr, DecodeError, EthernetHdr, Ipv4Hdr, NeighborAdvertisement, Vrrp4Packet, VrrpHdr,
};

fn v4(a: u8, b: u8, c: u8, d: u8) -> IpAddr {
    IpAddr::V4(Ipv4Addr([a, b, c, d]))
}

fn v6(last: u8) -> Ipv6Addr {
    Ipv6Addr([0xfe, 0x80, 0, 0, 0, 0, 0, 0, 0, 0, 0, 0, 0, 0, 0, last])
}

fn vrrp_v2() -> VrrpHdr {
    VrrpHdr {
        version: Version::V2,
        hdr_type: 1,
        vrid: 1,
        priority: 100,
        count_ip: 1,
        adver_int: 1,
        checksum: 0,
        ip_addresses: vec![v4(10, 0, 0, 1)],
    }
}

fn vrrp_v3_ipv4() -> VrrpHdr {
    VrrpHdr {
        version: Version::V3(AddressFamily::Ipv4),
        hdr_type: 1,
        vrid: 5,
        priority: 200,
        count_ip: 2,
        adver_int: 100,
        checksum: 0,
        ip_addresses: vec![v4(192, 168, 1, 1), v4(192, 168, 1, 2)],
    }
}

fn vrrp_v3_ipv6() -> VrrpHdr {
    VrrpHdr {
        version: Version::V3(AddressFamily::Ipv6),
        hdr_type: 1,
        vrid: 7,
        priority: 255,
        count_ip: 1,
        adver_int: 0x123,
        checksum: 0xbeef,
        ip_addresses: vec![IpAddr::V6(v6(1))],
    }
}

const V2_BYTES: [u8; 20] = [
    0x21, 0x01, 0x64, 0x01, 0x00, 0x01, 0x70, 0xfb, 10, 0, 0, 1, 0, 0, 0, 0, 0, 0, 0, 0,
];

#[test]
fn vrrp_v2_encode_layout_and_checksum() {
    let buf = vrrp_v2().encode();
    assert_eq!(&buf[..], &V2_BYTES[..]);
}

#[test]
fn vrrp_v2_decode_encode_roundtrip() {
    let h = vrrp_v2();
    let buf = h.encode();
    let d = VrrpHdr::decode(&buf, AddressFamily::Ipv4).unwrap();
    let mut expected = h.clone();
    expected.checksum = 0x70fb;
    assert_eq!(d, expected);
}

#[test]
fn vrrp_v3_ipv4_encode_and_roundtrip() {
    let h = vrrp_v3_ipv4();
    let buf = h.encode();
    assert_eq!(
        &buf[..],
        &[0x31, 5, 200, 2, 0x00, 0x64, 0x83, 0x3f, 192, 168, 1, 1, 192, 168, 1, 2][..]
    );
    let d = VrrpHdr::decode(&buf, AddressFamily::Ipv4).unwrap();
    let mut expected = h.clone();
    expected.checksum = 0x833f;
    assert_eq!(d, expected);
}

#[test]
fn vrrp_v3_ipv6_no_checksum_roundtrip() {
    let h = vrrp_v3_ipv6();
    let buf = h.encode();
    let mut expected_bytes = vec![0x31, 7, 255, 1, 0x01, 0x23, 0xbe, 0xef];
    expected_bytes.extend_from_slice(&v6(1).0);
    assert_eq!(&buf[..], &expected_bytes[..]);
    let d = VrrpHdr::decode(&buf, AddressFamily::Ipv6).unwrap();
    assert_eq!(d, h);
}

#[test]
fn vrrp_v2_leaves_out_ipv6_addresses() {
    let mut h = vrrp_v2();
    h.ip_addresses = vec![IpAddr::V6(v6(9)), v4(10, 0, 0, 1)];
    let buf = h.encode();
    assert_eq!(&buf[..], &V2_BYTES[..]);
}

#[test]
fn vrrp_adver_int_fields() {
    let mut h = vrrp_v2();
    h.adver_int = 0x1ff;
    let buf = h.encode();
    assert_eq!(buf[5], 0xff);
    let mut h3 = vrrp_v3_ipv6();
    h3.adver_int = 0xf123;
    let buf3 = h3.encode();
    assert_eq!(&buf3[4..6], &[0x01, 0x23][..]);
}

#[test]
fn vrrp_decode_incomplete_packet() {
    assert_eq!(
        VrrpHdr::decode(&V2_BYTES[..7], AddressFamily::Ipv4),
        Err(DecodeError::IncompletePacket)
    );
}

#[test]
fn vrrp_decode_version_error() {
    let mut data = V2_BYTES;
    data[0] = 0x41;
    assert_eq!(
        VrrpHdr::decode(&data, AddressFamily::Ipv4),
        Err(DecodeError::VersionError { vrid: 1 })
    );
    // Version 2 is IPv4 only.
    assert_eq!(
        VrrpHdr::decode(&V2_BYTES, AddressFamily::Ipv6),
        Err(DecodeError::VersionError { vrid: 1 })
    );
}

#[test]
fn vrrp_decode_packet_length_error() {
    let mut data = V2_BYTES.to_vec();
    data.resize(89, 0);
    assert_eq!(
        VrrpHdr::decode(&data, AddressFamily::Ipv4),
        Err(DecodeError::PacketLengthError { vrid: 1, version: Version::V2 })
    );
}

#[test]
fn vrrp_decode_checksum_error() {
    let mut data = V2_BYTES;
    data[2] = 99;
    assert_eq!(
        VrrpHdr::decode(&data, AddressFamily::Ipv4),
        Err(DecodeError::ChecksumError)
    );
}

#[test]
fn vrrp_max_length_values() {
    assert_eq!(VrrpHdr::max_length(Version::V2), 88);
    assert_eq!(VrrpHdr::max_length(Version::V3(AddressFamily::Ipv4)), 88);
    assert_eq!(VrrpHdr::max_length(Version::V3(AddressFamily::Ipv6)), 328);
    assert_eq!(VrrpHdr::VALID_VERSIONS, [2, 3]);
    assert_eq!(VrrpHdr::CHECKSUM_OFFSET, 6);
}

fn ipv4_hdr() -> Ipv4Hdr {
    Ipv4Hdr {
        version: 4,
        ihl: 5,
        tos: 0xc0,
        total_length: 40,
        identification: 0,
        flags: 0,
        offset: 0,
        ttl: 255,
        protocol: 112,
        checksum: 0,
        src_address: Ipv4Addr([192, 168, 1, 1]),
        dst_address: Ipv4Addr([224, 0, 0, 18]),
        options: None,
        padding: None,
    }
}

const IPV4_BYTES: [u8; 20] = [
    0x45, 0xc0, 0x00, 0x28, 0x00, 0x00, 0x00, 0x00, 0xff, 112, 0x18, 0xea, 192, 168, 1, 1, 224, 0,
    0, 18,
];

#[test]
fn ipv4_encode_layout_and_checksum() {
    let buf = ipv4_hdr().encode();
    assert_eq!(&buf[..], &IPV4_BYTES[..]);
}

#[test]
fn ipv4_encode_known_header() {
    // A header captured from live traffic, its checksum field zeroed.
    let h = Ipv4Hdr {
        version: 4,
        ihl: 5,
        tos: 0,
        total_length: 0x34,
        identification: 0,
        flags: 4,
        offset: 0,
        ttl: 0x40,
        protocol: 6,
        checksum: 0,
        src_address: Ipv4Addr([0xc0, 0xa8, 0x01, 0x0f]),
        dst_address: Ipv4Addr([0xc0, 0xb8, 0x09, 0x6a]),
        options: None,
        padding: None,
    };
    let buf = h.encode();
    assert_eq!(
        &buf[..],
        &[
            0x45, 0x00, 0x00, 0x34, 0x00, 0x00, 0x40, 0x00, 0x40, 0x06, 0xae, 0xea, 0xc0, 0xa8,
            0x01, 0x0f, 0xc0, 0xb8, 0x09, 0x6a
        ][..]
    );
    assert_eq!(Ipv4Hdr::decode(&buf), Err(DecodeError::IpTtlError { ttl: 0x40 }));
}

#[test]
fn ipv4_decode_encode_roundtrip() {
    let h = ipv4_hdr();
    let d = Ipv4Hdr::decode(&h.encode()).unwrap();
    let mut expected = h.clone();
    expected.checksum = 0x18ea;
    assert_eq!(d, expected);
}

#[test]
fn ipv4_options_roundtrip() {
    // Six 32-bit words: the header carries the options word.
    let mut h = ipv4_hdr();
    h.ihl = 6;
    h.options = Some(0xabcdef);
    h.padding = Some(4);
    let buf = h.encode();
    assert_eq!(buf.len(), 24);
    assert_eq!(&buf[20..], &[0xab, 0xcd, 0xef, 4][..]);
    assert_eq!(&buf[10..12], &[0x7d, 0x17][..]);
    let d = Ipv4Hdr::decode(&buf).unwrap();
    let mut expected = h.clone();
    expected.checksum = 0x7d17;
    assert_eq!(d, expected);
}

#[test]
fn ipv4_options_need_both_fields_and_length() {
    let mut h = ipv4_hdr();
    h.options = Some(1);
    h.padding = Some(4);
    // Written whenever both are present...
    let buf = h.encode();
    assert_eq!(buf.len(), 24);
    // ...but read only when the header length says so.
    let d = Ipv4Hdr::decode(&buf).unwrap();
    assert_eq!(d.options, None);
    assert_eq!(d.padding, None);
    // Only one of the two present: no options word.
    h.padding = None;
    assert_eq!(h.encode().len(), 20);
}

#[test]
fn ipv4_decode_checksum_error() {
    let mut data = IPV4_BYTES;
    data[1] = 0;
    assert_eq!(Ipv4Hdr::decode(&data), Err(DecodeError::ChecksumError));
}

#[test]
fn ipv4_decode_ttl_error_short_packet() {
    let data = [0x45, 0, 0, 20, 0, 0, 0, 0, 1];
    assert_eq!(Ipv4Hdr::decode(&data), Err(DecodeError::IpTtlError { ttl: 1 }));
}

#[test]
fn ethernet_encode_decode() {
    let h = EthernetHdr {
        dst_mac: [0x00, 0x00, 0x5e, 0x00, 0x01, 0x01],
        src_mac: [0x02, 0x11, 0x22, 0x33, 0x44, 0x55],
        ethertype: 0x0806,
    };
    let buf = h.encode();
    assert_eq!(
        &buf[..],
        &[0x00, 0x00, 0x5e, 0x00, 0x01, 0x01, 0x02, 0x11, 0x22, 0x33, 0x44, 0x55, 0x08, 0x06][..]
    );
    let d = EthernetHdr::decode(&buf).unwrap();
    assert_eq!(d, EthernetHdr { ethertype: 0x0800, ..h });
}

#[test]
fn arp_encode_decode_roundtrip() {
    let h = ArpHdr {
        hw_type: 1,
        proto_type: 0x0800,
        hw_length: 6,
        proto_length: 4,
        operation: 1,
        sender_hw_address: [0x00, 0x00, 0x5e, 0x00, 0x01, 0x01],
        sender_proto_address: Ipv4Addr([10, 0, 0, 1]),
        target_hw_address: [0xff; 6],
        target_proto_address: Ipv4Addr([10, 0, 0, 1]),
    };
    let buf = h.encode();
    assert_eq!(
        &buf[..],
        &[
            0, 1, 8, 0, 6, 4, 0, 1, 0x00, 0x00, 0x5e, 0x00, 0x01, 0x01, 10, 0, 0, 1, 0xff, 0xff,
            0xff, 0xff, 0xff, 0xff, 10, 0, 0, 1
        ][..]
    );
    assert_eq!(ArpHdr::decode(&buf), Ok(h));
}

#[test]
fn vrrp4_packet_encode_concatenates() {
    let p = Vrrp4Packet { ip: ipv4_hdr(), vrrp: vrrp_v2() };
    let buf = p.encode();
    let mut expected = IPV4_BYTES.to_vec();
    expected.extend_from_slice(&V2_BYTES);
    assert_eq!(&buf[..], &expected[..]);
}

#[test]
fn neighbor_advertisement_encode() {
    let na = NeighborAdvertisement {
        icmp_type: 136,
        code: 0,
        checksum: 0x1234,
        r: 1,
        s: 0,
        o: 1,
        reserved: 0,
        target_address: v6(1),
    };
    let buf = na.encode();
    let mut expected = vec![136, 0, 0x12, 0x34, 0xa0, 0, 0, 0];
    expected.extend_from_slice(&v6(1).0);
    assert_eq!(&buf[..], &expected[..]);

    let ph = na.pseudo_header();
    let mut expected = v6(1).0.to_vec();
    expected.extend_from_slice(&v6(1).0);
    expected.extend_from_slice(&[0, 0, 0, 24, 0, 0, 0, 58]);
    assert_eq!(&ph[..], &expected[..]);
}

#[test]
fn neighbor_advertisement_reserved_shift() {
    let na = NeighborAdvertisement {
        icmp_type: 136,
        code: 0,
        checksum: 0,
        r: 0,
        s: 1,
        o: 0,
        reserved: 0xffff_ffff,
        target_address: v6(2),
    };
    let buf = na.encode();
    assert_eq!(&buf[4..8], &[0x5f, 0xff, 0xff, 0xff][..]);
}

#[test]
fn vrrp4_packet_parts_decode() {
    let p = Vrrp4Packet { ip: ipv4_hdr(), vrrp: vrrp_v2() };
    let buf = p.encode();
    let ip = Ipv4Hdr::decode(&buf[..20]).unwrap();
    let vrrp = VrrpHdr::decode(&buf[20..], AddressFamily::Ipv4).unwrap();
    assert_eq!(ip.src_address, Ipv4Addr([192, 168, 1, 1]));
    assert_eq!(ip.checksum, 0x18ea);
    assert_eq!(vrrp.vrid, 1);
    assert_eq!(vrrp.ip_addresses, vec![v4(10, 0, 0, 1)]);
}

#[test]
fn arp_encode_of_decoded_header() {
    let data: Vec<u8> = (0u8..30).collect();
    let h = ArpHdr::decode(&data).unwrap();
    assert_eq!(&h.encode()[..], &data[..28]);
}

#[test]
fn ethernet_encode_of_decoded_header() {
    let data: Vec<u8> = (100u8..114).collect();
    let h = EthernetHdr::decode(&data).unwrap();
    let mut expected = data[..12].to_vec();
    expected.extend_from_slice(&[0x08, 0x00]);
    assert_eq!(&h.encode()[..], &expected[..]);
}

#[test]
fn vrrp_v3_ipv4_twenty_addresses_roundtrip() {
    let mut h = vrrp_v3_ipv4();
    h.ip_addresses = (0u8..20).map(|i| v4(0xff, 0xff, i, 0xff)).collect();
    h.count_ip = 20;
    let buf = h.encode();
    assert_eq!(buf.len(), 88);
    let d = VrrpHdr::decode(&buf, AddressFamily::Ipv4).unwrap();
    assert_eq!(d.ip_addresses, h.ip_addresses);
    assert_eq!(d.checksum, u16::from_be_bytes([buf[6], buf[7]]));
}
