use holo_vrrp::checksum::compute_checksum;
use holo_vrrp::instance::Version;
use holo_vrrp::ip::AddressFamily;
use holo_vrrp::northbound::state::ListEntry;
use holo_vrrp::version::{Protocol, Version as VersionTrait, Vrrpv2, Vrrpv3};

#[test]
fn checksum_of_valid_headers_is_zero() {
    let headers: [&[u8]; 2] = [
        &[
            0x45, 0x00, 0x00, 0x34, 0x00, 0x00, 0x40, 0x00, 0x40, 0x06, 0xae, 0xea, 0xc0, 0xa8,
            0x01, 0x0f, 0xc0, 0xb8, 0x09, 0x6a,
        ],
        &[
            0x45, 0x20, 0x00, 0x74, 0x5b, 0x6e, 0x40, 0x00, 0x37, 0x06, 0x5c, 0x1c, 0xc0, 0xb8,
            0x09, 0x6a, 0xc0, 0xa8, 0x01, 0x0f,
        ],
    ];
    for h in headers {
        assert_eq!(compute_checksum(h), [0, 0]);
    }
}

#[test]
fn checksum_values() {
    assert_eq!(compute_checksum(&[]), [0xff, 0xff]);
    assert_eq!(compute_checksum(&[0x12, 0x34]), [0xed, 0xcb]);
    // An odd trailing byte is the high byte of a word.
    assert_eq!(compute_checksum(&[0x01]), [0xfe, 0xff]);
    assert_eq!(compute_checksum(&[0xff, 0xff, 0x00, 0x01]), [0xff, 0xfe]);
}

#[test]
fn checksum_of_long_inputs() {
    let mut data = vec![0xffu8; 32];
    data.push(0x01);
    data.extend_from_slice(&[0u8; 31]);
    assert_eq!(compute_checksum(&data), [0xfe, 0xff]);
    let data: Vec<u8> = (0u8..200).collect();
    assert_eq!(compute_checksum(&data), [0x2c, 0xc9]);
}

#[test]
fn address_family_lengths() {
    assert_eq!(AddressFamily::Ipv4.addr_len(), 4);
    assert_eq!(AddressFamily::Ipv6.addr_len(), 16);
}

#[test]
fn version_numbers_and_families() {
    assert_eq!(Version::V2.version(), 2);
    assert_eq!(Version::V2.address_family(), AddressFamily::Ipv4);
    assert_eq!(Version::V3(AddressFamily::Ipv6).version(), 3);
    assert_eq!(Version::V3(AddressFamily::Ipv6).address_family(), AddressFamily::Ipv6);
}

#[test]
fn version_protocols() {
    assert_eq!(<Vrrpv2 as VersionTrait>::PROTOCOL, Protocol::VRRPV2);
    assert_eq!(<Vrrpv3 as VersionTrait>::PROTOCOL, Protocol::VRRPV3);
    let _ = Vrrpv2::default();
    let _ = Vrrpv3::default();
}

#[test]
fn list_entry_as_instance() {
    let instance = String::from("instance");
    let e: ListEntry<String> = ListEntry::Instance(7, &instance);
    let (vrid, i) = e.as_instance().unwrap();
    assert_eq!(*vrid, 7);
    assert_eq!(**i, "instance");
    let d: ListEntry<String> = ListEntry::default();
    assert!(d.as_instance().is_none());
}
