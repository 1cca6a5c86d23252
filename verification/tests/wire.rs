use holo_vrrp::ip::{put_ip, put_ipv4, put_ipv6, get_ipv4, get_ipv6, IpAddr, Ipv4Addr, Ipv6Addr};
use holo_vrrp::wire::{get_u16, get_u32, put_slice, put_u16, put_u32, put_u8};

#[test]
fn big_endian_writes() {
    let mut buf = Vec::new();
    put_u8(&mut buf, 0xab);
    put_u16(&mut buf, 0x1234);
    put_u32(&mut buf, 0xdeadbeef);
    put_slice(&mut buf, &[7, 8]);
    assert_eq!(buf, vec![0xab, 0x12, 0x34, 0xde, 0xad, 0xbe, 0xef, 7, 8]);
}

#[test]
fn big_endian_reads() {
    let data = [0xab, 0x12, 0x34, 0xde, 0xad, 0xbe, 0xef];
    assert_eq!(get_u16(&data, 1), 0x1234);
    assert_eq!(get_u32(&data, 3), 0xdeadbeef);
}

#[test]
fn address_writes_and_reads() {
    let a4 = Ipv4Addr([10, 1, 2, 3]);
    let mut o6 = [0u8; 16];
    for (i, b) in o6.iter_mut().enumerate() {
        *b = i as u8;
    }
    let a6 = Ipv6Addr(o6);
    let mut buf = Vec::new();
    put_ipv4(&mut buf, &a4);
    put_ipv6(&mut buf, &a6);
    put_ip(&mut buf, &IpAddr::V4(a4));
    assert_eq!(buf.len(), 24);
    assert_eq!(get_ipv4(&buf, 0), a4);
    assert_eq!(get_ipv6(&buf, 4), a6);
    assert_eq!(get_ipv4(&buf, 20), a4);
}
