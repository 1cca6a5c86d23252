# holo_vrrp

The packet layer of a VRRP (versions 2 and 3) implementation, verified with
Verus.

- `src/packet.rs`: VRRP, IPv4, Ethernet, ARP and ICMPv6 Neighbor
  Advertisement headers; each encoder and decoder is specified by a spec
  function over the octets.
- `src/checksum.rs`: the RFC 1071 Internet checksum as computed by the
  `internet_checksum` crate, and the fact that filling a zeroed checksum
  field with the checksum makes the buffer pass the check.
- `src/laws.rs`: decoding what was encoded gives the header back.
- `src/wire.rs`, `src/ip.rs`: network byte order and addresses.
- `src/instance.rs`, `src/version.rs`, `src/northbound/`: protocol versions
  and operational-state list entries.
- `app/`: serde-serialisable copies of the packet types using `std::net`
  addresses, and the tracing spans of each version.

Left out: the northbound callback tables (`load_callbacks` and its two
per-version callers), the callback accessors of `NorthboundVersion` and the
`Interface` provider impls. They build on `holo_northbound` and `holo_yang`,
crates of the project's own workspace that are not available as
dependencies, and on `Interface`/`Instance` types that are not part of this
crate; only the per-version tracing spans are kept, in `app/`.

The Internet checksum is fed to `internet_checksum` in chunks shorter than
64 octets, on which the crate's word-by-word path computes the exact RFC 1071
value.
