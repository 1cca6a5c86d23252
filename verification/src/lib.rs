//! Packet formats and protocol definitions of the Virtual Router Redundancy
//! Protocol (VRRP, versions 2 and 3), with verified encoders and decoders.

pub mod instance;
pub mod ip;
pub mod checksum;
pub mod wire;
pub mod packet;
pub mod version;
pub mod laws;
pub mod northbound;
pub mod field_laws;
