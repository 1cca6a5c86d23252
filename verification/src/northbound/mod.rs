//! Northbound (management) interface of the protocol.

pub mod state;
