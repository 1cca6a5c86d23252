//! The two VRRP versions an interface can run, as types.

use vstd::prelude::*;

verus! {

/// The protocols of this crate.
#[allow(non_camel_case_types)]
#[derive(Clone, Copy, Debug, PartialEq, Eq, Structural)]
pub enum Protocol {
    VRRPV2,
    VRRPV3,
}

/// VRRP version-specific code.
pub trait Version: 'static + Send + Default + core::fmt::Debug {
    const PROTOCOL: Protocol;
}

/// VRRP version 2.
#[derive(Debug, Default)]
pub struct Vrrpv2();

/// VRRP version 3.
#[derive(Debug, Default)]
pub struct Vrrpv3();

impl Version for Vrrpv2 {
    const PROTOCOL: Protocol = Protocol::VRRPV2;
}

impl Version for Vrrpv3 {
    const PROTOCOL: Protocol = Protocol::VRRPV3;
}

} // verus!
