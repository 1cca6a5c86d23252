//! Entries of the operational-state lists.

use vstd::prelude::*;

verus! {

/// An entry of the VRRP instance list of an interface: an instance and its
/// virtual router identifier, or no entry.
#[derive(Debug)]
pub enum ListEntry<'a, I> {
    Empty,
    Instance(u8, &'a I),
}

impl<'a, I> Default for ListEntry<'a, I> {
    fn default() -> (entry: Self)
        ensures
            entry is Empty,
    {
        ListEntry::Empty
    }
}

impl<'a, I> ListEntry<'a, I> {
    /// The virtual router identifier and the instance, for an instance
    /// entry.
    pub fn as_instance(&self) -> (r: Option<(&u8, &&'a I)>)
        ensures
            self is Empty ==> r is None,
            self matches ListEntry::Instance(vrid, instance) ==> r matches Some((v, i)) && *v
                == vrid && **i == *instance,
    {
        match self {
            ListEntry::Empty => None,
            ListEntry::Instance(vrid, instance) => Some((vrid, instance)),
        }
    }
}

} // verus!
