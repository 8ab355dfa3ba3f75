//! The addresses at which organizations are kept.

use crate::address::Address;
use vstd::prelude::*;

verus! {

/// The addresses of the organizations that were created, in the order of
/// their creation.  An address that is kept stays: nothing removes one.
#[derive(Clone, Debug)]
pub struct OrgRegistry {
    /// The addresses.
    pub addresses: Vec<Address>,
}

impl View for OrgRegistry {
    type V = Seq<Address>;

    open spec fn view(&self) -> Seq<Address> {
        self.addresses@
    }
}

impl OrgRegistry {
    /// No address is kept twice.
    pub open spec fn wf(self) -> bool {
        self@.no_duplicates()
    }

    /// A registry without addresses.
    pub fn new() -> (registry: OrgRegistry)
        ensures
            registry@ == Seq::<Address>::empty(),
            registry.wf(),
    {
        OrgRegistry { addresses: Vec::new() }
    }

    /// The number of addresses.
    pub fn len(&self) -> (n: usize)
        ensures
            n == self@.len(),
    {
        self.addresses.len()
    }

    /// Whether an organization is kept at `address`.
    pub fn contains(&self, address: &Address) -> (found: bool)
        ensures
            found == self@.contains(*address),
    {
        let mut i: usize = 0;
        while i < self.addresses.len()
            invariant
                i <= self.addresses.len(),
                forall|j: int| 0 <= j < i ==> self@[j] != *address,
            decreases self.addresses.len() - i,
        {
            if self.addresses[i] == *address {
                return true;
            }
            i += 1;
        }
        false
    }

    /// Adds an address as the last one, unless it is kept already; says
    /// whether it was added.
    pub fn insert(&mut self, address: Address) -> (added: bool)
        ensures
            added == !old(self)@.contains(address),
            added ==> final(self)@ == old(self)@.push(address),
            !added ==> final(self)@ == old(self)@,
            old(self).wf() ==> final(self).wf(),
    {
        if self.contains(&address) {
            false
        } else {
            self.addresses.push(address);
            true
        }
    }
}

} // verus!
