//! The worker records of an organization, found by their addresses.

use crate::address::Address;
use crate::states::worker::{Worker, WorkerAccount};
use vstd::prelude::*;

verus! {

/// Whether some record is kept at `address`.
pub open spec fn holds(records: Seq<WorkerAccount>, address: Address) -> bool {
    exists|i: int| 0 <= i < records.len() && #[trigger] records[i].address == address
}

/// Whether `i` is the first place in `records` that is kept at `address`.
pub open spec fn first_at(records: Seq<WorkerAccount>, address: Address, i: int) -> bool {
    &&& 0 <= i < records.len()
    &&& records[i].address == address
    &&& forall|j: int| 0 <= j < i ==> #[trigger] records[j].address != address
}

/// The first place in `records` that is kept at `address`, if there is one.
pub open spec fn position(records: Seq<WorkerAccount>, address: Address) -> Option<int> {
    if holds(records, address) {
        Some(choose|i: int| first_at(records, address, i))
    } else {
        None
    }
}

/// The record kept at `address`, if there is one.
pub open spec fn lookup(records: Seq<WorkerAccount>, address: Address) -> Option<Worker> {
    match position(records, address) {
        Some(i) => Some(records[i].worker),
        None => None,
    }
}

/// No two records are kept at the same address.
pub open spec fn distinct(records: Seq<WorkerAccount>) -> bool {
    forall|i: int, j: int|
        0 <= i < j < records.len() ==> (#[trigger] records[i]).address != (
        #[trigger] records[j]).address
}

/// A place that is the first at its address is the position of that address.
pub proof fn lemma_position_first(records: Seq<WorkerAccount>, address: Address, i: int)
    requires
        first_at(records, address, i),
    ensures
        holds(records, address),
        position(records, address) == Some(i),
{
    let c = choose|c: int| first_at(records, address, c);
    assert(first_at(records, address, c));
    if c < i {
        assert(records[c].address == address);
    } else if i < c {
        assert(records[i].address == address);
    }
}

/// Where an address is held, its position is the first place kept at it.
pub proof fn lemma_position_holds(records: Seq<WorkerAccount>, address: Address)
    requires
        holds(records, address),
    ensures
        position(records, address) matches Some(i) && first_at(records, address, i),
{
    let k = choose|k: int| 0 <= k < records.len() && #[trigger] records[k].address == address;
    lemma_first_exists(records, address, k);
    let f = choose|f: int| first_at(records, address, f);
    lemma_position_first(records, address, f);
}

/// Below a place kept at an address there is a first such place.
proof fn lemma_first_exists(records: Seq<WorkerAccount>, address: Address, k: int)
    requires
        0 <= k < records.len(),
        records[k].address == address,
    ensures
        exists|f: int| first_at(records, address, f),
    decreases k,
{
    if forall|j: int| 0 <= j < k ==> #[trigger] records[j].address != address {
        assert(first_at(records, address, k));
    } else {
        let j = choose|j: int| 0 <= j < k && #[trigger] records[j].address == address;
        lemma_first_exists(records, address, j);
    }
}

/// Where an address is kept depends on the addresses of the records alone.
pub proof fn lemma_position_same_addresses(
    records: Seq<WorkerAccount>,
    others: Seq<WorkerAccount>,
    address: Address,
)
    requires
        records.len() == others.len(),
        forall|i: int|
            0 <= i < records.len() ==> #[trigger] records[i].address == others[i].address,
    ensures
        position(records, address) == position(others, address),
{
    if holds(records, address) {
        lemma_position_holds(records, address);
        let f = position(records, address).unwrap();
        assert forall|j: int| 0 <= j < f implies #[trigger] others[j].address != address by {
            assert(records[j].address != address);
        }
        assert(others[f].address == records[f].address);
        lemma_position_first(others, address, f);
    } else if holds(others, address) {
        let k = choose|k: int| 0 <= k < others.len() && #[trigger] others[k].address == address;
        assert(records[k].address == address);
    }
}

/// The worker records of an organization, in the order of their registration.
#[derive(Clone, Debug)]
pub struct WorkerRegistry {
    /// The records.
    pub accounts: Vec<WorkerAccount>,
}

impl View for WorkerRegistry {
    type V = Seq<WorkerAccount>;

    open spec fn view(&self) -> Seq<WorkerAccount> {
        self.accounts@
    }
}

impl WorkerRegistry {
    /// No two records are kept at the same address.
    pub open spec fn wf(self) -> bool {
        distinct(self@)
    }

    /// A registry without records.
    pub fn new() -> (registry: WorkerRegistry)
        ensures
            registry@ == Seq::<WorkerAccount>::empty(),
            registry.wf(),
    {
        WorkerRegistry { accounts: Vec::new() }
    }

    /// The number of records.
    pub fn len(&self) -> (n: usize)
        ensures
            n == self@.len(),
    {
        self.accounts.len()
    }

    /// The first place that is kept at `address`, if there is one.
    pub fn find(&self, address: &Address) -> (found: Option<usize>)
        ensures
            match found {
                Some(i) => i < self@.len() && position(self@, *address) == Some(i as int),
                None => position(self@, *address) is None,
            },
    {
        let mut i: usize = 0;
        while i < self.accounts.len()
            invariant
                i <= self.accounts.len(),
                forall|j: int| 0 <= j < i ==> #[trigger] self@[j].address != *address,
            decreases self.accounts.len() - i,
        {
            if self.accounts[i].address == *address {
                proof {
                    lemma_position_first(self@, *address, i as int);
                }
                return Some(i);
            }
            i += 1;
        }
        None
    }

    /// The record kept at `address`, if there is one.
    pub fn get(&self, address: &Address) -> (found: Option<Worker>)
        ensures
            found == lookup(self@, *address),
    {
        match self.find(address) {
            Some(i) => {
                proof {
                    lemma_position_holds(self@, *address);
                }
                Some(self.accounts[i].worker)
            },
            None => None,
        }
    }

    /// Whether a record is kept at `address`.
    pub fn contains(&self, address: &Address) -> (found: bool)
        ensures
            found == holds(self@, *address),
    {
        self.find(address).is_some()
    }

    /// Adds a record as the last one, unless a record is kept at its address
    /// already; says whether it was added.
    pub fn insert(&mut self, account: WorkerAccount) -> (added: bool)
        ensures
            added == !holds(old(self)@, account.address),
            added ==> final(self)@ == old(self)@.push(account),
            !added ==> final(self)@ == old(self)@,
            old(self).wf() ==> final(self).wf(),
    {
        if self.contains(&account.address) {
            false
        } else {
            self.accounts.push(account);
            true
        }
    }
}

} // verus!
