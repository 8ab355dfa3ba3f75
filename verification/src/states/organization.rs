//! An organization, and the account that holds it together with its funds.

use crate::address::Address;
use vstd::prelude::*;

verus! {

/// The record of an organization.
#[derive(Clone, Debug, PartialEq, Eq)]
pub struct Organization {
    /// The only identity that may change the organization.
    pub authority: Address,
    /// The organization's name.
    pub name: String,
    /// The funds that the organization may spend, as the books have them.
    pub treasury: u64,
    /// How many workers were registered.
    pub workers_count: u64,
    /// When the organization was created.
    pub created_at: i64,
    /// The bump seed of the organization's address.
    pub bump: u8,
}

impl Organization {
    /// The longest name, in characters.
    pub const MAX_NAME_LEN: usize = 100;
}

/// An organization's record at its address, with the balance held there.
///
/// The treasury is the bookkeeping side of the held balance: every operation
/// moves both by the same amount, so the treasury never exceeds what is held.
#[derive(Clone, Debug, PartialEq, Eq)]
pub struct OrgAccount {
    /// Where the record is kept.
    pub address: Address,
    /// The balance held at the address.
    pub balance: u64,
    /// The record.
    pub data: Organization,
}

impl OrgAccount {
    /// The books do not claim more than the account holds.
    pub open spec fn wf(self) -> bool {
        self.data.treasury <= self.balance
    }

    /// The account once `amount` has entered both its balance and its
    /// treasury.
    pub open spec fn credited(self, amount: int) -> OrgAccount {
        OrgAccount {
            address: self.address,
            balance: (self.balance + amount) as u64,
            data: Organization { treasury: (self.data.treasury + amount) as u64, ..self.data },
        }
    }

    /// The account once `amount` has left both its balance and its treasury.
    pub open spec fn debited(self, amount: int) -> OrgAccount {
        OrgAccount {
            address: self.address,
            balance: (self.balance - amount) as u64,
            data: Organization { treasury: (self.data.treasury - amount) as u64, ..self.data },
        }
    }

    /// The account once one more worker has been counted.
    pub open spec fn with_one_more_worker(self) -> OrgAccount {
        OrgAccount {
            address: self.address,
            balance: self.balance,
            data: Organization { workers_count: (self.data.workers_count + 1) as u64, ..self.data },
        }
    }

    /// Puts a record at an address with a balance, if the balance covers the
    /// record's treasury.
    pub fn new(address: Address, balance: u64, data: Organization) -> (account: Option<OrgAccount>)
        ensures
            data.treasury <= balance ==> account == Some(OrgAccount { address, balance, data }),
            data.treasury > balance ==> account is None,
            account matches Some(a) ==> a.wf(),
    {
        if data.treasury <= balance {
            Some(OrgAccount { address, balance, data })
        } else {
            None
        }
    }

    /// Whether the books claim no more than the account holds.
    pub fn is_well_formed(&self) -> (ok: bool)
        ensures
            ok == self.wf(),
    {
        self.data.treasury <= self.balance
    }
}

} // verus!
