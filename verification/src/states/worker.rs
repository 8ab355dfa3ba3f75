//! A worker, and the account that holds its record.

use crate::address::Address;
use vstd::prelude::*;

verus! {

/// The record of a worker.
#[derive(Clone, Copy, Debug, PartialEq, Eq)]
pub struct Worker {
    /// The address of the organization that registered the worker.
    pub org: Address,
    /// The worker's wallet, which receives the salary.
    pub worker_pubkey: Address,
    /// What the worker is paid per cycle; more than zero.
    pub salary: u64,
    /// The last cycle for which the worker was paid; zero before the first.
    pub last_paid_cycle: u64,
    /// When the worker was registered.
    pub created_at: i64,
    /// The bump seed of the record's address.
    pub bump: u8,
}

impl Worker {
    /// Whether the worker has not been paid for `cycle` yet.
    pub open spec fn is_due(self, cycle: u64) -> bool {
        self.last_paid_cycle < cycle
    }

    /// The record once the worker has been paid for `cycle`.
    pub open spec fn paid(self, cycle: u64) -> Worker {
        Worker { last_paid_cycle: cycle, ..self }
    }
}

/// A worker's record at its address.
#[derive(Clone, Copy, Debug, PartialEq, Eq)]
pub struct WorkerAccount {
    /// Where the record is kept.
    pub address: Address,
    /// The record.
    pub worker: Worker,
}

} // verus!
