//! Registration of a worker with an organization.

use crate::address::{worker_address, worker_address_spec, Address};
use crate::errors::PayrollError;
use crate::states::organization::OrgAccount;
use crate::states::registry::{holds, WorkerRegistry};
use crate::states::worker::{Worker, WorkerAccount};
use vstd::prelude::*;

verus! {

/// What a registration makes: the new record at its address, or why the
/// registration is refused.  The checks are made in this order: the caller is
/// the authority; the salary is more than zero; the wallet has a record
/// address, and no record is kept there yet.
pub open spec fn add_worker_result(
    org: OrgAccount,
    records: Seq<WorkerAccount>,
    caller: Address,
    worker_pubkey: Address,
    salary: u64,
    created_at: i64,
    derived: Option<(Address, u8)>,
) -> Result<WorkerAccount, PayrollError> {
    if caller != org.data.authority {
        Err(PayrollError::Unauthorized)
    } else if salary == 0 {
        Err(PayrollError::InvalidSalary)
    } else {
        match derived {
            None => Err(PayrollError::InvalidWorkerWallet),
            Some((address, bump)) => if holds(records, address) {
                Err(PayrollError::InvalidWorkerWallet)
            } else {
                Ok(
                    WorkerAccount {
                        address,
                        worker: Worker {
                            org: org.address,
                            worker_pubkey,
                            salary,
                            last_paid_cycle: 0,
                            created_at,
                            bump,
                        },
                    },
                )
            },
        }
    }
}

/// What a registration leaves behind, given what it made: after a refusal
/// everything is as it was; after a registration the new record is the last
/// of the records and the organization counts one more worker.
pub open spec fn add_worker_effect(
    org: OrgAccount,
    records: Seq<WorkerAccount>,
    result: Result<WorkerAccount, PayrollError>,
    org_after: OrgAccount,
    records_after: Seq<WorkerAccount>,
    returned: Result<Worker, PayrollError>,
) -> bool {
    match result {
        Ok(account) => {
            &&& returned == Ok::<Worker, PayrollError>(account.worker)
            &&& records_after == records.push(account)
            &&& org_after == org.with_one_more_worker()
        },
        Err(e) => {
            &&& returned == Err::<Worker, PayrollError>(e)
            &&& records_after == records
            &&& org_after == org
        },
    }
}

/// Registers the worker with the wallet `worker_pubkey` at the record address
/// that was derived for the wallet.
///
/// A caller that is not the authority is refused with `Unauthorized`, a
/// salary of zero with `InvalidSalary`, and a wallet for which no address was
/// derived, or at whose address a record is kept already, with
/// `InvalidWorkerWallet`; a refusal changes nothing.  The new record has not
/// been paid for any cycle.  Where the record is added, the new count of
/// workers must fit in 64 bits.
pub fn add_worker_with(
    org: &mut OrgAccount,
    registry: &mut WorkerRegistry,
    caller: &Address,
    worker_pubkey: &Address,
    salary: u64,
    created_at: i64,
    derived: Option<(Address, u8)>,
) -> (returned: Result<Worker, PayrollError>)
    requires
        add_worker_result(
            *old(org),
            old(registry)@,
            *caller,
            *worker_pubkey,
            salary,
            created_at,
            derived,
        ) is Ok ==> old(org).data.workers_count < u64::MAX,
    ensures
        add_worker_effect(
            *old(org),
            old(registry)@,
            add_worker_result(
                *old(org),
                old(registry)@,
                *caller,
                *worker_pubkey,
                salary,
                created_at,
                derived,
            ),
            *final(org),
            final(registry)@,
            returned,
        ),
        old(org).wf() ==> final(org).wf(),
        old(registry).wf() ==> final(registry).wf(),
{
    if *caller != org.data.authority {
        return Err(PayrollError::Unauthorized);
    }
    if salary == 0 {
        return Err(PayrollError::InvalidSalary);
    }
    let (address, bump) = match derived {
        Some(found) => found,
        None => {
            return Err(PayrollError::InvalidWorkerWallet);
        },
    };
    let worker = Worker {
        org: org.address,
        worker_pubkey: *worker_pubkey,
        salary,
        last_paid_cycle: 0,
        created_at,
        bump,
    };
    if !registry.insert(WorkerAccount { address, worker }) {
        return Err(PayrollError::InvalidWorkerWallet);
    }
    org.data.workers_count = org.data.workers_count + 1;
    Ok(worker)
}

/// Registers the worker with the wallet `worker_pubkey`, at the record
/// address derived from the organization's address and the wallet.
///
/// A caller that is not the authority is refused with `Unauthorized`, a
/// salary of zero with `InvalidSalary`, and a wallet that has no address, or
/// at whose address a record is kept already, with `InvalidWorkerWallet`; a
/// refusal changes nothing.  So a wallet is registered only once: its second
/// registration meets the record of the first at the same address.  The new
/// record has not been paid for any cycle.  Where the record is added, the
/// new count of workers must fit in 64 bits.
pub fn add_worker(
    org: &mut OrgAccount,
    registry: &mut WorkerRegistry,
    caller: &Address,
    worker_pubkey: &Address,
    salary: u64,
    created_at: i64,
    program_id: &Address,
) -> (returned: Result<Worker, PayrollError>)
    requires
        add_worker_result(
            *old(org),
            old(registry)@,
            *caller,
            *worker_pubkey,
            salary,
            created_at,
            worker_address_spec(old(org).address, *worker_pubkey, *program_id),
        ) is Ok ==> old(org).data.workers_count < u64::MAX,
    ensures
        add_worker_effect(
            *old(org),
            old(registry)@,
            add_worker_result(
                *old(org),
                old(registry)@,
                *caller,
                *worker_pubkey,
                salary,
                created_at,
                worker_address_spec(old(org).address, *worker_pubkey, *program_id),
            ),
            *final(org),
            final(registry)@,
            returned,
        ),
        old(org).wf() ==> final(org).wf(),
        old(registry).wf() ==> final(registry).wf(),
{
    if *caller != org.data.authority {
        return Err(PayrollError::Unauthorized);
    }
    if salary == 0 {
        return Err(PayrollError::InvalidSalary);
    }
    let derived = worker_address(&org.address, worker_pubkey, program_id);
    add_worker_with(org, registry, caller, worker_pubkey, salary, created_at, derived)
}

} // verus!
