//! The payroll run: validate the whole batch and total it, then pay.

use crate::address::{worker_address, worker_address_spec, Address};
use crate::errors::PayrollError;
use crate::states::organization::OrgAccount;
use crate::states::registry::{
    lemma_position_holds, lemma_position_same_addresses, lookup, position, WorkerRegistry,
};
use crate::states::transfer::{total_amount, Transfer};
use crate::states::worker::{Worker, WorkerAccount};
use vstd::prelude::*;

verus! {

/// What a payroll run has paid.
#[derive(Clone, Debug, PartialEq, Eq)]
pub struct PayrollReceipt {
    /// The sum of the payments.
    pub total_paid: u64,
    /// The payments, in the order of the batch: each moves a salary from the
    /// organization to a worker's wallet.
    pub payments: Vec<Transfer>,
}

/// Whether a supplied record address is the one that was derived.
pub open spec fn address_matches(supplied: Address, derived: Option<(Address, u8)>) -> bool {
    derived matches Some((expected, _)) && expected == supplied
}

/// The address derived for the `i`-th pair of a batch; none where the list of
/// derived addresses is too short.
pub open spec fn derived_at(derived: Seq<Option<(Address, u8)>>, i: int) -> Option<(Address, u8)> {
    if 0 <= i < derived.len() {
        derived[i]
    } else {
        None
    }
}

/// The addresses derived for the records of the wallets of a batch, under an
/// organization.
pub open spec fn worker_derivations(
    org_address: Address,
    pairs: Seq<(Address, Address)>,
    program_id: Address,
) -> Seq<Option<(Address, u8)>> {
    Seq::new(pairs.len(), |i: int| worker_address_spec(org_address, pairs[i].1, program_id))
}

/// The validation of one pair, given the total of the pairs before it: the
/// new total, or why the pair is refused.
pub open spec fn validate_pair(
    records: Seq<WorkerAccount>,
    pair: (Address, Address),
    derived: Option<(Address, u8)>,
    cycle: u64,
    total: int,
) -> Result<int, PayrollError> {
    if !address_matches(pair.0, derived) {
        Err(PayrollError::InvalidWorkerPDA)
    } else {
        match lookup(records, pair.0) {
            None => Err(PayrollError::MissingWorkerAccount),
            Some(worker) => if !worker.is_due(cycle) {
                Ok(total)
            } else if total + worker.salary > u64::MAX {
                Err(PayrollError::InsufficientFunds)
            } else {
                Ok(total + worker.salary)
            },
        }
    }
}

/// The validation of the first `n` pairs of a batch, in order: the salaries
/// due to them in total, or the failure of the first pair that is refused.
pub open spec fn validated(
    records: Seq<WorkerAccount>,
    pairs: Seq<(Address, Address)>,
    derived: Seq<Option<(Address, u8)>>,
    cycle: u64,
    n: nat,
) -> Result<int, PayrollError>
    decreases n,
{
    if n == 0 {
        Ok(0)
    } else {
        match validated(records, pairs, derived, cycle, (n - 1) as nat) {
            Err(e) => Err(e),
            Ok(total) => validate_pair(
                records,
                pairs[n - 1],
                derived_at(derived, n - 1),
                cycle,
                total,
            ),
        }
    }
}

/// Whether a supplied record address is the one that was derived for the
/// wallet it is paired with.
pub fn check_worker_address(supplied: &Address, derived: &Option<(Address, u8)>) -> (ok: bool)
    ensures
        ok == address_matches(*supplied, *derived),
{
    match derived {
        Some((expected, _)) => *expected == *supplied,
        None => false,
    }
}

/// Validates a batch against the records and totals the salaries that are
/// due for `cycle`: the first phase of a payroll run, which changes nothing.
/// The pairs are taken in order, and the first that is refused decides the
/// failure: `InvalidWorkerPDA` where its record address is not the derived
/// one, `MissingWorkerAccount` where its record is not kept, and
/// `InsufficientFunds` where the total no longer fits in 64 bits.
pub fn validate_pairs(
    registry: &WorkerRegistry,
    pairs: &Vec<(Address, Address)>,
    derived: &Vec<Option<(Address, u8)>>,
    cycle: u64,
) -> (r: Result<u64, PayrollError>)
    ensures
        match validated(registry@, pairs@, derived@, cycle, pairs@.len()) {
            Ok(total) => r == Ok::<u64, PayrollError>(total as u64) && 0 <= total <= u64::MAX,
            Err(e) => r == Err::<u64, PayrollError>(e),
        },
{
    let mut total: u64 = 0;
    let mut i: usize = 0;
    while i < pairs.len()
        invariant
            i <= pairs@.len(),
            validated(registry@, pairs@, derived@, cycle, i as nat) == Ok::<
                int,
                PayrollError,
            >(total as int),
        decreases pairs@.len() - i,
    {
        let supplied = pairs[i].0;
        let matches = if i < derived.len() {
            check_worker_address(&supplied, &derived[i])
        } else {
            false
        };
        if !matches {
            proof {
                lemma_validated_failure(
                    registry@,
                    pairs@,
                    derived@,
                    cycle,
                    i as nat + 1,
                    pairs@.len(),
                );
            }
            return Err(PayrollError::InvalidWorkerPDA);
        }
        match registry.get(&supplied) {
            None => {
                proof {
                    lemma_validated_failure(
                        registry@,
                        pairs@,
                        derived@,
                        cycle,
                        i as nat + 1,
                        pairs@.len(),
                    );
                }
                return Err(PayrollError::MissingWorkerAccount);
            },
            Some(worker) => {
                if worker.last_paid_cycle < cycle {
                    match total.checked_add(worker.salary) {
                        Some(sum) => {
                            total = sum;
                        },
                        None => {
                            proof {
                                lemma_validated_failure(
                                    registry@,
                                    pairs@,
                                    derived@,
                                    cycle,
                                    i as nat + 1,
                                    pairs@.len(),
                                );
                            }
                            return Err(PayrollError::InsufficientFunds);
                        },
                    }
                }
            },
        }
        i += 1;
    }
    Ok(total)
}

/// A failure among the first `n` pairs is the failure of every longer part
/// of the batch.
pub proof fn lemma_validated_failure(
    records: Seq<WorkerAccount>,
    pairs: Seq<(Address, Address)>,
    derived: Seq<Option<(Address, u8)>>,
    cycle: u64,
    n: nat,
    m: nat,
)
    requires
        n <= m,
        validated(records, pairs, derived, cycle, n) is Err,
    ensures
        validated(records, pairs, derived, cycle, m) == validated(
            records,
            pairs,
            derived,
            cycle,
            n,
        ),
    decreases m,
{
    if n < m {
        lemma_validated_failure(records, pairs, derived, cycle, n, (m - 1) as nat);
    }
}

/// Whether one of the first `n` pairs names the record at place `k`.
pub open spec fn claimed(
    records: Seq<WorkerAccount>,
    pairs: Seq<(Address, Address)>,
    n: nat,
    k: int,
) -> bool {
    exists|i: int| 0 <= i < n && position(records, (#[trigger] pairs[i]).0) == Some(k)
}

/// The records once the first `n` pairs have been paid for `cycle`: a record
/// that was due and that one of these pairs names is marked as paid for the
/// cycle, every other record is as it was.
pub open spec fn settled(
    records: Seq<WorkerAccount>,
    pairs: Seq<(Address, Address)>,
    cycle: u64,
    n: nat,
) -> Seq<WorkerAccount> {
    Seq::new(
        records.len(),
        |k: int|
            if records[k].worker.is_due(cycle) && claimed(records, pairs, n, k) {
                WorkerAccount { address: records[k].address, worker: records[k].worker.paid(cycle) }
            } else {
                records[k]
            },
    )
}

/// Whether no pair before the `i`-th names the same record as the `i`-th.
pub open spec fn first_claim(pairs: Seq<(Address, Address)>, i: int) -> bool {
    forall|j: int| 0 <= j < i ==> (#[trigger] pairs[j]).0 != pairs[i].0
}

/// Whether the `i`-th pair is paid: its record is kept, was due for `cycle`
/// before the run, and no earlier pair of the batch names it.
pub open spec fn pays(
    records: Seq<WorkerAccount>,
    pairs: Seq<(Address, Address)>,
    cycle: u64,
    i: int,
) -> bool {
    &&& first_claim(pairs, i)
    &&& lookup(records, pairs[i].0) matches Some(worker) && worker.is_due(cycle)
}

/// The salary that the `i`-th pair is paid where it is paid: that of its
/// record.
pub open spec fn salary_of(
    records: Seq<WorkerAccount>,
    pairs: Seq<(Address, Address)>,
    i: int,
) -> u64 {
    lookup(records, pairs[i].0).unwrap().salary
}

/// The payments made for the first `n` pairs, in the order of the batch: for
/// each pair that is paid, its salary from `source` to its wallet.
pub open spec fn payments(
    source: Address,
    records: Seq<WorkerAccount>,
    pairs: Seq<(Address, Address)>,
    cycle: u64,
    n: nat,
) -> Seq<Transfer>
    decreases n,
{
    if n == 0 {
        Seq::empty()
    } else if pays(records, pairs, cycle, n - 1) {
        payments(source, records, pairs, cycle, (n - 1) as nat).push(
            Transfer { from: source, to: pairs[n - 1].1, amount: salary_of(records, pairs, n - 1) },
        )
    } else {
        payments(source, records, pairs, cycle, (n - 1) as nat)
    }
}

/// The sum of the payments made for the first `n` pairs.
pub open spec fn disbursed(
    records: Seq<WorkerAccount>,
    pairs: Seq<(Address, Address)>,
    cycle: u64,
    n: nat,
) -> int
    decreases n,
{
    if n == 0 {
        0
    } else if pays(records, pairs, cycle, n - 1) {
        disbursed(records, pairs, cycle, (n - 1) as nat) + salary_of(records, pairs, n - 1)
    } else {
        disbursed(records, pairs, cycle, (n - 1) as nat)
    }
}

/// The payments of a run add up to what the run has paid.
pub proof fn lemma_payments_total(
    source: Address,
    records: Seq<WorkerAccount>,
    pairs: Seq<(Address, Address)>,
    cycle: u64,
    n: nat,
)
    ensures
        total_amount(payments(source, records, pairs, cycle, n)) == disbursed(
            records,
            pairs,
            cycle,
            n,
        ),
    decreases n,
{
    if n > 0 {
        lemma_payments_total(source, records, pairs, cycle, (n - 1) as nat);
        let earlier = payments(source, records, pairs, cycle, (n - 1) as nat);
        if pays(records, pairs, cycle, n - 1) {
            let last = Transfer {
                from: source,
                to: pairs[n - 1].1,
                amount: salary_of(records, pairs, n - 1),
            };
            assert(earlier.push(last).drop_last() =~= earlier);
        }
    }
}

/// A longer part of the batch is paid no less than a shorter one.
pub proof fn lemma_disbursed_monotonic(
    records: Seq<WorkerAccount>,
    pairs: Seq<(Address, Address)>,
    cycle: u64,
    n: nat,
    m: nat,
)
    requires
        n <= m,
    ensures
        0 <= disbursed(records, pairs, cycle, n) <= disbursed(records, pairs, cycle, m),
    decreases m,
{
    if n < m {
        lemma_disbursed_monotonic(records, pairs, cycle, n, (m - 1) as nat);
    } else if n > 0 {
        lemma_disbursed_monotonic(records, pairs, cycle, (n - 1) as nat, (m - 1) as nat);
    }
}

/// What paying the `i`-th pair does to the records that the pairs before it
/// have left.
proof fn lemma_pay_step(
    records: Seq<WorkerAccount>,
    pairs: Seq<(Address, Address)>,
    cycle: u64,
    i: nat,
)
    requires
        i < pairs.len(),
    ensures
        ({
            let current = settled(records, pairs, cycle, i);
            let next = settled(records, pairs, cycle, i + 1);
            &&& position(current, pairs[i as int].0) == position(records, pairs[i as int].0)
            &&& match position(records, pairs[i as int].0) {
                Some(k) => {
                    &&& 0 <= k < records.len()
                    &&& lookup(records, pairs[i as int].0) == Some(records[k].worker)
                    &&& current[k].address == records[k].address
                    &&& current[k].worker.salary == records[k].worker.salary
                    &&& current[k].worker.is_due(cycle) == pays(records, pairs, cycle, i as int)
                    &&& next == if pays(records, pairs, cycle, i as int) {
                        current.update(
                            k,
                            WorkerAccount {
                                address: current[k].address,
                                worker: current[k].worker.paid(cycle),
                            },
                        )
                    } else {
                        current
                    }
                },
                None => !pays(records, pairs, cycle, i as int) && next == current,
            }
        }),
{
    let address = pairs[i as int].0;
    let current = settled(records, pairs, cycle, i);
    let next = settled(records, pairs, cycle, i + 1);
    lemma_position_same_addresses(records, current, address);
    assert forall|m: int| 0 <= m < records.len() implies (claimed(records, pairs, i + 1, m) <==> (
        claimed(records, pairs, i, m) || position(records, address) == Some(m))) by {
        if claimed(records, pairs, i + 1, m) {
            let j = choose|j: int|
                0 <= j < i + 1 && position(records, (#[trigger] pairs[j]).0) == Some(m);
            if j < i {
                assert(claimed(records, pairs, i, m));
            }
        }
        if claimed(records, pairs, i, m) {
            let j = choose|j: int|
                0 <= j < i && position(records, (#[trigger] pairs[j]).0) == Some(m);
            assert(0 <= j < i + 1 && position(records, pairs[j].0) == Some(m));
        }
        if position(records, address) == Some(m) {
            assert(0 <= i < i + 1 && position(records, pairs[i as int].0) == Some(m));
        }
    }
    match position(records, address) {
        Some(k) => {
            lemma_position_holds(records, address);
            assert(records[k].address == address);
            if claimed(records, pairs, i, k) {
                let j = choose|j: int|
                    0 <= j < i && position(records, (#[trigger] pairs[j]).0) == Some(k);
                lemma_position_holds(records, pairs[j].0);
                assert(pairs[j].0 == address);
                assert(!first_claim(pairs, i as int));
            } else {
                assert forall|j: int| 0 <= j < i implies (#[trigger] pairs[j]).0 != address by {
                    if pairs[j].0 == address {
                        assert(position(records, pairs[j].0) == Some(k));
                    }
                }
                assert(first_claim(pairs, i as int));
            }
            if pays(records, pairs, cycle, i as int) {
                assert(next =~= current.update(
                    k,
                    WorkerAccount {
                        address: current[k].address,
                        worker: current[k].worker.paid(cycle),
                    },
                ));
            } else {
                assert(next =~= current);
            }
        },
        None => {
            assert(next =~= current);
        },
    }
}

/// Pays every pair of a validated batch whose record is still due.
fn pay_workers(
    org: &mut OrgAccount,
    registry: &mut WorkerRegistry,
    pairs: &Vec<(Address, Address)>,
    cycle: u64,
) -> (receipt: PayrollReceipt)
    requires
        old(org).wf(),
        disbursed(old(registry)@, pairs@, cycle, pairs@.len()) <= old(org).data.treasury,
    ensures
        receipt.total_paid == disbursed(old(registry)@, pairs@, cycle, pairs@.len()),
        receipt.payments@ == payments(
            old(org).address,
            old(registry)@,
            pairs@,
            cycle,
            pairs@.len(),
        ),
        final(registry)@ == settled(old(registry)@, pairs@, cycle, pairs@.len()),
        *final(org) == old(org).debited(receipt.total_paid as int),
{
    let ghost records = registry@;
    let ghost before = *org;
    let mut paid: Vec<Transfer> = Vec::new();
    let mut total_paid: u64 = 0;
    let mut i: usize = 0;
    proof {
        assert(registry@ =~= settled(records, pairs@, cycle, 0));
    }
    while i < pairs.len()
        invariant
            i <= pairs@.len(),
            before.wf(),
            disbursed(records, pairs@, cycle, pairs@.len()) <= before.data.treasury,
            registry@ == settled(records, pairs@, cycle, i as nat),
            paid@ == payments(before.address, records, pairs@, cycle, i as nat),
            total_paid == disbursed(records, pairs@, cycle, i as nat),
            *org == before.debited(total_paid as int),
        decreases pairs@.len() - i,
    {
        let record = pairs[i].0;
        let destination = pairs[i].1;
        proof {
            lemma_pay_step(records, pairs@, cycle, i as nat);
            lemma_disbursed_monotonic(records, pairs@, cycle, i as nat + 1, pairs@.len());
            lemma_disbursed_monotonic(records, pairs@, cycle, i as nat, i as nat + 1);
        }
        match registry.find(&record) {
            Some(k) => {
                let account = registry.accounts[k];
                if account.worker.last_paid_cycle < cycle {
                    let salary = account.worker.salary;
                    registry.accounts[k] = WorkerAccount {
                        address: account.address,
                        worker: Worker { last_paid_cycle: cycle, ..account.worker },
                    };
                    paid.push(Transfer { from: org.address, to: destination, amount: salary });
                    total_paid = total_paid + salary;
                    org.balance = org.balance - salary;
                    org.data.treasury = org.data.treasury.saturating_sub(salary);
                }
            },
            None => {},
        }
        i += 1;
    }
    PayrollReceipt { total_paid, payments: paid }
}

/// What a payroll run returns: the sum that is paid, or why the run is
/// refused.  The checks are made in this order: the caller is the authority;
/// the batch has one pair for each registered worker; every pair is valid, in
/// the order of the batch; the treasury covers the salaries that are due.
pub open spec fn payroll_result(
    org: OrgAccount,
    records: Seq<WorkerAccount>,
    caller: Address,
    cycle: u64,
    pairs: Seq<(Address, Address)>,
    derived: Seq<Option<(Address, u8)>>,
) -> Result<int, PayrollError> {
    if caller != org.data.authority {
        Err(PayrollError::Unauthorized)
    } else if pairs.len() != org.data.workers_count {
        Err(PayrollError::MissingWorkerAccount)
    } else {
        match validated(records, pairs, derived, cycle, pairs.len()) {
            Err(e) => Err(e),
            Ok(total) => if org.data.treasury < total {
                Err(PayrollError::InsufficientFunds)
            } else {
                Ok(disbursed(records, pairs, cycle, pairs.len()))
            },
        }
    }
}

/// What a payroll run leaves behind, given what it returned: after a refusal
/// everything is as it was; after a run the records are settled and the sum
/// that was paid has left the organization's balance and treasury.
pub open spec fn payroll_effect(
    org: OrgAccount,
    records: Seq<WorkerAccount>,
    cycle: u64,
    pairs: Seq<(Address, Address)>,
    result: Result<int, PayrollError>,
    org_after: OrgAccount,
    records_after: Seq<WorkerAccount>,
    returned: Result<PayrollReceipt, PayrollError>,
) -> bool {
    match result {
        Ok(paid) => {
            &&& returned matches Ok(receipt) && receipt.total_paid == paid && receipt.payments@
                == payments(org.address, records, pairs, cycle, pairs.len())
            &&& records_after == settled(records, pairs, cycle, pairs.len())
            &&& org_after == org.debited(paid)
        },
        Err(e) => {
            &&& returned matches Err(error) && error == e
            &&& records_after == records
            &&& org_after == org
        },
    }
}

/// A validated batch is paid no more than the total of its validation.
pub proof fn lemma_disbursed_within_total(
    records: Seq<WorkerAccount>,
    pairs: Seq<(Address, Address)>,
    derived: Seq<Option<(Address, u8)>>,
    cycle: u64,
    n: nat,
)
    requires
        validated(records, pairs, derived, cycle, n) is Ok,
    ensures
        validated(records, pairs, derived, cycle, n) matches Ok(total) && 0 <= disbursed(
            records,
            pairs,
            cycle,
            n,
        ) <= total,
    decreases n,
{
    if n > 0 {
        lemma_disbursed_within_total(records, pairs, derived, cycle, (n - 1) as nat);
    }
}

/// Runs the payroll of `cycle_timestamp` for a batch of pairs, each a
/// worker's record address and the wallet to pay, given the address that was
/// derived for each wallet.
///
/// The whole batch is validated before anything is paid, so a refused run
/// changes nothing.  A caller that is not the authority is refused with
/// `Unauthorized`; a batch that has not one pair for each registered worker
/// with `MissingWorkerAccount`.  Then the pairs are taken in order: one whose
/// record address is not the derived one is refused with `InvalidWorkerPDA`,
/// one whose record is not kept with `MissingWorkerAccount`, and one with
/// which the salaries due no longer fit in 64 bits with `InsufficientFunds`.
/// At last a total that the treasury does not cover is refused with
/// `InsufficientFunds`.
///
/// A run marks every record of the batch that was due as paid for the cycle
/// and takes its salary out of the balance and the treasury.  A worker that
/// was already paid for the cycle is passed over, and so is a record that an
/// earlier pair of the batch has named.  The receipt holds the payments that
/// are to reach the wallets.
pub fn process_payroll_with(
    org: &mut OrgAccount,
    registry: &mut WorkerRegistry,
    caller: &Address,
    cycle_timestamp: u64,
    pairs: &Vec<(Address, Address)>,
    derived: &Vec<Option<(Address, u8)>>,
) -> (returned: Result<PayrollReceipt, PayrollError>)
    requires
        old(org).wf(),
    ensures
        payroll_effect(
            *old(org),
            old(registry)@,
            cycle_timestamp,
            pairs@,
            payroll_result(
                *old(org),
                old(registry)@,
                *caller,
                cycle_timestamp,
                pairs@,
                derived@,
            ),
            *final(org),
            final(registry)@,
            returned,
        ),
        returned matches Ok(receipt) ==> total_amount(receipt.payments@) == receipt.total_paid,
        final(org).wf(),
{
    if *caller != org.data.authority {
        return Err(PayrollError::Unauthorized);
    }
    if pairs.len() as u64 != org.data.workers_count {
        return Err(PayrollError::MissingWorkerAccount);
    }
    let total = match validate_pairs(registry, pairs, derived, cycle_timestamp) {
        Ok(total) => total,
        Err(e) => {
            return Err(e);
        },
    };
    if org.data.treasury < total {
        return Err(PayrollError::InsufficientFunds);
    }
    proof {
        lemma_disbursed_within_total(
            registry@,
            pairs@,
            derived@,
            cycle_timestamp,
            pairs@.len(),
        );
        lemma_payments_total(org.address, registry@, pairs@, cycle_timestamp, pairs@.len());
    }
    Ok(pay_workers(org, registry, pairs, cycle_timestamp))
}

/// Derives the record address of each wallet of a batch.
fn derive_worker_addresses(
    org_address: &Address,
    pairs: &Vec<(Address, Address)>,
    program_id: &Address,
) -> (derived: Vec<Option<(Address, u8)>>)
    ensures
        derived@ == worker_derivations(*org_address, pairs@, *program_id),
{
    let mut derived: Vec<Option<(Address, u8)>> = Vec::new();
    let mut i: usize = 0;
    while i < pairs.len()
        invariant
            i <= pairs@.len(),
            derived@.len() == i,
            forall|j: int|
                0 <= j < i ==> #[trigger] derived@[j] == worker_address_spec(
                    *org_address,
                    pairs@[j].1,
                    *program_id,
                ),
        decreases pairs@.len() - i,
    {
        derived.push(worker_address(org_address, &pairs[i].1, program_id));
        i += 1;
    }
    assert(derived@ =~= worker_derivations(*org_address, pairs@, *program_id));
    derived
}

/// Runs the payroll of `cycle_timestamp` for a batch of pairs, each a
/// worker's record address and the wallet to pay.
///
/// The whole batch is validated before anything is paid, so a refused run
/// changes nothing.  A caller that is not the authority is refused with
/// `Unauthorized`; a batch that has not one pair for each registered worker
/// with `MissingWorkerAccount`.  Then the pairs are taken in order: one whose
/// record address is not the one derived for its wallet under the
/// organization is refused with `InvalidWorkerPDA`, one whose record is not
/// kept with `MissingWorkerAccount`, and one with which the salaries due no
/// longer fit in 64 bits with `InsufficientFunds`.  At last a total that the
/// treasury does not cover is refused with `InsufficientFunds`.
///
/// A run marks every record of the batch that was due as paid for the cycle
/// and takes its salary out of the balance and the treasury.  A worker that
/// was already paid for the cycle is passed over, and so is a record that an
/// earlier pair of the batch has named.  The receipt holds the payments that
/// are to reach the wallets.
pub fn process_payroll(
    org: &mut OrgAccount,
    registry: &mut WorkerRegistry,
    caller: &Address,
    cycle_timestamp: u64,
    pairs: &Vec<(Address, Address)>,
    program_id: &Address,
) -> (returned: Result<PayrollReceipt, PayrollError>)
    requires
        old(org).wf(),
    ensures
        payroll_effect(
            *old(org),
            old(registry)@,
            cycle_timestamp,
            pairs@,
            payroll_result(
                *old(org),
                old(registry)@,
                *caller,
                cycle_timestamp,
                pairs@,
                worker_derivations(old(org).address, pairs@, *program_id),
            ),
            *final(org),
            final(registry)@,
            returned,
        ),
        returned matches Ok(receipt) ==> total_amount(receipt.payments@) == receipt.total_paid,
        final(org).wf(),
{
    if *caller != org.data.authority {
        return Err(PayrollError::Unauthorized);
    }
    if pairs.len() as u64 != org.data.workers_count {
        return Err(PayrollError::MissingWorkerAccount);
    }
    let derived = derive_worker_addresses(&org.address, pairs, program_id);
    process_payroll_with(org, registry, caller, cycle_timestamp, pairs, &derived)
}

} // verus!
