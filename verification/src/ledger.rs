//! The ledger as a whole: an organization with its worker records, the
//! operations as steps on it, and what holds of every sequence of steps.

use crate::address::{org_address_spec, worker_address_spec, Address};
use crate::errors::PayrollError;
use crate::instructions::add_worker::{add_worker_effect, add_worker_result};
use crate::instructions::create_org::{create_org_effect, create_org_result};
use crate::instructions::fund_treasury::fund_treasury_result;
use crate::instructions::process_payroll::{
    claimed, disbursed, first_claim, lemma_disbursed_within_total, lemma_validated_failure,
    payments, payroll_effect, payroll_result, pays, settled, validated, worker_derivations,
    PayrollReceipt,
};
use crate::instructions::withdraw::withdraw_result;
use crate::states::organization::OrgAccount;
use crate::states::registry::{
    distinct, holds, lemma_position_holds, lemma_position_same_addresses, lookup, position,
};
use crate::states::transfer::Transfer;
use crate::states::worker::{Worker, WorkerAccount};
use vstd::prelude::*;

verus! {

/// An organization with the records of the workers that it has registered.
pub struct Ledger {
    /// The program under which the addresses are derived.
    pub program_id: Address,
    /// The organization's account.
    pub org: OrgAccount,
    /// The records of its workers, in the order of their registration.
    pub records: Seq<WorkerAccount>,
}

/// A change that a caller asks of a ledger.
pub enum Operation {
    /// To add to the treasury.
    Fund { caller: Address, amount: u64 },
    /// To take from the treasury.
    Withdraw { caller: Address, amount: u64 },
    /// To register a worker.
    AddWorker { caller: Address, worker_pubkey: Address, salary: u64, created_at: i64 },
    /// To run the payroll of a cycle for a batch of pairs.
    Payroll { caller: Address, cycle: u64, pairs: Seq<(Address, Address)> },
}

impl Ledger {
    /// What holds of a ledger at all times: the treasury is covered by the
    /// balance held; no two records are kept at one address; the count of
    /// workers is the number of records; and every record belongs to the
    /// organization, has a salary, and is kept at the address derived for its
    /// wallet.
    pub open spec fn wf(self) -> bool {
        &&& self.org.wf()
        &&& distinct(self.records)
        &&& self.records.len() == self.org.data.workers_count
        &&& forall|i: int|
            0 <= i < self.records.len() ==> {
                let record = #[trigger] self.records[i];
                &&& record.worker.org == self.org.address
                &&& record.worker.salary > 0
                &&& worker_address_spec(
                    self.org.address,
                    record.worker.worker_pubkey,
                    self.program_id,
                ) == Some((record.address, record.worker.bump))
            }
    }

    /// The ledger after an operation.  A refused operation changes nothing,
    /// and neither does one that the machine's integers cannot hold.
    pub open spec fn step(self, op: Operation) -> Ledger {
        match op {
            Operation::Fund { caller, amount } => {
                if fund_treasury_result(self.org, caller, amount) is Ok && self.org.balance
                    + amount <= u64::MAX {
                    Ledger { org: self.org.credited(amount as int), ..self }
                } else {
                    self
                }
            },
            Operation::Withdraw { caller, amount } => {
                if withdraw_result(self.org, caller, amount) is Ok {
                    Ledger { org: self.org.debited(amount as int), ..self }
                } else {
                    self
                }
            },
            Operation::AddWorker { caller, worker_pubkey, salary, created_at } => {
                match add_worker_result(
                    self.org,
                    self.records,
                    caller,
                    worker_pubkey,
                    salary,
                    created_at,
                    worker_address_spec(self.org.address, worker_pubkey, self.program_id),
                ) {
                    Ok(account) => if self.org.data.workers_count < u64::MAX {
                        Ledger {
                            org: self.org.with_one_more_worker(),
                            records: self.records.push(account),
                            ..self
                        }
                    } else {
                        self
                    },
                    Err(_) => self,
                }
            },
            Operation::Payroll { caller, cycle, pairs } => {
                match payroll_result(
                    self.org,
                    self.records,
                    caller,
                    cycle,
                    pairs,
                    worker_derivations(self.org.address, pairs, self.program_id),
                ) {
                    Ok(paid) => Ledger {
                        org: self.org.debited(paid),
                        records: settled(self.records, pairs, cycle, pairs.len()),
                        ..self
                    },
                    Err(_) => self,
                }
            },
        }
    }

    /// The ledger after a sequence of operations, one after the other.
    pub open spec fn run(self, ops: Seq<Operation>) -> Ledger
        decreases ops.len(),
    {
        if ops.len() == 0 {
            self
        } else {
            self.run(ops.drop_last()).step(ops.last())
        }
    }

    /// Whether an operation registers a worker: it asks for a registration
    /// and is not refused.
    pub open spec fn registers(self, op: Operation) -> bool {
        op is AddWorker && self.step(op) != self
    }

    /// How many workers a sequence of operations registers.
    pub open spec fn registrations(self, ops: Seq<Operation>) -> nat
        decreases ops.len(),
    {
        if ops.len() == 0 {
            0
        } else if self.run(ops.drop_last()).registers(ops.last()) {
            self.registrations(ops.drop_last()) + 1
        } else {
            self.registrations(ops.drop_last())
        }
    }
}

/// What `fund_treasury` leaves behind is the step of the ledger.
pub proof fn lemma_fund_is_step(
    ledger: Ledger,
    caller: Address,
    amount: u64,
    org_after: OrgAccount,
    returned: Result<Transfer, PayrollError>,
)
    requires
        returned is Ok ==> ledger.org.balance + amount <= u64::MAX,
        returned == fund_treasury_result(ledger.org, caller, amount),
        returned is Ok ==> org_after == ledger.org.credited(amount as int),
        returned is Err ==> org_after == ledger.org,
    ensures
        ledger.step(Operation::Fund { caller, amount }) == (Ledger { org: org_after, ..ledger }),
{
}

/// What `withdraw` leaves behind is the step of the ledger.
pub proof fn lemma_withdraw_is_step(
    ledger: Ledger,
    caller: Address,
    amount: u64,
    org_after: OrgAccount,
    returned: Result<Transfer, PayrollError>,
)
    requires
        returned == withdraw_result(ledger.org, caller, amount),
        returned is Ok ==> org_after == ledger.org.debited(amount as int),
        returned is Err ==> org_after == ledger.org,
    ensures
        ledger.step(Operation::Withdraw { caller, amount }) == (Ledger {
            org: org_after,
            ..ledger
        }),
{
}

/// What `add_worker` leaves behind is the step of the ledger.
pub proof fn lemma_add_worker_is_step(
    ledger: Ledger,
    caller: Address,
    worker_pubkey: Address,
    salary: u64,
    created_at: i64,
    org_after: OrgAccount,
    records_after: Seq<WorkerAccount>,
    returned: Result<Worker, PayrollError>,
)
    requires
        returned is Ok ==> ledger.org.data.workers_count < u64::MAX,
        add_worker_effect(
            ledger.org,
            ledger.records,
            add_worker_result(
                ledger.org,
                ledger.records,
                caller,
                worker_pubkey,
                salary,
                created_at,
                worker_address_spec(ledger.org.address, worker_pubkey, ledger.program_id),
            ),
            org_after,
            records_after,
            returned,
        ),
    ensures
        ledger.step(Operation::AddWorker { caller, worker_pubkey, salary, created_at }) == (Ledger {
            org: org_after,
            records: records_after,
            ..ledger
        }),
{
}

/// What `process_payroll` leaves behind is the step of the ledger.
pub proof fn lemma_payroll_is_step(
    ledger: Ledger,
    caller: Address,
    cycle: u64,
    pairs: Seq<(Address, Address)>,
    org_after: OrgAccount,
    records_after: Seq<WorkerAccount>,
    returned: Result<PayrollReceipt, PayrollError>,
)
    requires
        payroll_effect(
            ledger.org,
            ledger.records,
            cycle,
            pairs,
            payroll_result(
                ledger.org,
                ledger.records,
                caller,
                cycle,
                pairs,
                worker_derivations(ledger.org.address, pairs, ledger.program_id),
            ),
            org_after,
            records_after,
            returned,
        ),
    ensures
        ledger.step(Operation::Payroll { caller, cycle, pairs }) == (Ledger {
            org: org_after,
            records: records_after,
            ..ledger
        }),
{
}

/// A payroll run pays no more than the treasury has.
pub proof fn lemma_payroll_within_treasury(
    org: OrgAccount,
    records: Seq<WorkerAccount>,
    caller: Address,
    cycle: u64,
    pairs: Seq<(Address, Address)>,
    derived: Seq<Option<(Address, u8)>>,
)
    requires
        payroll_result(org, records, caller, cycle, pairs, derived) is Ok,
    ensures
        payroll_result(org, records, caller, cycle, pairs, derived) matches Ok(paid) && 0 <= paid
            <= org.data.treasury,
{
    lemma_disbursed_within_total(records, pairs, derived, cycle, pairs.len());
}

/// Every operation keeps a well-formed ledger well-formed: the treasury is
/// never negative and never more than the balance held, and the count of
/// workers is the number of the records that were made.
pub proof fn lemma_step_preserves_wf(ledger: Ledger, op: Operation)
    requires
        ledger.wf(),
    ensures
        ledger.step(op).wf(),
{
    match op {
        Operation::Fund { caller, amount } => {},
        Operation::Withdraw { caller, amount } => {},
        Operation::AddWorker { caller, worker_pubkey, salary, created_at } => {},
        Operation::Payroll { caller, cycle, pairs } => {
            let derived = worker_derivations(ledger.org.address, pairs, ledger.program_id);
            if payroll_result(ledger.org, ledger.records, caller, cycle, pairs, derived) is Ok {
                lemma_payroll_within_treasury(
                    ledger.org,
                    ledger.records,
                    caller,
                    cycle,
                    pairs,
                    derived,
                );
            }
        },
    }
}

/// After any sequence of operations on a well-formed ledger, the treasury is
/// not negative and not more than the balance held, and the count of workers
/// is the number of the records that were made.
pub proof fn lemma_run_preserves_wf(ledger: Ledger, ops: Seq<Operation>)
    requires
        ledger.wf(),
    ensures
        ledger.run(ops).wf(),
        0 <= ledger.run(ops).org.data.treasury <= ledger.run(ops).org.balance,
        ledger.run(ops).org.data.workers_count == ledger.run(ops).records.len(),
    decreases ops.len(),
{
    if ops.len() > 0 {
        lemma_run_preserves_wf(ledger, ops.drop_last());
        lemma_step_preserves_wf(ledger.run(ops.drop_last()), ops.last());
    }
}

/// The count of workers grows by one with every registration that is not
/// refused, and with nothing else.
pub proof fn lemma_workers_count_is_registrations(ledger: Ledger, ops: Seq<Operation>)
    ensures
        ledger.run(ops).org.data.workers_count == ledger.org.data.workers_count
            + ledger.registrations(ops),
    decreases ops.len(),
{
    if ops.len() > 0 {
        lemma_workers_count_is_registrations(ledger, ops.drop_last());
    }
}

/// The balance held and the treasury never part: every operation moves both
/// by the same amount.
pub proof fn lemma_step_keeps_reserve(ledger: Ledger, op: Operation)
    requires
        ledger.wf(),
    ensures
        ledger.step(op).org.balance - ledger.step(op).org.data.treasury == ledger.org.balance
            - ledger.org.data.treasury,
{
    match op {
        Operation::Payroll { caller, cycle, pairs } => {
            let derived = worker_derivations(ledger.org.address, pairs, ledger.program_id);
            if payroll_result(ledger.org, ledger.records, caller, cycle, pairs, derived) is Ok {
                lemma_payroll_within_treasury(
                    ledger.org,
                    ledger.records,
                    caller,
                    cycle,
                    pairs,
                    derived,
                );
            }
        },
        _ => {},
    }
}

/// A newly created organization, with no records, is a well-formed ledger.
pub proof fn lemma_new_ledger_wf(
    program_id: Address,
    organizations: Seq<Address>,
    authority: Address,
    name: String,
    created_at: i64,
    derived: Option<(Address, u8)>,
)
    requires
        create_org_result(organizations, authority, name, created_at, derived) is Ok,
    ensures
        (Ledger {
            program_id,
            org: create_org_result(organizations, authority, name, created_at, derived).unwrap(),
            records: Seq::empty(),
        }).wf(),
{
}

/// An organization is created once: after its creation, every further
/// creation under the same authority and name is refused with `InvalidName`,
/// whenever it is asked for and whatever has become of the organization, and
/// leaves the addresses kept as they are.  Nothing that is created in
/// between makes room for it.
pub proof fn lemma_second_creation_rejected(
    program_id: Address,
    organizations: Seq<Address>,
    authority: Address,
    name: String,
    created_at: i64,
    later: Seq<Address>,
    created_again: i64,
)
    requires
        create_org_result(
            organizations,
            authority,
            name,
            created_at,
            org_address_spec(authority, name@, program_id),
        ) is Ok,
    ensures
        ({
            let derived = org_address_spec(authority, name@, program_id);
            let first = create_org_result(organizations, authority, name, created_at, derived);
            let kept = organizations.push(first.unwrap().address) + later;
            let second = create_org_result(kept, authority, name, created_again, derived);
            &&& create_org_effect(organizations, first, organizations.push(first.unwrap().address))
            &&& second == Err::<OrgAccount, PayrollError>(PayrollError::InvalidName)
            &&& create_org_effect(kept, second, kept)
        }),
{
    let derived = org_address_spec(authority, name@, program_id);
    let first = create_org_result(organizations, authority, name, created_at, derived);
    let address = first.unwrap().address;
    let kept = organizations.push(address) + later;
    assert(kept[organizations.len() as int] == address);
}

/// Nothing is undone: an operation removes no record, moves none, changes no
/// salary and takes no payment back, and the count of workers does not fall.
pub proof fn lemma_step_keeps_history(ledger: Ledger, op: Operation)
    requires
        ledger.wf(),
    ensures
        ledger.step(op).program_id == ledger.program_id,
        ledger.step(op).org.address == ledger.org.address,
        ledger.step(op).org.data.authority == ledger.org.data.authority,
        ledger.step(op).org.data.workers_count >= ledger.org.data.workers_count,
        ledger.step(op).records.len() >= ledger.records.len(),
        forall|i: int|
            0 <= i < ledger.records.len() ==> {
                let before = #[trigger] ledger.records[i];
                let after = ledger.step(op).records[i];
                &&& after.address == before.address
                &&& after.worker.worker_pubkey == before.worker.worker_pubkey
                &&& after.worker.salary == before.worker.salary
                &&& after.worker.last_paid_cycle >= before.worker.last_paid_cycle
            },
{
}

/// A caller that is not the authority is refused by every operation, with
/// `Unauthorized`, whatever else it asks for.
pub proof fn lemma_unauthorized_rejected(
    org: OrgAccount,
    records: Seq<WorkerAccount>,
    caller: Address,
    amount: u64,
    worker_pubkey: Address,
    salary: u64,
    created_at: i64,
    derived: Option<(Address, u8)>,
    cycle: u64,
    pairs: Seq<(Address, Address)>,
    derivations: Seq<Option<(Address, u8)>>,
)
    requires
        caller != org.data.authority,
    ensures
        fund_treasury_result(org, caller, amount) == Err::<Transfer, PayrollError>(
            PayrollError::Unauthorized,
        ),
        withdraw_result(org, caller, amount) == Err::<Transfer, PayrollError>(
            PayrollError::Unauthorized,
        ),
        add_worker_result(org, records, caller, worker_pubkey, salary, created_at, derived)
            == Err::<WorkerAccount, PayrollError>(PayrollError::Unauthorized),
        payroll_result(org, records, caller, cycle, pairs, derivations) == Err::<int, PayrollError>(
            PayrollError::Unauthorized,
        ),
{
}

/// An operation of a caller that is not the authority leaves the ledger as
/// it was.
pub proof fn lemma_unauthorized_changes_nothing(ledger: Ledger, op: Operation)
    requires
        match op {
            Operation::Fund { caller, .. } => caller != ledger.org.data.authority,
            Operation::Withdraw { caller, .. } => caller != ledger.org.data.authority,
            Operation::AddWorker { caller, .. } => caller != ledger.org.data.authority,
            Operation::Payroll { caller, .. } => caller != ledger.org.data.authority,
        },
    ensures
        ledger.step(op) == ledger,
{
}

/// What the registration of a wallet returns in a ledger.
pub open spec fn registration(
    ledger: Ledger,
    caller: Address,
    worker_pubkey: Address,
    salary: u64,
    created_at: i64,
) -> Result<WorkerAccount, PayrollError> {
    add_worker_result(
        ledger.org,
        ledger.records,
        caller,
        worker_pubkey,
        salary,
        created_at,
        worker_address_spec(ledger.org.address, worker_pubkey, ledger.program_id),
    )
}

/// A wallet is registered once: after its registration, every further
/// registration of the same wallet is refused, with `InvalidWorkerWallet`
/// where the authority asks for it with a salary, and leaves the records and
/// the count of workers as they are.
pub proof fn lemma_second_registration_rejected(
    ledger: Ledger,
    worker_pubkey: Address,
    caller: Address,
    salary: u64,
    created_at: i64,
    caller_again: Address,
    salary_again: u64,
    created_again: i64,
)
    requires
        ledger.registers(Operation::AddWorker { caller, worker_pubkey, salary, created_at }),
    ensures
        ({
            let after = ledger.step(
                Operation::AddWorker { caller, worker_pubkey, salary, created_at },
            );
            let again = Operation::AddWorker {
                caller: caller_again,
                worker_pubkey,
                salary: salary_again,
                created_at: created_again,
            };
            let refusal = registration(
                after,
                caller_again,
                worker_pubkey,
                salary_again,
                created_again,
            );
            &&& refusal is Err
            &&& caller_again == ledger.org.data.authority && salary_again > 0 ==> refusal == Err::<
                WorkerAccount,
                PayrollError,
            >(PayrollError::InvalidWorkerWallet)
            &&& after.step(again) == after
            &&& after.step(again).org.data.workers_count == ledger.org.data.workers_count + 1
        }),
{
    let after = ledger.step(Operation::AddWorker { caller, worker_pubkey, salary, created_at });
    let account = after.records.last();
    assert(after.records == ledger.records.push(account));
    assert(after.records[after.records.len() - 1].address == account.address);
    assert(holds(after.records, account.address));
}

/// In a well-formed ledger no two records are kept at one address, and no two
/// records belong to one wallet.
pub proof fn lemma_registered_workers_distinct(ledger: Ledger, i: int, j: int)
    requires
        ledger.wf(),
        0 <= i < j < ledger.records.len(),
    ensures
        ledger.records[i].address != ledger.records[j].address,
        ledger.records[i].worker.worker_pubkey != ledger.records[j].worker.worker_pubkey,
{
}

/// In a well-formed ledger the wallet of every record is refused as a new
/// worker, and the refusal changes nothing.
pub proof fn lemma_registered_wallet_rejected(
    ledger: Ledger,
    i: int,
    caller: Address,
    salary: u64,
    created_at: i64,
)
    requires
        ledger.wf(),
        0 <= i < ledger.records.len(),
    ensures
        ({
            let worker_pubkey = ledger.records[i].worker.worker_pubkey;
            &&& registration(ledger, caller, worker_pubkey, salary, created_at) is Err
            &&& ledger.step(Operation::AddWorker { caller, worker_pubkey, salary, created_at })
                == ledger
        }),
{
    let record = ledger.records[i];
    assert(holds(ledger.records, record.address));
}

/// Once a payroll has run for a cycle, no pair of the batch is due for that
/// cycle any more.
pub proof fn lemma_settled_not_due(
    records: Seq<WorkerAccount>,
    pairs: Seq<(Address, Address)>,
    cycle: u64,
    i: int,
)
    requires
        0 <= i < pairs.len(),
    ensures
        ({
            let after = settled(records, pairs, cycle, pairs.len());
            &&& position(after, pairs[i].0) == position(records, pairs[i].0)
            &&& lookup(after, pairs[i].0) matches Some(worker) ==> !worker.is_due(cycle)
            &&& lookup(after, pairs[i].0) is Some == lookup(records, pairs[i].0) is Some
        }),
{
    let after = settled(records, pairs, cycle, pairs.len());
    lemma_position_same_addresses(records, after, pairs[i].0);
    if holds(records, pairs[i].0) {
        lemma_position_holds(records, pairs[i].0);
        let k = position(records, pairs[i].0).unwrap();
        assert(claimed(records, pairs, pairs.len(), k));
    }
}

/// Running the payroll of a cycle a second time pays nobody: after a run, the
/// same batch for the same cycle is accepted again, pays nothing and changes
/// nothing.  So no worker is paid twice for a cycle.
pub proof fn lemma_payroll_idempotent(
    org: OrgAccount,
    records: Seq<WorkerAccount>,
    caller: Address,
    cycle: u64,
    pairs: Seq<(Address, Address)>,
    derived: Seq<Option<(Address, u8)>>,
)
    requires
        org.wf(),
        payroll_result(org, records, caller, cycle, pairs, derived) is Ok,
    ensures
        ({
            let paid = payroll_result(org, records, caller, cycle, pairs, derived).unwrap();
            let org_after = org.debited(paid);
            let records_after = settled(records, pairs, cycle, pairs.len());
            &&& payroll_result(org_after, records_after, caller, cycle, pairs, derived) == Ok::<
                int,
                PayrollError,
            >(0)
            &&& payments(org.address, records_after, pairs, cycle, pairs.len()) == Seq::<
                Transfer,
            >::empty()
            &&& settled(records_after, pairs, cycle, pairs.len()) == records_after
            &&& org_after.debited(0) == org_after
        }),
{
    let paid = payroll_result(org, records, caller, cycle, pairs, derived).unwrap();
    let records_after = settled(records, pairs, cycle, pairs.len());
    lemma_payroll_within_treasury(org, records, caller, cycle, pairs, derived);
    lemma_nothing_due_again(org.address, records, pairs, derived, cycle, pairs.len());
    assert(settled(records_after, pairs, cycle, pairs.len()) =~= records_after) by {
        assert forall|k: int| 0 <= k < records_after.len() implies !(
        records_after[k].worker.is_due(cycle) && claimed(records_after, pairs, pairs.len(), k)) by {
            if claimed(records_after, pairs, pairs.len(), k) {
                let i = choose|i: int|
                    0 <= i < pairs.len() && position(records_after, (#[trigger] pairs[i]).0) == Some(
                        k,
                    );
                lemma_settled_not_due(records, pairs, cycle, i);
            }
        }
    }
}

/// The payroll of a cycle is a step that changes nothing when it is taken
/// again: the second run of a batch for the same cycle leaves the ledger as
/// the first has left it.
pub proof fn lemma_payroll_step_idempotent(
    ledger: Ledger,
    caller: Address,
    cycle: u64,
    pairs: Seq<(Address, Address)>,
)
    requires
        ledger.org.wf(),
    ensures
        ledger.step(Operation::Payroll { caller, cycle, pairs }).step(
            Operation::Payroll { caller, cycle, pairs },
        ) == ledger.step(Operation::Payroll { caller, cycle, pairs }),
{
    let derived = worker_derivations(ledger.org.address, pairs, ledger.program_id);
    if payroll_result(ledger.org, ledger.records, caller, cycle, pairs, derived) is Ok {
        lemma_payroll_idempotent(ledger.org, ledger.records, caller, cycle, pairs, derived);
    }
}

/// After a run for a cycle, the first `n` pairs of the same batch are valid
/// again, none of them is due, and none is paid.
proof fn lemma_nothing_due_again(
    source: Address,
    records: Seq<WorkerAccount>,
    pairs: Seq<(Address, Address)>,
    derived: Seq<Option<(Address, u8)>>,
    cycle: u64,
    n: nat,
)
    requires
        n <= pairs.len(),
        validated(records, pairs, derived, cycle, pairs.len()) is Ok,
    ensures
        validated(records, pairs, derived, cycle, n) is Ok,
        validated(settled(records, pairs, cycle, pairs.len()), pairs, derived, cycle, n) == Ok::<
            int,
            PayrollError,
        >(0),
        disbursed(settled(records, pairs, cycle, pairs.len()), pairs, cycle, n) == 0,
        payments(source, settled(records, pairs, cycle, pairs.len()), pairs, cycle, n) == Seq::<
            Transfer,
        >::empty(),
    decreases n,
{
    if validated(records, pairs, derived, cycle, n) is Err {
        lemma_validated_failure(records, pairs, derived, cycle, n, pairs.len());
    }
    if n > 0 {
        lemma_nothing_due_again(source, records, pairs, derived, cycle, (n - 1) as nat);
        lemma_settled_not_due(records, pairs, cycle, n - 1);
    }
}

/// Where no record is named twice in a batch, the run pays exactly the
/// salaries that were due: the total of the validation.
pub proof fn lemma_disbursed_is_total(
    records: Seq<WorkerAccount>,
    pairs: Seq<(Address, Address)>,
    derived: Seq<Option<(Address, u8)>>,
    cycle: u64,
    n: nat,
)
    requires
        validated(records, pairs, derived, cycle, n) is Ok,
        forall|i: int, j: int|
            0 <= i < j < n ==> (#[trigger] pairs[i]).0 != (#[trigger] pairs[j]).0,
    ensures
        validated(records, pairs, derived, cycle, n) == Ok::<int, PayrollError>(
            disbursed(records, pairs, cycle, n),
        ),
    decreases n,
{
    if n > 0 {
        lemma_disbursed_is_total(records, pairs, derived, cycle, (n - 1) as nat);
        assert(first_claim(pairs, n - 1));
    }
}

/// Within one run no record is paid twice: of two pairs that are paid, the
/// record addresses differ.
pub proof fn lemma_paid_once_in_a_run(
    records: Seq<WorkerAccount>,
    pairs: Seq<(Address, Address)>,
    cycle: u64,
    i: int,
    j: int,
)
    requires
        0 <= i < j < pairs.len(),
        pays(records, pairs, cycle, i),
        pays(records, pairs, cycle, j),
    ensures
        pairs[i].0 != pairs[j].0,
{
}

} // verus!
