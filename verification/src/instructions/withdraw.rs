//! Withdrawal: the authority takes funds out of the treasury.

use crate::address::Address;
use crate::errors::PayrollError;
use crate::states::organization::OrgAccount;
use crate::states::transfer::Transfer;
use vstd::prelude::*;

verus! {

/// What a withdrawal returns: the transfer that brings the amount from the
/// organization to the caller, or why the withdrawal is refused.
pub open spec fn withdraw_result(org: OrgAccount, caller: Address, amount: u64) -> Result<
    Transfer,
    PayrollError,
> {
    if caller != org.data.authority {
        Err(PayrollError::Unauthorized)
    } else if amount == 0 {
        Err(PayrollError::InvalidAmount)
    } else if amount > org.data.treasury {
        Err(PayrollError::InsufficientFunds)
    } else {
        Ok(Transfer { from: org.address, to: caller, amount })
    }
}

/// Takes `amount` out of the organization's balance and of its treasury, both
/// or neither, and returns the transfer that brings the amount to the caller.
///
/// A caller that is not the authority is refused with `Unauthorized`, an
/// amount of zero with `InvalidAmount`, an amount of more than the treasury
/// has with `InsufficientFunds`; a refusal changes nothing.
pub fn withdraw(org: &mut OrgAccount, caller: &Address, amount: u64) -> (returned: Result<
    Transfer,
    PayrollError,
>)
    requires
        old(org).wf(),
    ensures
        returned == withdraw_result(*old(org), *caller, amount),
        returned is Ok ==> *final(org) == old(org).debited(amount as int),
        returned is Err ==> *final(org) == *old(org),
        final(org).wf(),
{
    if *caller != org.data.authority {
        return Err(PayrollError::Unauthorized);
    }
    if amount == 0 {
        return Err(PayrollError::InvalidAmount);
    }
    if org.data.treasury < amount {
        return Err(PayrollError::InsufficientFunds);
    }
    org.data.treasury = org.data.treasury - amount;
    org.balance = org.balance - amount;
    Ok(Transfer { from: org.address, to: *caller, amount })
}

} // verus!
