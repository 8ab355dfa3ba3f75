//! Funding: the authority adds to the organization's balance and treasury.

use crate::address::Address;
use crate::errors::PayrollError;
use crate::states::organization::OrgAccount;
use crate::states::transfer::Transfer;
use vstd::prelude::*;

verus! {

/// What a funding returns: the transfer that brings the amount from the
/// caller to the organization, or why the funding is refused.
pub open spec fn fund_treasury_result(org: OrgAccount, caller: Address, amount: u64) -> Result<
    Transfer,
    PayrollError,
> {
    if caller != org.data.authority {
        Err(PayrollError::Unauthorized)
    } else if amount == 0 {
        Err(PayrollError::InvalidAmount)
    } else {
        Ok(Transfer { from: caller, to: org.address, amount })
    }
}

/// Adds `amount` to the organization's balance and to its treasury, both or
/// neither, and returns the transfer that brings the amount from the caller.
///
/// A caller that is not the authority is refused with `Unauthorized`, an
/// amount of zero with `InvalidAmount`; a refusal changes nothing.  Where the
/// amount is added, the new balance must fit in 64 bits.
pub fn fund_treasury(org: &mut OrgAccount, caller: &Address, amount: u64) -> (returned: Result<
    Transfer,
    PayrollError,
>)
    requires
        old(org).wf(),
        *caller == old(org).data.authority && amount > 0 ==> old(org).balance + amount <= u64::MAX,
    ensures
        returned == fund_treasury_result(*old(org), *caller, amount),
        returned is Ok ==> *final(org) == old(org).credited(amount as int),
        returned is Err ==> *final(org) == *old(org),
        final(org).wf(),
{
    if *caller != org.data.authority {
        return Err(PayrollError::Unauthorized);
    }
    if amount == 0 {
        return Err(PayrollError::InvalidAmount);
    }
    org.balance = org.balance + amount;
    org.data.treasury = org.data.treasury + amount;
    Ok(Transfer { from: *caller, to: org.address, amount })
}

} // verus!
