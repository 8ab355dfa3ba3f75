//! Creation of an organization.

use crate::address::{org_address, org_address_spec, Address};
use crate::errors::PayrollError;
use crate::states::org_registry::OrgRegistry;
use crate::states::organization::{OrgAccount, Organization};
use vstd::prelude::*;

verus! {

/// Whether a name is short enough for an organization: it has no more than
/// `Organization::MAX_NAME_LEN` characters.
pub open spec fn name_fits(name: Seq<char>) -> bool {
    name.len() <= Organization::MAX_NAME_LEN
}

/// What a creation makes, given the addresses at which organizations are
/// kept: the new organization at its address, with nothing held, nothing in
/// the treasury and no workers; or the refusal of a name that is too long,
/// that has no address, or at whose address an organization is kept already.
pub open spec fn create_org_result(
    organizations: Seq<Address>,
    authority: Address,
    name: String,
    created_at: i64,
    derived: Option<(Address, u8)>,
) -> Result<OrgAccount, PayrollError> {
    if !name_fits(name@) {
        Err(PayrollError::InvalidName)
    } else {
        match derived {
            None => Err(PayrollError::InvalidName),
            Some((address, bump)) => if organizations.contains(address) {
                Err(PayrollError::InvalidName)
            } else {
                Ok(
                    OrgAccount {
                        address,
                        balance: 0,
                        data: Organization {
                            authority,
                            name,
                            treasury: 0,
                            workers_count: 0,
                            created_at,
                            bump,
                        },
                    },
                )
            },
        }
    }
}

/// What a creation leaves behind, given what it made: after a refusal the
/// addresses kept are as they were; after a creation the address of the new
/// organization is the last of them.
pub open spec fn create_org_effect(
    organizations: Seq<Address>,
    result: Result<OrgAccount, PayrollError>,
    organizations_after: Seq<Address>,
) -> bool {
    match result {
        Ok(account) => organizations_after == organizations.push(account.address),
        Err(_) => organizations_after == organizations,
    }
}

/// Creates the organization that `authority` has under `name`, at the
/// address that was derived for the two, and keeps the address.
///
/// An organization is created once: a creation at an address where one is
/// kept already is refused with `InvalidName`.  So is a name of more than
/// `Organization::MAX_NAME_LEN` characters, and one for which no address was
/// derived.  A refusal changes nothing.
pub fn create_org_with(
    organizations: &mut OrgRegistry,
    authority: Address,
    name: String,
    created_at: i64,
    derived: Option<(Address, u8)>,
) -> (returned: Result<OrgAccount, PayrollError>)
    ensures
        returned == create_org_result(old(organizations)@, authority, name, created_at, derived),
        create_org_effect(old(organizations)@, returned, final(organizations)@),
        returned matches Ok(account) ==> account.wf(),
        old(organizations).wf() ==> final(organizations).wf(),
{
    if name.as_str().unicode_len() > Organization::MAX_NAME_LEN {
        return Err(PayrollError::InvalidName);
    }
    let (address, bump) = match derived {
        Some(found) => found,
        None => {
            return Err(PayrollError::InvalidName);
        },
    };
    if !organizations.insert(address) {
        return Err(PayrollError::InvalidName);
    }
    Ok(
        OrgAccount {
            address,
            balance: 0,
            data: Organization {
                authority,
                name,
                treasury: 0,
                workers_count: 0,
                created_at,
                bump,
            },
        },
    )
}

/// Creates the organization that `authority` has under `name`, at the
/// address derived from the two, and keeps the address.
///
/// An organization is created once: the second creation under an authority
/// and a name meets the address of the first and is refused with
/// `InvalidName`.  So is a name of more than `Organization::MAX_NAME_LEN`
/// characters, and one for which the derivation finds no address.  A refusal
/// changes nothing.
pub fn create_org(
    organizations: &mut OrgRegistry,
    authority: Address,
    name: String,
    created_at: i64,
    program_id: &Address,
) -> (returned: Result<OrgAccount, PayrollError>)
    ensures
        returned == create_org_result(
            old(organizations)@,
            authority,
            name,
            created_at,
            org_address_spec(authority, name@, *program_id),
        ),
        create_org_effect(old(organizations)@, returned, final(organizations)@),
        returned matches Ok(account) ==> account.wf(),
        old(organizations).wf() ==> final(organizations).wf(),
{
    if name.as_str().unicode_len() > Organization::MAX_NAME_LEN {
        return Err(PayrollError::InvalidName);
    }
    let derived = org_address(&authority, name.as_str(), program_id);
    create_org_with(organizations, authority, name, created_at, derived)
}

} // verus!
