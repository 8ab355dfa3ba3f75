//! Funds on the move.

use crate::address::Address;
use vstd::prelude::*;

verus! {

/// Funds that an operation has booked and that are to move from one address
/// to another.
#[derive(Clone, Copy, Debug, PartialEq, Eq)]
pub struct Transfer {
    /// Where the funds leave.
    pub from: Address,
    /// Where the funds arrive.
    pub to: Address,
    /// How much moves.
    pub amount: u64,
}

/// The sum of the amounts of a list of transfers.
pub open spec fn total_amount(transfers: Seq<Transfer>) -> int
    decreases transfers.len(),
{
    if transfers.len() == 0 {
        0
    } else {
        total_amount(transfers.drop_last()) + transfers.last().amount
    }
}

} // verus!
