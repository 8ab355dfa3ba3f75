//! The failures that the ledger's operations report.

use vstd::prelude::*;

verus! {

/// Why an operation was refused.  Every failure leaves all state as it was.
#[derive(Clone, Copy, Debug, PartialEq, Eq, Structural)]
pub enum PayrollError {
    /// The caller is not the organization's authority.
    Unauthorized,
    /// The organization's name cannot be used.
    InvalidName,
    /// A salary of zero.
    InvalidSalary,
    /// An amount of zero.
    InvalidAmount,
    /// The treasury does not cover the amount.
    InsufficientFunds,
    /// A worker's record was not supplied.
    MissingWorkerAccount,
    /// A supplied record address is not the one derived for its wallet.
    InvalidWorkerPDA,
    /// The wallet cannot be registered as a worker.
    InvalidWorkerWallet,
}

impl PayrollError {
    /// The text that describes the failure.
    pub open spec fn spec_message(self) -> Seq<char> {
        match self {
            PayrollError::Unauthorized => "Unauthorized access"@,
            PayrollError::InvalidName => "Invalid organization name length"@,
            PayrollError::InvalidSalary => "Invalid salary amount"@,
            PayrollError::InvalidAmount => "Invalid amount"@,
            PayrollError::InsufficientFunds => "Insufficient funds in treasury"@,
            PayrollError::MissingWorkerAccount => "Missing worker account in remaining accounts"@,
            PayrollError::InvalidWorkerPDA => "Invalid worker PDA"@,
            PayrollError::InvalidWorkerWallet => "Invalid worker wallet pubkey"@,
        }
    }

    /// The text that describes the failure.
    pub fn message(&self) -> (text: &'static str)
        ensures
            text@ == self.spec_message(),
    {
        match self {
            PayrollError::Unauthorized => "Unauthorized access",
            PayrollError::InvalidName => "Invalid organization name length",
            PayrollError::InvalidSalary => "Invalid salary amount",
            PayrollError::InvalidAmount => "Invalid amount",
            PayrollError::InsufficientFunds => "Insufficient funds in treasury",
            PayrollError::MissingWorkerAccount => "Missing worker account in remaining accounts",
            PayrollError::InvalidWorkerPDA => "Invalid worker PDA",
            PayrollError::InvalidWorkerWallet => "Invalid worker wallet pubkey",
        }
    }
}

} // verus!
