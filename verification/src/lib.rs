//! A payroll and treasury ledger.
//!
//! An organization holds a balance, registers workers with a recurring
//! salary, and pays them in batches, at most once per payroll cycle.  Records
//! are located by addresses derived from their owners' keys.

pub mod address;
pub mod errors;
pub mod instructions;
pub mod ledger;
pub mod states;

pub use instructions::{add_worker, create_org, fund_treasury, process_payroll, withdraw};
