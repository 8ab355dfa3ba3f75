//! The operations of the ledger.

pub mod add_worker;
pub mod create_org;
pub mod fund_treasury;
pub mod process_payroll;
pub mod withdraw;

pub use add_worker::{add_worker, add_worker_with};
pub use create_org::{create_org, create_org_with};
pub use fund_treasury::fund_treasury;
pub use process_payroll::{
    check_worker_address, process_payroll, process_payroll_with, validate_pairs, PayrollReceipt,
};
pub use withdraw::withdraw;
