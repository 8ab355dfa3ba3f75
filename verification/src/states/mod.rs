//! The records that the ledger keeps.

pub mod org_registry;
pub mod organization;
pub mod registry;
pub mod transfer;
pub mod worker;

pub use org_registry::OrgRegistry;
pub use organization::{OrgAccount, Organization};
pub use registry::WorkerRegistry;
pub use transfer::Transfer;
pub use worker::{Worker, WorkerAccount};
