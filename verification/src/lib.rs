//! Accounting core of a crowd-lending platform: funding campaigns, the
//! investors who fund them, the loan issued against a funded campaign, its
//! repayment and the pro-rata payout to the investors.
//!
//! - [`types`]: the records, the failures and the events.
//! - [`math`]: percentages and pro-rata shares in exact integer arithmetic.
//! - [`rules`]: what each operation decides on the records it concerns.
//! - [`model`]: the state as a mathematical value, and its invariant.
//! - [`lending`]: the engine that holds the ledgers.
//! - [`history`]: runs of operations.
//! - [`laws`]: what holds of the operations whatever the calls.

pub mod types;
pub mod math;
pub mod rules;
pub mod model;
pub mod lending;
pub mod history;
pub mod laws;

pub use lending::BochicaLending;
pub use types::{
    AccountId, Balance, Claimed, Deposited, Error, Investment, Loan, Project, ProjectStatus,
    Repaid, Timestamp, Transfer, Withdrawn,
};
