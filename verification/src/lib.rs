//! A payroll ledger: a registry of employees that only its owner may change,
//! salary disbursements settled through a transfer service, and an
//! append-only audit trail of every disbursement.
//!
//! [`PayrollContract`] is the ledger. Its view is a [`LedgerView`], and module
//! [`ledger`] says of each operation what it does to that view; module
//! [`laws`] proves what holds of every ledger whatever is done to it.
//!
//! The ledger moves no value and keeps no clock. To pay, ask it which
//! transfers are due ([`PayrollContract::payment_due`],
//! [`PayrollContract::payroll_due`]), have the transfer service perform
//! them, and hand the outcomes and the time to
//! [`PayrollContract::pay_employee`] or
//! [`PayrollContract::pay_all_employees`], which write the records or leave
//! the ledger as it was.

pub mod contract;
pub mod employee;
pub mod error;
pub mod history;
pub mod identity;
pub mod laws;
pub mod ledger;
pub mod transfer;

pub use contract::PayrollContract;
pub use employee::{Employee, EmployeeView};
pub use error::PayrollError;
pub use history::{PayrollRecord, PayrollRecordView};
pub use identity::Identity;
pub use ledger::{LedgerView, Operation, Step};
pub use transfer::{TransferOutcome, TransferRequest, TransferRequestView};
