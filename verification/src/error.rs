//! The ways in which a ledger operation can be refused.

use vstd::prelude::*;

verus! {

/// Why an operation was refused. A refused operation changes nothing.
#[derive(Debug, Clone, Copy, PartialEq, Eq, Structural)]
pub enum PayrollError {
    /// The ledger already has an owner and a token.
    AlreadyInitialized,
    /// The caller is not the owner of the ledger.
    Unauthorized,
    /// The salary is zero or negative.
    InvalidSalary,
    /// The registry already holds an employee with this identity.
    EmployeeAlreadyExists,
    /// The registry holds no employee with this identity.
    EmployeeNotFound,
    /// The employee has been deactivated.
    EmployeeInactive,
    /// The transfer service did not confirm a transfer.
    TransferFailure,
}

impl PayrollError {
    /// The text that describes each error.
    pub open spec fn spec_message(self) -> Seq<char> {
        match self {
            PayrollError::AlreadyInitialized => "Contract already initialized"@,
            PayrollError::Unauthorized => "Only owner can perform this action"@,
            PayrollError::InvalidSalary => "Salary must be positive"@,
            PayrollError::EmployeeAlreadyExists => "Employee already exists"@,
            PayrollError::EmployeeNotFound => "Employee not found"@,
            PayrollError::EmployeeInactive => "Employee is not active"@,
            PayrollError::TransferFailure => "Transfer failed"@,
        }
    }

    /// A short description of the error, fit to show to a caller.
    pub fn message(&self) -> (text: &'static str)
        ensures
            text@ == self.spec_message(),
    {
        match self {
            PayrollError::AlreadyInitialized => "Contract already initialized",
            PayrollError::Unauthorized => "Only owner can perform this action",
            PayrollError::InvalidSalary => "Salary must be positive",
            PayrollError::EmployeeAlreadyExists => "Employee already exists",
            PayrollError::EmployeeNotFound => "Employee not found",
            PayrollError::EmployeeInactive => "Employee is not active",
            PayrollError::TransferFailure => "Transfer failed",
        }
    }
}

} // verus!
