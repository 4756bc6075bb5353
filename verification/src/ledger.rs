//! The ledger as a mathematical value, and each operation as a function on it.
//!
//! Everything the executable ledger promises is stated over this model: an
//! operation takes a ledger and its inputs to a [`Step`], the ledger that
//! results and the answer given to the caller.

use vstd::prelude::*;
use crate::employee::EmployeeView;
use crate::error::PayrollError;
use crate::history::PayrollRecordView;
use crate::transfer::{all_confirmed, TransferOutcome, TransferRequestView};

verus! {

/// The state of a ledger.
pub struct LedgerView {
    /// Who may change the ledger; `None` until the ledger is initialized.
    pub owner: Option<Seq<char>>,
    /// The asset in which salaries are paid; set together with the owner.
    pub token: Option<Seq<char>>,
    /// The registry, in the order in which the employees were added.
    pub employees: Seq<EmployeeView>,
    /// The audit trail, oldest record first.
    pub history: Seq<PayrollRecordView>,
}

/// What an operation leaves behind: the ledger after it, and its answer.
pub struct Step {
    pub ledger: LedgerView,
    pub result: Result<(), PayrollError>,
}

/// The record that a confirmed disbursement to `employee` writes.
pub open spec fn record_of(employee: EmployeeView, period: Seq<char>, timestamp: u64)
    -> PayrollRecordView {
    PayrollRecordView {
        employee: employee.address,
        amount: employee.salary,
        timestamp,
        period,
    }
}

/// The transfer that a disbursement to `employee` needs.
pub open spec fn request_for(token: Seq<char>, caller: Seq<char>, employee: EmployeeView)
    -> TransferRequestView {
    TransferRequestView { token, from: caller, to: employee.address, amount: employee.salary }
}

/// The identities of `employees`, in the same order.
pub open spec fn identities_of(employees: Seq<EmployeeView>) -> Seq<Seq<char>> {
    employees.map_values(|e: EmployeeView| e.address)
}

/// The test that picks the employees that may be paid.
pub open spec fn is_active() -> spec_fn(EmployeeView) -> bool {
    |e: EmployeeView| e.active
}

/// The employees among `employees` that may be paid, in the same order.
pub open spec fn active_among(employees: Seq<EmployeeView>) -> Seq<EmployeeView> {
    employees.filter(is_active())
}

/// The records that a settled payroll writes for `employees`.
pub open spec fn records_for(employees: Seq<EmployeeView>, period: Seq<char>, timestamp: u64)
    -> Seq<PayrollRecordView> {
    active_among(employees).map_values(|e: EmployeeView| record_of(e, period, timestamp))
}

/// The transfers that a payroll needs for `employees`.
pub open spec fn requests_for(token: Seq<char>, caller: Seq<char>, employees: Seq<EmployeeView>)
    -> Seq<TransferRequestView> {
    active_among(employees).map_values(|e: EmployeeView| request_for(token, caller, e))
}

impl LedgerView {
    /// The ledger before it is initialized.
    pub open spec fn empty() -> LedgerView {
        LedgerView { owner: None, token: None, employees: Seq::empty(), history: Seq::empty() }
    }

    /// The identities of all employees, in the order in which they were added.
    pub open spec fn identities(self) -> Seq<Seq<char>> {
        identities_of(self.employees)
    }

    /// Whether the registry holds an employee with this identity.
    pub open spec fn has_employee(self, identity: Seq<char>) -> bool {
        self.identities().contains(identity)
    }

    /// Where in the registry the employee with this identity stands.
    pub open spec fn position(self, identity: Seq<char>) -> int {
        self.identities().index_of(identity)
    }

    /// The record of the employee with this identity.
    pub open spec fn employee(self, identity: Seq<char>) -> EmployeeView {
        self.employees[self.position(identity)]
    }

    /// Whether `caller` is the owner. Nobody owns a ledger that is not initialized.
    pub open spec fn is_owner(self, caller: Seq<char>) -> bool {
        self.owner == Some(caller)
    }

    /// What holds of every ledger that the operations can reach: owner and
    /// token are set together; a ledger without an owner has no employees; no
    /// two employees have the same identity; every salary is positive; and
    /// every record is of an employee in the registry and of a positive amount.
    pub open spec fn valid(self) -> bool {
        &&& self.owner is Some <==> self.token is Some
        &&& self.owner is None ==> self.employees.len() == 0
        &&& self.identities().no_duplicates()
        &&& forall|i: int|
            0 <= i < self.employees.len() ==> (#[trigger] self.employees[i]).salary > 0
        &&& forall|k: int|
            0 <= k < self.history.len() ==> {
                &&& self.has_employee((#[trigger] self.history[k]).employee)
                &&& self.history[k].amount > 0
            }
    }

    /// The operation is refused: nothing changes.
    pub open spec fn refuse(self, error: PayrollError) -> Step {
        Step { ledger: self, result: Err(error) }
    }

    /// The operation is carried out and leaves `self`.
    pub open spec fn accept(self) -> Step {
        Step { ledger: self, result: Ok(()) }
    }

    /// Sets owner and token, once.
    pub open spec fn initialize(self, owner: Seq<char>, token: Seq<char>) -> Step {
        if self.owner is Some {
            self.refuse(PayrollError::AlreadyInitialized)
        } else {
            LedgerView {
                owner: Some(owner),
                token: Some(token),
                employees: Seq::empty(),
                history: Seq::empty(),
            }.accept()
        }
    }

    /// What stands before every change: only the owner passes.
    pub open spec fn require_owner(self, caller: Seq<char>) -> Result<(), PayrollError> {
        if self.is_owner(caller) {
            Ok(())
        } else {
            Err(PayrollError::Unauthorized)
        }
    }

    /// Adds an active employee at the end of the registry.
    pub open spec fn add_employee(
        self,
        caller: Seq<char>,
        identity: Seq<char>,
        salary: i128,
        name: Seq<char>,
    ) -> Step {
        if !self.is_owner(caller) {
            self.refuse(PayrollError::Unauthorized)
        } else if salary <= 0 {
            self.refuse(PayrollError::InvalidSalary)
        } else if self.has_employee(identity) {
            self.refuse(PayrollError::EmployeeAlreadyExists)
        } else {
            LedgerView {
                employees: self.employees.push(
                    EmployeeView { address: identity, salary, name, active: true },
                ),
                ..self
            }.accept()
        }
    }

    /// Overwrites the salary of one employee and nothing else.
    pub open spec fn update_salary(self, caller: Seq<char>, identity: Seq<char>, salary: i128)
        -> Step {
        if !self.is_owner(caller) {
            self.refuse(PayrollError::Unauthorized)
        } else if salary <= 0 {
            self.refuse(PayrollError::InvalidSalary)
        } else if !self.has_employee(identity) {
            self.refuse(PayrollError::EmployeeNotFound)
        } else {
            LedgerView {
                employees: self.employees.update(
                    self.position(identity),
                    EmployeeView { salary, ..self.employee(identity) },
                ),
                ..self
            }.accept()
        }
    }

    /// Marks one employee as inactive, whether or not it was active before.
    pub open spec fn deactivate_employee(self, caller: Seq<char>, identity: Seq<char>) -> Step {
        if !self.is_owner(caller) {
            self.refuse(PayrollError::Unauthorized)
        } else if !self.has_employee(identity) {
            self.refuse(PayrollError::EmployeeNotFound)
        } else {
            LedgerView {
                employees: self.employees.update(
                    self.position(identity),
                    EmployeeView { active: false, ..self.employee(identity) },
                ),
                ..self
            }.accept()
        }
    }

    /// The record of one employee, if the registry holds it.
    pub open spec fn get_employee(self, identity: Seq<char>) -> Result<
        EmployeeView,
        PayrollError,
    > {
        if self.has_employee(identity) {
            Ok(self.employee(identity))
        } else {
            Err(PayrollError::EmployeeNotFound)
        }
    }

    /// The transfer that paying one employee needs, or why it cannot be paid.
    pub open spec fn payment_due(self, caller: Seq<char>, identity: Seq<char>) -> Result<
        TransferRequestView,
        PayrollError,
    > {
        if !self.is_owner(caller) {
            Err(PayrollError::Unauthorized)
        } else if !self.has_employee(identity) {
            Err(PayrollError::EmployeeNotFound)
        } else if !self.employee(identity).active {
            Err(PayrollError::EmployeeInactive)
        } else {
            Ok(request_for(self.token.unwrap(), caller, self.employee(identity)))
        }
    }

    /// Pays one employee: the record is written only for a confirmed transfer.
    pub open spec fn pay_employee(
        self,
        caller: Seq<char>,
        identity: Seq<char>,
        period: Seq<char>,
        timestamp: u64,
        outcome: TransferOutcome,
    ) -> Step {
        match self.payment_due(caller, identity) {
            Err(error) => self.refuse(error),
            Ok(_) => if outcome == TransferOutcome::Confirmed {
                LedgerView {
                    history: self.history.push(
                        record_of(self.employee(identity), period, timestamp),
                    ),
                    ..self
                }.accept()
            } else {
                self.refuse(PayrollError::TransferFailure)
            },
        }
    }

    /// The transfers that paying every active employee needs, in registry order.
    pub open spec fn payroll_due(self, caller: Seq<char>) -> Result<
        Seq<TransferRequestView>,
        PayrollError,
    > {
        if !self.is_owner(caller) {
            Err(PayrollError::Unauthorized)
        } else {
            Ok(requests_for(self.token.unwrap(), caller, self.employees))
        }
    }

    /// Pays every active employee, or nobody: the records are written only
    /// when each transfer that was due has its confirmation.
    pub open spec fn pay_all_employees(
        self,
        caller: Seq<char>,
        period: Seq<char>,
        timestamp: u64,
        outcomes: Seq<TransferOutcome>,
    ) -> Step {
        if !self.is_owner(caller) {
            self.refuse(PayrollError::Unauthorized)
        } else if outcomes != all_confirmed(active_among(self.employees).len()) {
            self.refuse(PayrollError::TransferFailure)
        } else {
            LedgerView {
                history: self.history + records_for(self.employees, period, timestamp),
                ..self
            }.accept()
        }
    }
}

/// One operation that may change a ledger, with its inputs.
pub enum Operation {
    Initialize { owner: Seq<char>, token: Seq<char> },
    AddEmployee { caller: Seq<char>, identity: Seq<char>, salary: i128, name: Seq<char> },
    UpdateSalary { caller: Seq<char>, identity: Seq<char>, salary: i128 },
    DeactivateEmployee { caller: Seq<char>, identity: Seq<char> },
    PayEmployee {
        caller: Seq<char>,
        identity: Seq<char>,
        period: Seq<char>,
        timestamp: u64,
        outcome: TransferOutcome,
    },
    PayAllEmployees {
        caller: Seq<char>,
        period: Seq<char>,
        timestamp: u64,
        outcomes: Seq<TransferOutcome>,
    },
}

impl Operation {
    /// Who must be the owner for the operation to go ahead. Initializing
    /// is the one operation that asks for no owner: it is what sets it.
    pub open spec fn acting_caller(self) -> Option<Seq<char>> {
        match self {
            Operation::Initialize { .. } => None,
            Operation::AddEmployee { caller, .. } => Some(caller),
            Operation::UpdateSalary { caller, .. } => Some(caller),
            Operation::DeactivateEmployee { caller, .. } => Some(caller),
            Operation::PayEmployee { caller, .. } => Some(caller),
            Operation::PayAllEmployees { caller, .. } => Some(caller),
        }
    }
}

impl LedgerView {
    /// What one operation leaves behind.
    pub open spec fn apply(self, operation: Operation) -> Step {
        match operation {
            Operation::Initialize { owner, token } => self.initialize(owner, token),
            Operation::AddEmployee { caller, identity, salary, name } => self.add_employee(
                caller,
                identity,
                salary,
                name,
            ),
            Operation::UpdateSalary { caller, identity, salary } => self.update_salary(
                caller,
                identity,
                salary,
            ),
            Operation::DeactivateEmployee { caller, identity } => self.deactivate_employee(
                caller,
                identity,
            ),
            Operation::PayEmployee {
                caller,
                identity,
                period,
                timestamp,
                outcome,
            } => self.pay_employee(caller, identity, period, timestamp, outcome),
            Operation::PayAllEmployees {
                caller,
                period,
                timestamp,
                outcomes,
            } => self.pay_all_employees(caller, period, timestamp, outcomes),
        }
    }

    /// The ledger after a run of operations, one after the other, whether
    /// each was carried out or refused.
    pub open spec fn run(self, operations: Seq<Operation>) -> LedgerView
        decreases operations.len(),
    {
        if operations.len() == 0 {
            self
        } else {
            self.run(operations.drop_last()).apply(operations.last()).ledger
        }
    }
}

/// Adding an employee keeps a valid ledger valid.
pub(crate) proof fn lemma_add_employee_valid(
    ledger: LedgerView,
    caller: Seq<char>,
    identity: Seq<char>,
    salary: i128,
    name: Seq<char>,
)
    requires
        ledger.valid(),
    ensures
        ledger.add_employee(caller, identity, salary, name).ledger.valid(),
{
    let after = ledger.add_employee(caller, identity, salary, name).ledger;
    if ledger.add_employee(caller, identity, salary, name).result is Ok {
        let added = EmployeeView { address: identity, salary, name, active: true };
        assert(after.identities() =~= ledger.identities().push(identity));
        assert forall|k: int| 0 <= k < after.history.len() implies after.has_employee(
            (#[trigger] after.history[k]).employee,
        ) by {
            let at = ledger.position(ledger.history[k].employee);
            assert(ledger.has_employee(ledger.history[k].employee));
            assert(after.identities()[at] == after.history[k].employee);
        }
    }
}

/// Updating a salary keeps a valid ledger valid.
pub(crate) proof fn lemma_update_salary_valid(
    ledger: LedgerView,
    caller: Seq<char>,
    identity: Seq<char>,
    salary: i128,
)
    requires
        ledger.valid(),
    ensures
        ledger.update_salary(caller, identity, salary).ledger.valid(),
{
    let after = ledger.update_salary(caller, identity, salary).ledger;
    if ledger.update_salary(caller, identity, salary).result is Ok {
        assert(after.identities() =~= ledger.identities());
    }
}

/// Deactivating an employee keeps a valid ledger valid.
pub(crate) proof fn lemma_deactivate_employee_valid(
    ledger: LedgerView,
    caller: Seq<char>,
    identity: Seq<char>,
)
    requires
        ledger.valid(),
    ensures
        ledger.deactivate_employee(caller, identity).ledger.valid(),
{
    let after = ledger.deactivate_employee(caller, identity).ledger;
    if ledger.deactivate_employee(caller, identity).result is Ok {
        assert(after.identities() =~= ledger.identities());
    }
}

/// One more employee at the end adds itself to the active ones, if it is active.
pub(crate) proof fn lemma_active_among_push(employees: Seq<EmployeeView>, last: EmployeeView)
    ensures
        active_among(employees.push(last)) == if last.active {
            active_among(employees).push(last)
        } else {
            active_among(employees)
        },
{
    employees.lemma_filter_push(last, is_active());
}

/// One more employee at the end adds its record, if it is active.
pub(crate) proof fn lemma_records_for_push(
    employees: Seq<EmployeeView>,
    last: EmployeeView,
    period: Seq<char>,
    timestamp: u64,
)
    ensures
        records_for(employees.push(last), period, timestamp) == if last.active {
            records_for(employees, period, timestamp).push(record_of(last, period, timestamp))
        } else {
            records_for(employees, period, timestamp)
        },
{
    lemma_active_among_push(employees, last);
    if last.active {
        assert(records_for(employees.push(last), period, timestamp) =~= records_for(
            employees,
            period,
            timestamp,
        ).push(record_of(last, period, timestamp)));
    }
}

/// One more employee at the end adds its transfer, if it is active.
pub(crate) proof fn lemma_requests_for_push(
    token: Seq<char>,
    caller: Seq<char>,
    employees: Seq<EmployeeView>,
    last: EmployeeView,
)
    ensures
        requests_for(token, caller, employees.push(last)) == if last.active {
            requests_for(token, caller, employees).push(request_for(token, caller, last))
        } else {
            requests_for(token, caller, employees)
        },
{
    lemma_active_among_push(employees, last);
    if last.active {
        assert(requests_for(token, caller, employees.push(last)) =~= requests_for(
            token,
            caller,
            employees,
        ).push(request_for(token, caller, last)));
    }
}

/// Paying an employee keeps a valid ledger valid.
pub(crate) proof fn lemma_pay_employee_valid(
    ledger: LedgerView,
    caller: Seq<char>,
    identity: Seq<char>,
    period: Seq<char>,
    timestamp: u64,
    outcome: TransferOutcome,
)
    requires
        ledger.valid(),
    ensures
        ledger.pay_employee(caller, identity, period, timestamp, outcome).ledger.valid(),
{
}

/// Paying all employees keeps a valid ledger valid.
pub(crate) proof fn lemma_pay_all_employees_valid(
    ledger: LedgerView,
    caller: Seq<char>,
    period: Seq<char>,
    timestamp: u64,
    outcomes: Seq<TransferOutcome>,
)
    requires
        ledger.valid(),
    ensures
        ledger.pay_all_employees(caller, period, timestamp, outcomes).ledger.valid(),
{
    let step = ledger.pay_all_employees(caller, period, timestamp, outcomes);
    if step.result is Ok {
        let paid = active_among(ledger.employees);
        let written = records_for(ledger.employees, period, timestamp);
        assert forall|k: int| 0 <= k < step.ledger.history.len() implies {
            &&& step.ledger.has_employee((#[trigger] step.ledger.history[k]).employee)
            &&& step.ledger.history[k].amount > 0
        } by {
            if k >= ledger.history.len() {
                let n = k - ledger.history.len();
                assert(step.ledger.history[k] == record_of(paid[n], period, timestamp));
                assert(paid.contains(paid[n]));
                ledger.employees.lemma_filter_contains_rev(is_active(), paid[n]);
                let at = choose|at: int|
                    0 <= at < ledger.employees.len() && ledger.employees[at] == paid[n];
                assert(ledger.identities()[at] == paid[n].address);
            }
        }
    }
}

} // verus!
