//! What holds of every ledger, whatever is done to it.
//!
//! Each law is stated over the model of the ledger and proved for all
//! inputs. The executable operations are proved to do what the model says,
//! so the laws hold of them too.

use vstd::prelude::*;
use crate::error::PayrollError;
use crate::ledger::{
    active_among, is_active, lemma_add_employee_valid, lemma_deactivate_employee_valid,
    lemma_pay_all_employees_valid, lemma_pay_employee_valid, lemma_update_salary_valid,
    record_of, records_for, LedgerView, Operation,
};
use crate::transfer::TransferOutcome;

verus! {

/// A ledger is initialized at most once: after one call has succeeded, every
/// further call is refused as already initialized and leaves the ledger,
/// its owner and its token as they were.
pub proof fn law_initialize_once(
    ledger: LedgerView,
    owner: Seq<char>,
    token: Seq<char>,
    other_owner: Seq<char>,
    other_token: Seq<char>,
)
    ensures
        ledger.initialize(owner, token).result is Ok ==> {
            let first = ledger.initialize(owner, token).ledger;
            let second = first.initialize(other_owner, other_token);
            &&& first.owner == Some(owner)
            &&& first.token == Some(token)
            &&& second.result == Err::<(), PayrollError>(PayrollError::AlreadyInitialized)
            &&& second.ledger == first
        },
{
}

/// Once set, owner and token are never set again, whatever operation is tried.
pub proof fn law_owner_and_token_are_fixed(ledger: LedgerView, operation: Operation)
    requires
        ledger.owner is Some,
    ensures
        ledger.apply(operation).ledger.owner == ledger.owner,
        ledger.apply(operation).ledger.token == ledger.token,
{
}

/// Once set, owner and token outlast every run of operations.
pub proof fn law_owner_and_token_outlast_runs(ledger: LedgerView, operations: Seq<Operation>)
    requires
        ledger.owner is Some,
    ensures
        ledger.run(operations).owner == ledger.owner,
        ledger.run(operations).token == ledger.token,
    decreases operations.len(),
{
    if operations.len() > 0 {
        law_owner_and_token_outlast_runs(ledger, operations.drop_last());
        law_owner_and_token_are_fixed(ledger.run(operations.drop_last()), operations.last());
    }
}

/// Every operation takes a valid ledger to a valid ledger.
pub proof fn law_operations_keep_validity(ledger: LedgerView, operation: Operation)
    requires
        ledger.valid(),
    ensures
        ledger.apply(operation).ledger.valid(),
{
    match operation {
        Operation::Initialize { owner, token } => {
            let after = ledger.initialize(owner, token).ledger;
            if ledger.owner is None {
                assert(after.identities() =~= Seq::empty());
            }
        },
        Operation::AddEmployee { caller, identity, salary, name } => {
            lemma_add_employee_valid(ledger, caller, identity, salary, name);
        },
        Operation::UpdateSalary { caller, identity, salary } => {
            lemma_update_salary_valid(ledger, caller, identity, salary);
        },
        Operation::DeactivateEmployee { caller, identity } => {
            lemma_deactivate_employee_valid(ledger, caller, identity);
        },
        Operation::PayEmployee { caller, identity, period, timestamp, outcome } => {
            lemma_pay_employee_valid(ledger, caller, identity, period, timestamp, outcome);
        },
        Operation::PayAllEmployees { caller, period, timestamp, outcomes } => {
            lemma_pay_all_employees_valid(ledger, caller, period, timestamp, outcomes);
        },
    }
}

/// Every run of operations takes a valid ledger to a valid ledger.
pub proof fn law_runs_keep_validity(ledger: LedgerView, operations: Seq<Operation>)
    requires
        ledger.valid(),
    ensures
        ledger.run(operations).valid(),
    decreases operations.len(),
{
    if operations.len() > 0 {
        law_runs_keep_validity(ledger, operations.drop_last());
        law_operations_keep_validity(ledger.run(operations.drop_last()), operations.last());
    }
}

/// After any run of operations on a new ledger, no two employee records
/// have the same identity.
pub proof fn law_identities_are_unique(operations: Seq<Operation>, i: int, j: int)
    requires
        0 <= i < j < LedgerView::empty().run(operations).employees.len(),
    ensures
        LedgerView::empty().run(operations).employees[i].address != LedgerView::empty().run(
            operations,
        ).employees[j].address,
{
    let ledger = LedgerView::empty().run(operations);
    assert(LedgerView::empty().identities() =~= Seq::empty());
    law_runs_keep_validity(LedgerView::empty(), operations);
    assert(ledger.identities()[i] == ledger.employees[i].address);
    assert(ledger.identities()[j] == ledger.employees[j].address);
}

/// After any run of operations on a new ledger, every stored salary is positive.
pub proof fn law_salaries_are_positive(operations: Seq<Operation>, i: int)
    requires
        0 <= i < LedgerView::empty().run(operations).employees.len(),
    ensures
        LedgerView::empty().run(operations).employees[i].salary > 0,
{
    assert(LedgerView::empty().identities() =~= Seq::empty());
    law_runs_keep_validity(LedgerView::empty(), operations);
}

/// An employee that was added is stored with the salary given, which is positive.
pub proof fn law_added_salary_is_stored(
    ledger: LedgerView,
    caller: Seq<char>,
    identity: Seq<char>,
    salary: i128,
    name: Seq<char>,
)
    requires
        ledger.valid(),
        ledger.add_employee(caller, identity, salary, name).result is Ok,
    ensures
        salary > 0,
        ledger.add_employee(caller, identity, salary, name).ledger.has_employee(identity),
        ledger.add_employee(caller, identity, salary, name).ledger.employee(identity).salary
            == salary,
        ledger.add_employee(caller, identity, salary, name).ledger.employee(identity).active,
        ledger.add_employee(caller, identity, salary, name).ledger.employee(identity).name == name,
{
    let after = ledger.add_employee(caller, identity, salary, name).ledger;
    lemma_add_employee_valid(ledger, caller, identity, salary, name);
    let last = ledger.employees.len() as int;
    assert(after.identities()[last] == identity);
    assert(after.position(identity) == last);
}

/// An updated salary is stored as given, which is positive; the name and
/// the active flag of the employee stay as they were.
pub proof fn law_updated_salary_is_stored(
    ledger: LedgerView,
    caller: Seq<char>,
    identity: Seq<char>,
    salary: i128,
)
    requires
        ledger.valid(),
        ledger.update_salary(caller, identity, salary).result is Ok,
    ensures
        salary > 0,
        ledger.update_salary(caller, identity, salary).ledger.has_employee(identity),
        ledger.update_salary(caller, identity, salary).ledger.employee(identity).salary == salary,
        ledger.update_salary(caller, identity, salary).ledger.employee(identity).name
            == ledger.employee(identity).name,
        ledger.update_salary(caller, identity, salary).ledger.employee(identity).active
            == ledger.employee(identity).active,
{
    let after = ledger.update_salary(caller, identity, salary).ledger;
    assert(after.identities() =~= ledger.identities());
}

/// No operation shortens the audit trail or touches a record in it: the
/// trail before is the beginning of the trail after.
pub proof fn law_history_only_grows(ledger: LedgerView, operation: Operation)
    requires
        ledger.valid(),
    ensures
        ledger.history.is_prefix_of(ledger.apply(operation).ledger.history),
{
    if ledger.owner is None && ledger.history.len() > 0 {
        assert(ledger.has_employee(ledger.history[0].employee));
    }
}

/// No run of operations shortens the audit trail or touches a record in it.
pub proof fn law_history_outlasts_runs(ledger: LedgerView, operations: Seq<Operation>)
    requires
        ledger.valid(),
    ensures
        ledger.history.is_prefix_of(ledger.run(operations).history),
    decreases operations.len(),
{
    if operations.len() > 0 {
        let before = ledger.run(operations.drop_last());
        law_history_outlasts_runs(ledger, operations.drop_last());
        law_runs_keep_validity(ledger, operations.drop_last());
        law_history_only_grows(before, operations.last());
    }
}

/// A record is written only by a payment, only for an employee that was in
/// the registry and active when the payment was made, only of that
/// employee's salary, and only when the transfer was confirmed.
pub proof fn law_records_only_for_confirmed_payments_to_active_employees(
    ledger: LedgerView,
    operation: Operation,
    k: int,
)
    requires
        ledger.valid(),
        ledger.history.len() <= k < ledger.apply(operation).ledger.history.len(),
    ensures
        ledger.has_employee(ledger.apply(operation).ledger.history[k].employee),
        ledger.employee(ledger.apply(operation).ledger.history[k].employee).active,
        ledger.apply(operation).ledger.history[k].amount == ledger.employee(
            ledger.apply(operation).ledger.history[k].employee,
        ).salary,
        match operation {
            Operation::PayEmployee { caller, identity, outcome, .. } => {
                &&& ledger.is_owner(caller)
                &&& identity == ledger.apply(operation).ledger.history[k].employee
                &&& outcome == TransferOutcome::Confirmed
            },
            Operation::PayAllEmployees { caller, outcomes, .. } => {
                &&& ledger.is_owner(caller)
                &&& outcomes.len() == active_among(ledger.employees).len()
                &&& forall|i: int| 0 <= i < outcomes.len() ==> outcomes[i] == TransferOutcome::Confirmed
            },
            _ => false,
        },
{
    let after = ledger.apply(operation).ledger;
    if ledger.owner is None && ledger.history.len() > 0 {
        assert(ledger.has_employee(ledger.history[0].employee));
    }
    match operation {
        Operation::PayAllEmployees { caller, period, timestamp, outcomes } => {
            let paid = active_among(ledger.employees);
            let n = k - ledger.history.len();
            assert(after.history[k] == record_of(paid[n], period, timestamp));
            ledger.employees.lemma_filter_pred(is_active(), n);
            assert(paid.contains(paid[n]));
            ledger.employees.lemma_filter_contains_rev(is_active(), paid[n]);
            let at = choose|at: int|
                0 <= at < ledger.employees.len() && ledger.employees[at] == paid[n];
            assert(ledger.identities()[at] == paid[n].address);
            assert(ledger.position(paid[n].address) == at);
        },
        _ => {},
    }
}

/// Whoever is not the owner changes nothing: every operation but
/// initializing is refused as unauthorized and leaves the ledger as it was.
pub proof fn law_only_the_owner_changes_the_ledger(ledger: LedgerView, operation: Operation)
    requires
        operation.acting_caller() matches Some(caller) && !ledger.is_owner(caller),
    ensures
        ledger.apply(operation) == ledger.refuse(PayrollError::Unauthorized),
{
}

/// An operation that is refused changes nothing.
pub proof fn law_refusal_changes_nothing(ledger: LedgerView, operation: Operation)
    requires
        ledger.apply(operation).result is Err,
    ensures
        ledger.apply(operation).ledger == ledger,
{
}

/// No operation takes an employee out of the registry or changes the order
/// of the registry: the identities before are the beginning of those after.
pub proof fn law_registry_only_grows(ledger: LedgerView, operation: Operation)
    requires
        ledger.valid(),
    ensures
        ledger.identities().is_prefix_of(ledger.apply(operation).ledger.identities()),
{
    let after = ledger.apply(operation).ledger;
    match operation {
        Operation::AddEmployee { caller, identity, salary, name } => {
            if ledger.apply(operation).result is Ok {
                assert(after.identities() =~= ledger.identities().push(identity));
            }
        },
        _ => {
            assert(after.identities() =~= ledger.identities());
        },
    }
}

/// An employee that is inactive stays inactive, whatever operation follows.
pub proof fn law_inactive_stays_inactive(ledger: LedgerView, operation: Operation, i: int)
    requires
        ledger.valid(),
        0 <= i < ledger.employees.len(),
        !ledger.employees[i].active,
    ensures
        i < ledger.apply(operation).ledger.employees.len(),
        ledger.apply(operation).ledger.employees[i].address == ledger.employees[i].address,
        !ledger.apply(operation).ledger.employees[i].active,
{
}

/// A payroll pays everybody or nobody: it writes one record for each
/// active employee, in the order of the registry, or none at all.
pub proof fn law_payroll_is_all_or_nothing(
    ledger: LedgerView,
    caller: Seq<char>,
    period: Seq<char>,
    timestamp: u64,
    outcomes: Seq<TransferOutcome>,
)
    ensures
        ({
            let step = ledger.pay_all_employees(caller, period, timestamp, outcomes);
            if step.result is Ok {
                step.ledger.history == ledger.history + records_for(
                    ledger.employees,
                    period,
                    timestamp,
                )
            } else {
                step.ledger == ledger
            }
        }),
{
}

} // verus!
