//! The executable ledger.

use vstd::prelude::*;
use crate::employee::{employee_views, Employee};
use crate::error::PayrollError;
use crate::history::{record_views, PayrollRecord};
use crate::identity::{identity_views, Identity};
use crate::ledger::{
    identities_of, lemma_add_employee_valid, lemma_deactivate_employee_valid,
    lemma_pay_all_employees_valid, lemma_pay_employee_valid, lemma_records_for_push,
    lemma_requests_for_push, lemma_update_salary_valid, records_for, requests_for, LedgerView,
};
use crate::transfer::{confirms_all, request_views, TransferOutcome, TransferRequest};

verus! {

/// What is fixed when a ledger is initialized.
struct Config {
    owner: Identity,
    token: Identity,
}

/// A payroll ledger: its owner and token, its registry of employees and its
/// audit trail.
///
/// Every ledger that exists is valid in the sense of [`LedgerView::valid`];
/// each operation says so again of the ledger that it leaves.
pub struct PayrollContract {
    config: Option<Config>,
    employees: Vec<Employee>,
    history: Vec<PayrollRecord>,
}

impl View for PayrollContract {
    type V = LedgerView;

    closed spec fn view(&self) -> LedgerView {
        LedgerView {
            owner: match self.config {
                Some(config) => Some(config.owner@),
                None => None,
            },
            token: match self.config {
                Some(config) => Some(config.token@),
                None => None,
            },
            employees: employee_views(self.employees@),
            history: record_views(self.history@),
        }
    }
}

/// The ledger that the given parts would make.
pub open spec fn ledger_of(
    owner: Option<Identity>,
    token: Option<Identity>,
    employees: Seq<Employee>,
    history: Seq<PayrollRecord>,
) -> LedgerView {
    LedgerView {
        owner: match owner {
            Some(owner) => Some(owner@),
            None => None,
        },
        token: match token {
            Some(token) => Some(token@),
            None => None,
        },
        employees: employee_views(employees),
        history: record_views(history),
    }
}

/// The first place in `employees` where `identity` stands.
fn first_position(employees: &Vec<Employee>, identity: &Identity) -> (found: Option<usize>)
    ensures
        found is None ==> forall|j: int|
            0 <= j < employees@.len() ==> (#[trigger] employees@[j]).address@ != identity@,
        found matches Some(i) ==> {
            &&& i < employees@.len()
            &&& employees@[i as int].address@ == identity@
            &&& forall|j: int| 0 <= j < i ==> (#[trigger] employees@[j]).address@ != identity@
        },
{
    let mut i: usize = 0;
    while i < employees.len()
        invariant
            i <= employees.len(),
            forall|j: int| 0 <= j < i ==> (#[trigger] employees@[j]).address@ != identity@,
        decreases employees.len() - i,
    {
        if employees[i].address == *identity {
            return Some(i);
        }
        i += 1;
    }
    None
}

/// Whether no identity stands twice in `employees` and every salary is positive.
fn registry_sound(employees: &Vec<Employee>) -> (sound: bool)
    ensures
        sound == {
            &&& identities_of(employee_views(employees@)).no_duplicates()
            &&& forall|i: int|
                0 <= i < employees@.len() ==> (#[trigger] employee_views(employees@)[i]).salary > 0
        },
{
    let ghost identities = identities_of(employee_views(employees@));
    let mut i: usize = 0;
    while i < employees.len()
        invariant
            i <= employees.len(),
            identities == identities_of(employee_views(employees@)),
            forall|a: int, b: int| 0 <= a < b < i ==> identities[a] != identities[b],
            forall|a: int| 0 <= a < i ==> (#[trigger] employee_views(employees@)[a]).salary > 0,
        decreases employees.len() - i,
    {
        if employees[i].salary <= 0 {
            assert(!(employee_views(employees@)[i as int].salary > 0));
            return false;
        }
        match first_position(employees, &employees[i].address) {
            Some(at) => {
                if at < i {
                    assert(identities[at as int] == identities[i as int]);
                    return false;
                }
            },
            None => {
                assert(employees@[i as int].address@ == employees@[i as int].address@);
            },
        }
        assert forall|a: int| 0 <= a < i implies identities[a] != identities[i as int] by {
            assert(employees@[a].address@ == identities[a]);
        }
        i += 1;
    }
    true
}

/// Whether every record in `history` is of an employee in `employees` and
/// of a positive amount.
fn history_sound(employees: &Vec<Employee>, history: &Vec<PayrollRecord>) -> (sound: bool)
    ensures
        sound == (forall|k: int|
            0 <= k < history@.len() ==> {
                &&& identities_of(employee_views(employees@)).contains(
                    (#[trigger] record_views(history@)[k]).employee,
                )
                &&& record_views(history@)[k].amount > 0
            }),
{
    let ghost identities = identities_of(employee_views(employees@));
    let mut k: usize = 0;
    while k < history.len()
        invariant
            k <= history.len(),
            identities == identities_of(employee_views(employees@)),
            forall|j: int|
                0 <= j < k ==> {
                    &&& identities.contains((#[trigger] record_views(history@)[j]).employee)
                    &&& record_views(history@)[j].amount > 0
                },
        decreases history.len() - k,
    {
        if history[k].amount <= 0 {
            assert(!(record_views(history@)[k as int].amount > 0));
            return false;
        }
        match first_position(employees, &history[k].employee) {
            Some(at) => {
                assert(identities[at as int] == record_views(history@)[k as int].employee);
            },
            None => {
                assert(!identities.contains(record_views(history@)[k as int].employee)) by {
                    assert forall|j: int| 0 <= j < identities.len() implies identities[j]
                        != record_views(history@)[k as int].employee by {
                        assert(employees@[j].address@ == identities[j]);
                    }
                }
                return false;
            },
        }
        k += 1;
    }
    true
}

impl PayrollContract {
    #[verifier::type_invariant]
    closed spec fn well_formed(self) -> bool {
        self@.valid()
    }

    /// A ledger that is not initialized: no owner, no employees, no records.
    pub fn new() -> (ledger: PayrollContract)
        ensures
            ledger@ == LedgerView::empty(),
            ledger@.valid(),
    {
        let ledger = PayrollContract { config: None, employees: Vec::new(), history: Vec::new() };
        assert(ledger@.employees =~= Seq::empty());
        assert(ledger@.history =~= Seq::empty());
        ledger
    }

    /// Puts a ledger together from its parts, if they make a valid ledger.
    ///
    /// This is how a ledger that was written down comes back: the owner and
    /// the token, the employee records in registry order, and the audit
    /// trail. Parts that no ledger could have left are refused.
    pub fn restore(
        owner: Option<Identity>,
        token: Option<Identity>,
        employees: Vec<Employee>,
        history: Vec<PayrollRecord>,
    ) -> (restored: Option<PayrollContract>)
        ensures
            restored is Some <==> ledger_of(owner, token, employees@, history@).valid(),
            restored matches Some(ledger) ==> ledger@ == ledger_of(
                owner,
                token,
                employees@,
                history@,
            ),
    {
        let ghost parts = ledger_of(owner, token, employees@, history@);
        let config = match (owner, token) {
            (Some(owner), Some(token)) => Some(Config { owner, token }),
            (None, None) => {
                if employees.len() != 0 {
                    return None;
                }
                None
            },
            _ => {
                return None;
            },
        };
        if !registry_sound(&employees) {
            return None;
        }
        if !history_sound(&employees, &history) {
            assert(parts.history.len() == history@.len());
            return None;
        }
        Some(PayrollContract { config, employees, history })
    }

    /// Where the employee with this identity stands in the registry.
    fn find(&self, identity: &Identity) -> (found: Option<usize>)
        ensures
            found is Some <==> self@.has_employee(identity@),
            found matches Some(i) ==> i == self@.position(identity@) && i < self.employees.len()
                && self.employees[i as int]@ == self@.employee(identity@),
    {
        proof {
            use_type_invariant(self);
        }
        let found = first_position(&self.employees, identity);
        proof {
            match found {
                Some(at) => {
                    assert(self@.identities()[at as int] == identity@);
                    assert(self@.position(identity@) == at);
                },
                None => {
                    assert forall|j: int| 0 <= j < self@.identities().len() implies self@.identities()[j]
                        != identity@ by {
                        assert(self.employees@[j].address@ == self@.identities()[j]);
                    }
                },
            }
        }
        found
    }

    /// Lets the owner pass and nobody else.
    pub fn require_owner(&self, caller: &Identity) -> (result: Result<(), PayrollError>)
        ensures
            result == self@.require_owner(caller@),
    {
        match &self.config {
            Some(config) => {
                if config.owner == *caller {
                    Ok(())
                } else {
                    Err(PayrollError::Unauthorized)
                }
            },
            None => Err(PayrollError::Unauthorized),
        }
    }

    /// Sets the owner and the token of a ledger that has neither.
    ///
    /// A ledger can be initialized once. Every later call is refused with
    /// [`PayrollError::AlreadyInitialized`] and changes nothing.
    pub fn initialize(&mut self, owner: Identity, token: Identity) -> (result: Result<
        (),
        PayrollError,
    >)
        ensures
            final(self)@ == old(self)@.initialize(owner@, token@).ledger,
            result == old(self)@.initialize(owner@, token@).result,
            final(self)@.valid(),
    {
        proof {
            use_type_invariant(&*self);
        }
        if self.config.is_some() {
            return Err(PayrollError::AlreadyInitialized);
        }
        let ghost before = self@;
        let fresh = PayrollContract {
            config: Some(Config { owner, token }),
            employees: Vec::new(),
            history: Vec::new(),
        };
        assert(fresh@.employees =~= Seq::empty());
        assert(fresh@.history =~= Seq::empty());
        *self = fresh;
        Ok(())
    }

    /// Adds an employee, active, at the end of the registry.
    ///
    /// Only the owner may do so. The salary must be positive and the identity
    /// new to the registry.
    pub fn add_employee(
        &mut self,
        caller: Identity,
        employee_addr: Identity,
        salary: i128,
        name: String,
    ) -> (result: Result<(), PayrollError>)
        ensures
            final(self)@ == old(self)@.add_employee(caller@, employee_addr@, salary, name@).ledger,
            result == old(self)@.add_employee(caller@, employee_addr@, salary, name@).result,
            final(self)@.valid(),
    {
        proof {
            use_type_invariant(&*self);
        }
        if self.require_owner(&caller).is_err() {
            return Err(PayrollError::Unauthorized);
        }
        if salary <= 0 {
            return Err(PayrollError::InvalidSalary);
        }
        if self.find(&employee_addr).is_some() {
            return Err(PayrollError::EmployeeAlreadyExists);
        }
        let ghost before = self@;
        let mut taken = PayrollContract::new();
        core::mem::swap(self, &mut taken);
        let PayrollContract { config, mut employees, history } = taken;
        employees.push(Employee { address: employee_addr, salary, name, active: true });
        proof {
            let after = before.add_employee(caller@, employee_addr@, salary, name@).ledger;
            lemma_add_employee_valid(before, caller@, employee_addr@, salary, name@);
            assert(employee_views(employees@) =~= after.employees);
        }
        *self = PayrollContract { config, employees, history };
        Ok(())
    }

    /// Sets the salary of an employee. Name and active flag stay as they are.
    ///
    /// Only the owner may do so. The salary must be positive and the employee
    /// in the registry.
    pub fn update_salary(&mut self, caller: Identity, employee_addr: Identity, new_salary: i128)
        -> (result: Result<(), PayrollError>)
        ensures
            final(self)@ == old(self)@.update_salary(caller@, employee_addr@, new_salary).ledger,
            result == old(self)@.update_salary(caller@, employee_addr@, new_salary).result,
            final(self)@.valid(),
    {
        proof {
            use_type_invariant(&*self);
        }
        if self.require_owner(&caller).is_err() {
            return Err(PayrollError::Unauthorized);
        }
        if new_salary <= 0 {
            return Err(PayrollError::InvalidSalary);
        }
        match self.find(&employee_addr) {
            None => Err(PayrollError::EmployeeNotFound),
            Some(at) => {
                let ghost before = self@;
                let mut taken = PayrollContract::new();
                core::mem::swap(self, &mut taken);
                let PayrollContract { config, mut employees, history } = taken;
                employees[at].salary = new_salary;
                proof {
                    let after = before.update_salary(caller@, employee_addr@, new_salary).ledger;
                    lemma_update_salary_valid(before, caller@, employee_addr@, new_salary);
                    assert(employee_views(employees@) =~= after.employees);
                }
                *self = PayrollContract { config, employees, history };
                Ok(())
            },
        }
    }

    /// Marks an employee as inactive. An inactive employee stays inactive,
    /// and deactivating it again succeeds and changes nothing.
    ///
    /// Only the owner may do so, and the employee must be in the registry.
    pub fn deactivate_employee(&mut self, caller: Identity, employee_addr: Identity) -> (result:
        Result<(), PayrollError>)
        ensures
            final(self)@ == old(self)@.deactivate_employee(caller@, employee_addr@).ledger,
            result == old(self)@.deactivate_employee(caller@, employee_addr@).result,
            final(self)@.valid(),
    {
        proof {
            use_type_invariant(&*self);
        }
        if self.require_owner(&caller).is_err() {
            return Err(PayrollError::Unauthorized);
        }
        match self.find(&employee_addr) {
            None => Err(PayrollError::EmployeeNotFound),
            Some(at) => {
                let ghost before = self@;
                let mut taken = PayrollContract::new();
                core::mem::swap(self, &mut taken);
                let PayrollContract { config, mut employees, history } = taken;
                employees[at].active = false;
                proof {
                    let after = before.deactivate_employee(caller@, employee_addr@).ledger;
                    lemma_deactivate_employee_valid(before, caller@, employee_addr@);
                    assert(employee_views(employees@) =~= after.employees);
                }
                *self = PayrollContract { config, employees, history };
                Ok(())
            },
        }
    }

    /// The transfer that paying one employee needs, or why the employee
    /// cannot be paid. Nothing is changed and nothing is moved.
    ///
    /// The caller must be the owner, and the employee in the registry and
    /// active. The transfer is from the caller to the employee, of the
    /// employee's salary, in the ledger's token.
    pub fn payment_due(&self, caller: &Identity, employee_addr: &Identity) -> (result: Result<
        TransferRequest,
        PayrollError,
    >)
        ensures
            match (result, self@.payment_due(caller@, employee_addr@)) {
                (Ok(request), Ok(expected)) => request@ == expected,
                (Err(error), Err(expected)) => error == expected,
                _ => false,
            },
    {
        let token = match &self.config {
            Some(config) => {
                if config.owner == *caller {
                    config.token.clone()
                } else {
                    return Err(PayrollError::Unauthorized);
                }
            },
            None => {
                return Err(PayrollError::Unauthorized);
            },
        };
        match self.find(employee_addr) {
            None => Err(PayrollError::EmployeeNotFound),
            Some(at) => {
                if !self.employees[at].active {
                    return Err(PayrollError::EmployeeInactive);
                }
                Ok(
                    TransferRequest {
                        token,
                        from: caller.clone(),
                        to: employee_addr.clone(),
                        amount: self.employees[at].salary,
                    },
                )
            },
        }
    }

    /// Settles the payment of one employee: writes its record, if the
    /// transfer was confirmed.
    ///
    /// `outcome` is what the transfer service answered to the request of
    /// [`PayrollContract::payment_due`] for the same caller and employee. The
    /// record is appended exactly when that request exists and its outcome is
    /// [`TransferOutcome::Confirmed`]; it holds the employee, its salary,
    /// `timestamp` and `period`. Otherwise the ledger stays as it was: the
    /// answer is the reason why no payment was due, or
    /// [`PayrollError::TransferFailure`].
    pub fn pay_employee(
        &mut self,
        caller: Identity,
        employee_addr: Identity,
        period: String,
        timestamp: u64,
        outcome: TransferOutcome,
    ) -> (result: Result<(), PayrollError>)
        ensures
            final(self)@ == old(self)@.pay_employee(
                caller@,
                employee_addr@,
                period@,
                timestamp,
                outcome,
            ).ledger,
            result == old(self)@.pay_employee(
                caller@,
                employee_addr@,
                period@,
                timestamp,
                outcome,
            ).result,
            final(self)@.valid(),
    {
        proof {
            use_type_invariant(&*self);
        }
        let request = match self.payment_due(&caller, &employee_addr) {
            Ok(request) => request,
            Err(error) => {
                return Err(error);
            },
        };
        match outcome {
            TransferOutcome::Failed => Err(PayrollError::TransferFailure),
            TransferOutcome::Confirmed => {
                let ghost before = self@;
                let mut taken = PayrollContract::new();
                core::mem::swap(self, &mut taken);
                let PayrollContract { config, employees, mut history } = taken;
                history.push(
                    PayrollRecord {
                        employee: employee_addr,
                        amount: request.amount,
                        timestamp,
                        period,
                    },
                );
                proof {
                    let after = before.pay_employee(
                        caller@,
                        employee_addr@,
                        period@,
                        timestamp,
                        outcome,
                    ).ledger;
                    lemma_pay_employee_valid(
                        before,
                        caller@,
                        employee_addr@,
                        period@,
                        timestamp,
                        outcome,
                    );
                    assert(record_views(history@) =~= after.history);
                }
                *self = PayrollContract { config, employees, history };
                Ok(())
            },
        }
    }

    /// The transfers that paying every active employee needs, in the order
    /// of the registry. Nothing is changed and nothing is moved.
    ///
    /// The caller must be the owner. Each transfer is from the caller to one
    /// active employee, of that employee's salary, in the ledger's token.
    pub fn payroll_due(&self, caller: &Identity) -> (result: Result<
        Vec<TransferRequest>,
        PayrollError,
    >)
        ensures
            match (result, self@.payroll_due(caller@)) {
                (Ok(requests), Ok(expected)) => request_views(requests@) == expected,
                (Err(error), Err(expected)) => error == expected,
                _ => false,
            },
    {
        let token = match &self.config {
            Some(config) => {
                if config.owner == *caller {
                    config.token.clone()
                } else {
                    return Err(PayrollError::Unauthorized);
                }
            },
            None => {
                return Err(PayrollError::Unauthorized);
            },
        };
        let ghost listed = self@.employees;
        let mut requests: Vec<TransferRequest> = Vec::new();
        let mut i: usize = 0;
        assert(listed.take(0) =~= Seq::empty());
        assert(request_views(requests@) =~= requests_for(token@, caller@, listed.take(0))) by {
            reveal(Seq::filter);
        }
        while i < self.employees.len()
            invariant
                i <= self.employees.len(),
                listed == self@.employees,
                listed.len() == self.employees.len(),
                request_views(requests@) == requests_for(token@, caller@, listed.take(i as int)),
            decreases self.employees.len() - i,
        {
            let ghost sent = requests@;
            proof {
                assert(listed.take(i + 1) =~= listed.take(i as int).push(listed[i as int]));
                lemma_requests_for_push(token@, caller@, listed.take(i as int), listed[i as int]);
            }
            if self.employees[i].active {
                let request = TransferRequest {
                    token: token.clone(),
                    from: caller.clone(),
                    to: self.employees[i].address.clone(),
                    amount: self.employees[i].salary,
                };
                requests.push(request);
                assert(request_views(requests@) =~= request_views(sent).push(request@));
            }
            i += 1;
        }
        assert(listed.take(i as int) =~= listed);
        Ok(requests)
    }

    /// Settles a payroll: writes one record for each active employee, if
    /// every transfer was confirmed, and none at all otherwise.
    ///
    /// `outcomes` are what the transfer service answered to the requests of
    /// [`PayrollContract::payroll_due`] for the same caller, in the same
    /// order. The payroll is settled exactly when the caller is the owner and
    /// `outcomes` hold one confirmation for each request and nothing else.
    /// Then the records of all active employees are appended, in the order
    /// of the registry, each with the employee's salary, `timestamp` and
    /// `period`. Otherwise the ledger stays as it was, whatever part of the
    /// transfers succeeded: the answer is [`PayrollError::Unauthorized`] or
    /// [`PayrollError::TransferFailure`].
    pub fn pay_all_employees(
        &mut self,
        caller: Identity,
        period: String,
        timestamp: u64,
        outcomes: Vec<TransferOutcome>,
    ) -> (result: Result<(), PayrollError>)
        ensures
            final(self)@ == old(self)@.pay_all_employees(
                caller@,
                period@,
                timestamp,
                outcomes@,
            ).ledger,
            result == old(self)@.pay_all_employees(caller@, period@, timestamp, outcomes@).result,
            final(self)@.valid(),
    {
        proof {
            use_type_invariant(&*self);
        }
        if self.require_owner(&caller).is_err() {
            return Err(PayrollError::Unauthorized);
        }
        let ghost before = self@;
        let ghost listed = self@.employees;
        let mut staged: Vec<PayrollRecord> = Vec::new();
        let mut i: usize = 0;
        assert(listed.take(0) =~= Seq::empty());
        assert(record_views(staged@) =~= records_for(listed.take(0), period@, timestamp)) by {
            reveal(Seq::filter);
        }
        while i < self.employees.len()
            invariant
                i <= self.employees.len(),
                listed == self@.employees,
                listed.len() == self.employees.len(),
                record_views(staged@) == records_for(listed.take(i as int), period@, timestamp),
            decreases self.employees.len() - i,
        {
            let ghost written = staged@;
            proof {
                assert(listed.take(i + 1) =~= listed.take(i as int).push(listed[i as int]));
                lemma_records_for_push(listed.take(i as int), listed[i as int], period@, timestamp);
            }
            if self.employees[i].active {
                let record = PayrollRecord {
                    employee: self.employees[i].address.clone(),
                    amount: self.employees[i].salary,
                    timestamp,
                    period: period.clone(),
                };
                staged.push(record);
                assert(record_views(staged@) =~= record_views(written).push(record@));
            }
            i += 1;
        }
        assert(listed.take(i as int) =~= listed);
        if !confirms_all(&outcomes, staged.len()) {
            return Err(PayrollError::TransferFailure);
        }
        let mut taken = PayrollContract::new();
        core::mem::swap(self, &mut taken);
        let PayrollContract { config, employees, mut history } = taken;
        let ghost kept = history@;
        let ghost added = staged@;
        history.append(&mut staged);
        proof {
            let after = before.pay_all_employees(caller@, period@, timestamp, outcomes@).ledger;
            lemma_pay_all_employees_valid(before, caller@, period@, timestamp, outcomes@);
            assert(record_views(history@) =~= record_views(kept) + record_views(added));
        }
        *self = PayrollContract { config, employees, history };
        Ok(())
    }

    /// The record of one employee, or [`PayrollError::EmployeeNotFound`].
    pub fn get_employee(&self, employee_addr: Identity) -> (result: Result<Employee, PayrollError>)
        ensures
            match (result, self@.get_employee(employee_addr@)) {
                (Ok(employee), Ok(expected)) => employee@ == expected,
                (Err(error), Err(expected)) => error == expected,
                _ => false,
            },
    {
        match self.find(&employee_addr) {
            Some(at) => Ok(self.employees[at].clone()),
            None => Err(PayrollError::EmployeeNotFound),
        }
    }

    /// The identities of all employees, in the order in which they were
    /// added. A ledger that is not initialized has none.
    pub fn get_all_employees(&self) -> (identities: Vec<Identity>)
        ensures
            identity_views(identities@) == self@.identities(),
            self@.owner is None ==> identities@.len() == 0,
    {
        proof {
            use_type_invariant(self);
        }
        let mut identities: Vec<Identity> = Vec::new();
        let mut i: usize = 0;
        while i < self.employees.len()
            invariant
                i <= self.employees.len(),
                identities@.len() == i,
                forall|j: int| 0 <= j < i ==> identities@[j]@ == self.employees@[j].address@,
            decreases self.employees.len() - i,
        {
            identities.push(self.employees[i].address.clone());
            i += 1;
        }
        assert(identity_views(identities@) =~= self@.identities());
        identities
    }

    /// The audit trail, oldest record first. A ledger that is not initialized
    /// has no records.
    pub fn get_payroll_history(&self) -> (records: Vec<PayrollRecord>)
        ensures
            record_views(records@) == self@.history,
            self@.owner is None ==> records@.len() == 0,
    {
        proof {
            use_type_invariant(self);
        }
        let mut records: Vec<PayrollRecord> = Vec::new();
        let mut i: usize = 0;
        while i < self.history.len()
            invariant
                i <= self.history.len(),
                records@.len() == i,
                forall|j: int| 0 <= j < i ==> records@[j]@ == self.history@[j]@,
            decreases self.history.len() - i,
        {
            records.push(self.history[i].clone());
            i += 1;
        }
        assert(record_views(records@) =~= self@.history);
        proof {
            if self@.owner is None && self@.history.len() > 0 {
                assert(self@.has_employee(self@.history[0].employee));
            }
        }
        records
    }

    /// The owner, or `None` while the ledger is not initialized.
    pub fn get_owner(&self) -> (owner: Option<Identity>)
        ensures
            owner is Some <==> self@.owner is Some,
            owner matches Some(o) ==> self@.owner == Some(o@),
    {
        match &self.config {
            Some(config) => Some(config.owner.clone()),
            None => None,
        }
    }

    /// The asset in which salaries are paid, or `None` while the ledger is
    /// not initialized.
    pub fn get_token(&self) -> (token: Option<Identity>)
        ensures
            token is Some <==> self@.token is Some,
            token matches Some(t) ==> self@.token == Some(t@),
    {
        match &self.config {
            Some(config) => Some(config.token.clone()),
            None => None,
        }
    }
}

} // verus!
