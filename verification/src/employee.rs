//! Employee records.

use vstd::prelude::*;
use crate::identity::Identity;

verus! {

/// One entry of the registry.
///
/// A record is created active, its salary changes only through a salary
/// update, and once deactivated it stays inactive. Records are never deleted.
#[derive(Debug)]
pub struct Employee {
    /// Who the employee is: the key of the record.
    pub address: Identity,
    /// What one disbursement pays.
    pub salary: i128,
    /// A name to show; it plays no part in any rule.
    pub name: String,
    /// Whether the employee may still be paid.
    pub active: bool,
}

/// What an employee record says.
pub struct EmployeeView {
    pub address: Seq<char>,
    pub salary: i128,
    pub name: Seq<char>,
    pub active: bool,
}

impl View for Employee {
    type V = EmployeeView;

    open spec fn view(&self) -> EmployeeView {
        EmployeeView {
            address: self.address@,
            salary: self.salary,
            name: self.name@,
            active: self.active,
        }
    }
}

impl Clone for Employee {
    fn clone(&self) -> (copy: Employee)
        ensures
            copy@ == self@,
    {
        Employee {
            address: self.address.clone(),
            salary: self.salary,
            name: self.name.clone(),
            active: self.active,
        }
    }
}

impl PartialEq for Employee {
    fn eq(&self, other: &Employee) -> (same: bool) {
        self.address == other.address && self.salary == other.salary && self.name == other.name
            && self.active == other.active
    }
}

impl Eq for Employee {}

impl vstd::std_specs::cmp::PartialEqSpecImpl for Employee {
    open spec fn obeys_eq_spec() -> bool {
        true
    }

    open spec fn eq_spec(&self, other: &Employee) -> bool {
        self@ == other@
    }
}

/// What a list of employee records says, one by one.
pub open spec fn employee_views(employees: Seq<Employee>) -> Seq<EmployeeView> {
    employees.map_values(|employee: Employee| employee@)
}

} // verus!
