//! The entries of the audit trail.

use vstd::prelude::*;
use crate::identity::Identity;

verus! {

/// One completed disbursement. A record never changes once it is written.
#[derive(Debug)]
pub struct PayrollRecord {
    /// Who was paid.
    pub employee: Identity,
    /// How much was paid: the employee's salary at that moment.
    pub amount: i128,
    /// When the disbursement was made.
    pub timestamp: u64,
    /// The pay period that the caller named. Any text is taken as it comes.
    pub period: String,
}

/// What a record says.
pub struct PayrollRecordView {
    pub employee: Seq<char>,
    pub amount: i128,
    pub timestamp: u64,
    pub period: Seq<char>,
}

impl View for PayrollRecord {
    type V = PayrollRecordView;

    open spec fn view(&self) -> PayrollRecordView {
        PayrollRecordView {
            employee: self.employee@,
            amount: self.amount,
            timestamp: self.timestamp,
            period: self.period@,
        }
    }
}

impl Clone for PayrollRecord {
    fn clone(&self) -> (copy: PayrollRecord)
        ensures
            copy@ == self@,
    {
        PayrollRecord {
            employee: self.employee.clone(),
            amount: self.amount,
            timestamp: self.timestamp,
            period: self.period.clone(),
        }
    }
}

impl PartialEq for PayrollRecord {
    fn eq(&self, other: &PayrollRecord) -> (same: bool) {
        self.employee == other.employee && self.amount == other.amount && self.timestamp
            == other.timestamp && self.period == other.period
    }
}

impl Eq for PayrollRecord {}

impl vstd::std_specs::cmp::PartialEqSpecImpl for PayrollRecord {
    open spec fn obeys_eq_spec() -> bool {
        true
    }

    open spec fn eq_spec(&self, other: &PayrollRecord) -> bool {
        self@ == other@
    }
}

/// What a list of records says, one by one.
pub open spec fn record_views(records: Seq<PayrollRecord>) -> Seq<PayrollRecordView> {
    records.map_values(|record: PayrollRecord| record@)
}

} // verus!
