//! What the ledger asks of the transfer service, and what it hears back.
//!
//! The ledger moves no value itself. It says which transfers a disbursement
//! needs; whoever drives the ledger has the transfer service perform them and
//! reports each outcome back, and only then does the ledger write its records.

use vstd::prelude::*;
use crate::identity::Identity;

verus! {

/// One transfer that the transfer service is asked to perform.
#[derive(Debug)]
pub struct TransferRequest {
    /// The asset in which salaries are paid.
    pub token: Identity,
    /// Who pays: the caller of the disbursement.
    pub from: Identity,
    /// Who is paid.
    pub to: Identity,
    /// How much is moved.
    pub amount: i128,
}

/// What a transfer request says.
pub struct TransferRequestView {
    pub token: Seq<char>,
    pub from: Seq<char>,
    pub to: Seq<char>,
    pub amount: i128,
}

impl View for TransferRequest {
    type V = TransferRequestView;

    open spec fn view(&self) -> TransferRequestView {
        TransferRequestView {
            token: self.token@,
            from: self.from@,
            to: self.to@,
            amount: self.amount,
        }
    }
}

impl Clone for TransferRequest {
    fn clone(&self) -> (copy: TransferRequest)
        ensures
            copy@ == self@,
    {
        TransferRequest {
            token: self.token.clone(),
            from: self.from.clone(),
            to: self.to.clone(),
            amount: self.amount,
        }
    }
}

impl PartialEq for TransferRequest {
    fn eq(&self, other: &TransferRequest) -> (same: bool) {
        self.token == other.token && self.from == other.from && self.to == other.to
            && self.amount == other.amount
    }
}

impl Eq for TransferRequest {}

impl vstd::std_specs::cmp::PartialEqSpecImpl for TransferRequest {
    open spec fn obeys_eq_spec() -> bool {
        true
    }

    open spec fn eq_spec(&self, other: &TransferRequest) -> bool {
        self@ == other@
    }
}

/// How the transfer service answered one request.
#[derive(Debug, Clone, Copy, PartialEq, Eq, Structural)]
pub enum TransferOutcome {
    /// The value was moved.
    Confirmed,
    /// The value was not moved.
    Failed,
}

/// What a list of transfer requests says, one by one.
pub open spec fn request_views(requests: Seq<TransferRequest>) -> Seq<TransferRequestView> {
    requests.map_values(|request: TransferRequest| request@)
}

/// `count` confirmations and nothing else.
pub open spec fn all_confirmed(count: nat) -> Seq<TransferOutcome> {
    Seq::new(count, |i: int| TransferOutcome::Confirmed)
}

/// Whether `outcomes` are `count` confirmations and nothing else.
pub fn confirms_all(outcomes: &Vec<TransferOutcome>, count: usize) -> (confirmed: bool)
    ensures
        confirmed == (outcomes@ == all_confirmed(count as nat)),
{
    if outcomes.len() != count {
        return false;
    }
    let mut i: usize = 0;
    while i < outcomes.len()
        invariant
            i <= outcomes.len(),
            outcomes.len() == count,
            forall|j: int| 0 <= j < i ==> outcomes@[j] == TransferOutcome::Confirmed,
        decreases outcomes.len() - i,
    {
        match outcomes[i] {
            TransferOutcome::Confirmed => {},
            TransferOutcome::Failed => {
                assert(all_confirmed(count as nat)[i as int] == TransferOutcome::Confirmed);
                return false;
            },
        }
        i += 1;
    }
    assert(outcomes@ =~= all_confirmed(count as nat));
    true
}

} // verus!
