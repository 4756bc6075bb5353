use payroll::transfer::confirms_all;
use payroll::{
    Employee, Identity, PayrollContract, PayrollError, PayrollRecord, TransferOutcome,
    TransferRequest,
};

fn boss() -> Identity {
    Identity::from_str("GBGBAKLJP3RVQ4K5HIKKFLOYC7CLAFSRIQG6QCBXD54BMWWJBXCYD5UV")
}

fn asset() -> Identity {
    Identity::from_str("CA6ENHU5NRMHLU32IPZVHVHYRZQ7Z6ASYZXO4NCXIZNEBMG2IFJ6AUB2")
}

fn first() -> Identity {
    Identity::from_str("GAX5YALXAV6TUXDMFQECDYA7J6UNSD42HO327WBLBW2SNL4Y22G6QN3W")
}

fn other() -> Identity {
    Identity::from_str("GALDM6VMWZ5EUAL4RWUKXFLIFTFTSCDDPAHXCFG5UCQOBRKWITD4I5OW")
}

fn third() -> Identity {
    Identity::from_str("GCY6TEZEKBN5GLNA4H4F3T26DGQJ3MCID2FBL5RMIHVTEAYEVDUSO3US")
}

fn outsider() -> Identity {
    Identity::from_str("GCFMUTZWO5HYFJT4KB6LTSLGPFEC4LGHM7ZNHBICE2KVPJLGWCJPWC2Q")
}

fn period() -> String {
    String::from("2024-01")
}

fn record(employee: Identity, amount: i128, timestamp: u64, period: &str) -> PayrollRecord {
    PayrollRecord { employee, amount, timestamp, period: String::from(period) }
}

fn request(to: Identity, amount: i128) -> TransferRequest {
    TransferRequest { token: asset(), from: boss(), to, amount }
}

/// Owner, token, and three employees of whom the second is inactive.
fn staffed() -> PayrollContract {
    let mut ledger = PayrollContract::new();
    ledger.initialize(boss(), asset()).unwrap();
    ledger.add_employee(boss(), first(), 100_000, String::from("John Doe")).unwrap();
    ledger.add_employee(boss(), other(), 50_000, String::from("Jane Roe")).unwrap();
    ledger.add_employee(boss(), third(), 75_000, String::from("Max Poe")).unwrap();
    ledger.deactivate_employee(boss(), other()).unwrap();
    ledger
}

#[test]
fn payment_due_asks_for_the_salary_from_the_caller_to_the_employee() {
    let ledger = staffed();
    assert_eq!(ledger.payment_due(&boss(), &first()), Ok(request(first(), 100_000)));
    assert_eq!(ledger.payment_due(&boss(), &third()), Ok(request(third(), 75_000)));
}

#[test]
fn payment_due_refusals() {
    let ledger = staffed();
    assert_eq!(ledger.payment_due(&outsider(), &first()), Err(PayrollError::Unauthorized));
    assert_eq!(ledger.payment_due(&outsider(), &outsider()), Err(PayrollError::Unauthorized));
    assert_eq!(ledger.payment_due(&boss(), &outsider()), Err(PayrollError::EmployeeNotFound));
    assert_eq!(ledger.payment_due(&boss(), &other()), Err(PayrollError::EmployeeInactive));
    assert_eq!(
        PayrollContract::new().payment_due(&boss(), &first()),
        Err(PayrollError::Unauthorized)
    );
}

#[test]
fn confirmed_payment_writes_one_record() {
    let mut ledger = staffed();

    assert_eq!(
        ledger.pay_employee(boss(), first(), period(), 1_700_000_000, TransferOutcome::Confirmed),
        Ok(())
    );

    assert_eq!(
        ledger.get_payroll_history(),
        vec![record(first(), 100_000, 1_700_000_000, "2024-01")]
    );
}

#[test]
fn failed_transfer_writes_no_record() {
    let mut ledger = staffed();

    assert_eq!(
        ledger.pay_employee(boss(), first(), period(), 1_700_000_000, TransferOutcome::Failed),
        Err(PayrollError::TransferFailure)
    );

    assert!(ledger.get_payroll_history().is_empty());
    assert_eq!(ledger.get_employee(first()).unwrap().salary, 100_000);
}

#[test]
fn pay_employee_refusals_write_no_record() {
    let mut ledger = staffed();

    assert_eq!(
        ledger.pay_employee(outsider(), first(), period(), 5, TransferOutcome::Confirmed),
        Err(PayrollError::Unauthorized)
    );
    assert_eq!(
        ledger.pay_employee(boss(), outsider(), period(), 5, TransferOutcome::Confirmed),
        Err(PayrollError::EmployeeNotFound)
    );
    assert_eq!(
        ledger.pay_employee(boss(), other(), period(), 5, TransferOutcome::Confirmed),
        Err(PayrollError::EmployeeInactive)
    );
    assert_eq!(
        ledger.pay_employee(boss(), other(), period(), 5, TransferOutcome::Failed),
        Err(PayrollError::EmployeeInactive)
    );

    assert!(ledger.get_payroll_history().is_empty());
}

#[test]
fn deactivated_employee_cannot_be_paid_and_history_stays_as_long() {
    let mut ledger = PayrollContract::new();
    ledger.initialize(boss(), asset()).unwrap();
    ledger.add_employee(boss(), first(), 100_000, String::from("John Doe")).unwrap();
    ledger.pay_employee(boss(), first(), String::from("2023-12"), 1, TransferOutcome::Confirmed)
        .unwrap();
    let before = ledger.get_payroll_history();

    ledger.deactivate_employee(boss(), first()).unwrap();

    assert_eq!(
        ledger.pay_employee(boss(), first(), period(), 2, TransferOutcome::Confirmed),
        Err(PayrollError::EmployeeInactive)
    );
    assert_eq!(ledger.get_payroll_history().len(), 1);
    assert_eq!(ledger.get_payroll_history(), before);
}

#[test]
fn payment_records_the_salary_of_the_moment() {
    let mut ledger = staffed();
    ledger.pay_employee(boss(), first(), period(), 10, TransferOutcome::Confirmed).unwrap();
    ledger.update_salary(boss(), first(), 120_000).unwrap();
    ledger.pay_employee(boss(), first(), String::from("2024-02"), 20, TransferOutcome::Confirmed)
        .unwrap();

    assert_eq!(
        ledger.get_payroll_history(),
        vec![record(first(), 100_000, 10, "2024-01"), record(first(), 120_000, 20, "2024-02")]
    );
}

#[test]
fn period_label_is_taken_as_it_comes() {
    let mut ledger = staffed();
    ledger.pay_employee(boss(), first(), String::new(), 0, TransferOutcome::Confirmed).unwrap();
    ledger.pay_employee(boss(), first(), String::new(), 0, TransferOutcome::Confirmed).unwrap();
    ledger.pay_employee(boss(), first(), String::from("any text"), u64::MAX, TransferOutcome::Confirmed)
        .unwrap();

    assert_eq!(
        ledger.get_payroll_history(),
        vec![
            record(first(), 100_000, 0, ""),
            record(first(), 100_000, 0, ""),
            record(first(), 100_000, u64::MAX, "any text"),
        ]
    );
}

#[test]
fn payroll_due_lists_the_active_employees_in_registry_order() {
    let ledger = staffed();
    assert_eq!(
        ledger.payroll_due(&boss()),
        Ok(vec![request(first(), 100_000), request(third(), 75_000)])
    );
}

#[test]
fn payroll_due_refuses_a_caller_that_is_not_the_owner() {
    let ledger = staffed();
    assert_eq!(ledger.payroll_due(&outsider()), Err(PayrollError::Unauthorized));
    assert_eq!(ledger.payroll_due(&first()), Err(PayrollError::Unauthorized));
    assert_eq!(PayrollContract::new().payroll_due(&boss()), Err(PayrollError::Unauthorized));
}

#[test]
fn payroll_due_is_empty_when_nobody_is_active() {
    let mut ledger = PayrollContract::new();
    ledger.initialize(boss(), asset()).unwrap();
    assert_eq!(ledger.payroll_due(&boss()), Ok(vec![]));

    ledger.add_employee(boss(), first(), 100_000, String::from("John Doe")).unwrap();
    ledger.deactivate_employee(boss(), first()).unwrap();
    assert_eq!(ledger.payroll_due(&boss()), Ok(vec![]));
}

#[test]
fn pay_all_pays_only_the_active_employee() {
    let mut ledger = PayrollContract::new();
    ledger.initialize(boss(), asset()).unwrap();
    ledger.add_employee(boss(), first(), 100_000, String::from("John Doe")).unwrap();
    ledger.add_employee(boss(), other(), 50_000, String::from("Jane Roe")).unwrap();
    ledger.deactivate_employee(boss(), other()).unwrap();

    assert_eq!(ledger.payroll_due(&boss()), Ok(vec![request(first(), 100_000)]));
    assert_eq!(
        ledger.pay_all_employees(boss(), period(), 1_700_000_000, vec![TransferOutcome::Confirmed]),
        Ok(())
    );

    let history = ledger.get_payroll_history();
    assert_eq!(history.len(), 1);
    assert_eq!(history, vec![record(first(), 100_000, 1_700_000_000, "2024-01")]);
}

#[test]
fn pay_all_writes_the_records_in_registry_order_after_the_old_ones() {
    let mut ledger = staffed();
    ledger.pay_employee(boss(), third(), String::from("2023-12"), 7, TransferOutcome::Confirmed)
        .unwrap();

    assert_eq!(
        ledger.pay_all_employees(
            boss(),
            period(),
            9,
            vec![TransferOutcome::Confirmed, TransferOutcome::Confirmed],
        ),
        Ok(())
    );

    assert_eq!(
        ledger.get_payroll_history(),
        vec![
            record(third(), 75_000, 7, "2023-12"),
            record(first(), 100_000, 9, "2024-01"),
            record(third(), 75_000, 9, "2024-01"),
        ]
    );
}

#[test]
fn pay_all_pays_nobody_when_one_transfer_failed() {
    let mut ledger = staffed();
    ledger.pay_employee(boss(), third(), String::from("2023-12"), 7, TransferOutcome::Confirmed)
        .unwrap();
    let before = ledger.get_payroll_history();

    assert_eq!(
        ledger.pay_all_employees(
            boss(),
            period(),
            9,
            vec![TransferOutcome::Confirmed, TransferOutcome::Failed],
        ),
        Err(PayrollError::TransferFailure)
    );
    assert_eq!(ledger.get_payroll_history(), before);

    assert_eq!(
        ledger.pay_all_employees(
            boss(),
            period(),
            9,
            vec![TransferOutcome::Failed, TransferOutcome::Confirmed],
        ),
        Err(PayrollError::TransferFailure)
    );
    assert_eq!(ledger.get_payroll_history(), before);

    assert_eq!(
        ledger.pay_all_employees(boss(), period(), 9, vec![TransferOutcome::Failed]),
        Err(PayrollError::TransferFailure)
    );
    assert_eq!(ledger.get_payroll_history(), before);
}

#[test]
fn pay_all_needs_one_confirmation_for_each_transfer_that_was_due() {
    let mut ledger = staffed();

    assert_eq!(
        ledger.pay_all_employees(boss(), period(), 9, vec![]),
        Err(PayrollError::TransferFailure)
    );
    assert_eq!(
        ledger.pay_all_employees(boss(), period(), 9, vec![TransferOutcome::Confirmed]),
        Err(PayrollError::TransferFailure)
    );
    assert_eq!(
        ledger.pay_all_employees(
            boss(),
            period(),
            9,
            vec![
                TransferOutcome::Confirmed,
                TransferOutcome::Confirmed,
                TransferOutcome::Confirmed,
            ],
        ),
        Err(PayrollError::TransferFailure)
    );

    assert!(ledger.get_payroll_history().is_empty());
}

#[test]
fn pay_all_refuses_a_caller_that_is_not_the_owner() {
    let mut ledger = staffed();

    assert_eq!(
        ledger.pay_all_employees(
            outsider(),
            period(),
            9,
            vec![TransferOutcome::Confirmed, TransferOutcome::Confirmed],
        ),
        Err(PayrollError::Unauthorized)
    );
    assert_eq!(
        ledger.pay_all_employees(first(), period(), 9, vec![]),
        Err(PayrollError::Unauthorized)
    );
    assert_eq!(
        PayrollContract::new().pay_all_employees(boss(), period(), 9, vec![]),
        Err(PayrollError::Unauthorized)
    );

    assert!(ledger.get_payroll_history().is_empty());
}

#[test]
fn pay_all_with_nobody_to_pay_succeeds_and_writes_nothing() {
    let mut ledger = PayrollContract::new();
    ledger.initialize(boss(), asset()).unwrap();

    assert_eq!(ledger.pay_all_employees(boss(), period(), 9, vec![]), Ok(()));
    assert!(ledger.get_payroll_history().is_empty());

    ledger.add_employee(boss(), first(), 100_000, String::from("John Doe")).unwrap();
    ledger.deactivate_employee(boss(), first()).unwrap();

    assert_eq!(ledger.pay_all_employees(boss(), period(), 9, vec![]), Ok(()));
    assert!(ledger.get_payroll_history().is_empty());
}

#[test]
fn history_only_grows_and_keeps_its_order() {
    let mut ledger = staffed();
    let mut seen: Vec<PayrollRecord> = Vec::new();

    ledger.pay_employee(boss(), first(), period(), 1, TransferOutcome::Confirmed).unwrap();
    let now = ledger.get_payroll_history();
    assert_eq!(now[..seen.len()], seen[..]);
    assert!(now.len() >= seen.len());
    seen = now;

    let _ = ledger.pay_employee(boss(), other(), period(), 2, TransferOutcome::Confirmed);
    let _ = ledger.pay_employee(outsider(), first(), period(), 2, TransferOutcome::Confirmed);
    let _ = ledger.add_employee(boss(), outsider(), 5, String::from("New"));
    let _ = ledger.update_salary(boss(), first(), 1);
    let _ = ledger.deactivate_employee(boss(), third());
    let _ = ledger.initialize(outsider(), asset());
    let now = ledger.get_payroll_history();
    assert_eq!(now, seen);

    ledger
        .pay_all_employees(
            boss(),
            String::from("2024-02"),
            3,
            vec![TransferOutcome::Confirmed, TransferOutcome::Confirmed],
        )
        .unwrap();
    let now = ledger.get_payroll_history();
    assert_eq!(now[..seen.len()], seen[..]);
    assert_eq!(
        now,
        vec![
            record(first(), 100_000, 1, "2024-01"),
            record(first(), 1, 3, "2024-02"),
            record(outsider(), 5, 3, "2024-02"),
        ]
    );
}

#[test]
fn non_owner_changes_nothing_whatever_it_tries() {
    let mut ledger = staffed();
    ledger.pay_employee(boss(), first(), period(), 1, TransferOutcome::Confirmed).unwrap();
    let employees = ledger.get_all_employees();
    let records: Vec<Employee> =
        employees.iter().map(|e| ledger.get_employee(e.clone()).unwrap()).collect();
    let history = ledger.get_payroll_history();

    let unauthorized = Err(PayrollError::Unauthorized);
    assert_eq!(ledger.add_employee(outsider(), outsider(), 1, String::from("x")), unauthorized);
    assert_eq!(ledger.update_salary(outsider(), first(), 1), unauthorized);
    assert_eq!(ledger.deactivate_employee(outsider(), first()), unauthorized);
    assert_eq!(
        ledger.pay_employee(outsider(), first(), period(), 2, TransferOutcome::Confirmed),
        unauthorized
    );
    assert_eq!(
        ledger.pay_all_employees(
            outsider(),
            period(),
            2,
            vec![TransferOutcome::Confirmed, TransferOutcome::Confirmed],
        ),
        unauthorized
    );

    assert_eq!(ledger.get_owner(), Some(boss()));
    assert_eq!(ledger.get_token(), Some(asset()));
    assert_eq!(ledger.get_all_employees(), employees);
    let after: Vec<Employee> =
        employees.iter().map(|e| ledger.get_employee(e.clone()).unwrap()).collect();
    assert_eq!(after, records);
    assert_eq!(ledger.get_payroll_history(), history);
}

#[test]
fn confirms_all_wants_exactly_that_many_confirmations() {
    assert!(confirms_all(&vec![], 0));
    assert!(confirms_all(&vec![TransferOutcome::Confirmed], 1));
    assert!(confirms_all(&vec![TransferOutcome::Confirmed, TransferOutcome::Confirmed], 2));
    assert!(!confirms_all(&vec![TransferOutcome::Confirmed], 0));
    assert!(!confirms_all(&vec![TransferOutcome::Confirmed], 2));
    assert!(!confirms_all(&vec![], 1));
    assert!(!confirms_all(&vec![TransferOutcome::Failed], 1));
    assert!(!confirms_all(&vec![TransferOutcome::Confirmed, TransferOutcome::Failed], 2));
    assert!(!confirms_all(&vec![TransferOutcome::Failed, TransferOutcome::Confirmed], 2));
}
