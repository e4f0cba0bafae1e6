use txn::{Account, Amount, Event, EventError, Shard, ShardError, Transaction};

fn amt(text: &str) -> Amount {
    Amount::from_str(text).unwrap()
}

fn deposit(client: u16, tx: u32, amount: &str) -> Event {
    Event::Deposit { client, tx, amount: amt(amount) }
}

fn withdrawal(client: u16, tx: u32, amount: &str) -> Event {
    Event::Withdrawal { client, tx, amount: amt(amount) }
}

#[test]
fn conservation_without_disputes() {
    let mut shard = Shard::new();
    shard.push_event(deposit(1, 1, "10.5"));
    shard.push_event(deposit(1, 2, "2.25"));
    shard.push_event(withdrawal(1, 3, "4.0001"));
    let account = shard.get_account(1).unwrap();
    assert_eq!(account.total(), amt("8.7499"));
    assert_eq!(account.held(), Amount::new(0));
    assert_eq!(account.available(), amt("8.7499"));
    assert!(!account.is_locked());
    assert!(shard.errors().is_empty());
}

#[test]
fn dispute_holds_then_resolve_releases() {
    let mut shard = Shard::new();
    shard.push_event(deposit(1, 1, "10.0"));
    shard.push_event(deposit(1, 9, "3.0"));
    shard.push_event(Event::Dispute { client: 1, tx: 1 });
    let account = shard.get_account(1).unwrap();
    assert_eq!(account.held(), amt("10.0"));
    assert_eq!(account.total(), amt("13.0"));
    assert_eq!(account.available(), amt("3.0"));

    shard.push_event(Event::Resolve { client: 1, tx: 1 });
    let account = shard.get_account(1).unwrap();
    assert_eq!(account.held(), Amount::new(0));
    assert_eq!(account.total(), amt("13.0"));
    let tx = shard.get_transaction(1).unwrap();
    assert!(tx.is_disputed() && tx.is_resolved() && !tx.is_chargebacked());
}

#[test]
fn chargeback_locks_and_removes_funds() {
    let mut shard = Shard::new();
    shard.push_event(deposit(2, 2, "5.0"));
    shard.push_event(deposit(2, 3, "1.0"));
    shard.push_event(Event::Dispute { client: 2, tx: 2 });
    shard.push_event(Event::Chargeback { client: 2, tx: 2 });
    let account = shard.get_account(2).unwrap();
    assert_eq!(account.held(), Amount::new(0));
    assert_eq!(account.total(), amt("1.0"));
    assert!(account.is_locked());
    assert!(shard.errors().is_empty());
}

#[test]
fn dispute_before_deposit_is_caught_up() {
    let mut shard = Shard::new();
    shard.push_event(Event::Dispute { client: 3, tx: 3 });
    shard.push_event(deposit(3, 3, "7.0"));
    let account = shard.get_account(3).unwrap();
    assert_eq!(account.held(), amt("7.0"));
    assert_eq!(account.total(), amt("7.0"));
    assert_eq!(account.available(), Amount::new(0));
}

#[test]
fn overflowing_deposit_is_reported() {
    let mut shard = Shard::new();
    shard.push_event(deposit(4, 1, "922337203685477"));
    shard.push_event(deposit(4, 2, "1"));
    assert_eq!(shard.get_account(4).unwrap().total(), amt("922337203685477"));
    assert_eq!(shard.errors().len(), 1);
    let message = shard.errors()[0].to_string();
    assert_eq!(
        message,
        "Transaction 2 failed due to arithmetic overflow: 922337203685477.0000 + 1.0000"
    );
    match &shard.errors()[0] {
        ShardError::TransactionOprror { tx, reason } => {
            assert_eq!(*tx, 2);
            assert_eq!(reason.op, "+");
        }
        _ => panic!("expected an arithmetic error"),
    }
    assert_eq!(shard.get_transaction(2).unwrap().amount(), Amount::new(0));
    assert!(!shard.get_transaction(2).unwrap().has_amount());
}

#[test]
fn unknown_transaction_leaves_balances() {
    let mut shard = Shard::new();
    shard.push_event(deposit(5, 1, "2.0"));
    shard.push_event(Event::Dispute { client: 5, tx: 77 });
    shard.push_event(Event::Resolve { client: 5, tx: 78 });
    shard.push_event(Event::Chargeback { client: 5, tx: 79 });
    let account = shard.get_account(5).unwrap();
    assert_eq!(account.total(), amt("2.0"));
    assert_eq!(account.held(), Amount::new(0));
    assert!(!account.is_locked());
    assert!(shard.get_transaction(77).unwrap().is_disputed());
    assert!(shard.get_transaction(79).unwrap().is_chargebacked());
    assert!(shard.errors().is_empty());
}

#[test]
fn duplicate_amount_is_rejected() {
    let mut shard = Shard::new();
    shard.push_event(deposit(6, 1, "2.0"));
    shard.push_event(deposit(6, 1, "3.0"));
    assert_eq!(shard.get_account(6).unwrap().total(), amt("2.0"));
    assert_eq!(shard.get_transaction(1).unwrap().amount(), amt("2.0"));
    assert_eq!(shard.errors().len(), 1);
    assert_eq!(
        shard.errors()[0].to_string(),
        "Transaction 1 already has an amount; the record was rejected"
    );
}

#[test]
fn withdrawal_dispute_holds_negated_amount() {
    let mut shard = Shard::new();
    shard.push_event(deposit(7, 1, "10"));
    shard.push_event(withdrawal(7, 2, "4"));
    shard.push_event(Event::Dispute { client: 7, tx: 2 });
    let account = shard.get_account(7).unwrap();
    assert_eq!(account.total(), amt("6"));
    assert_eq!(account.held(), amt("-4"));
    assert_eq!(shard.get_transaction(2).unwrap().amount(), amt("-4"));
}

#[test]
fn redispute_after_resolve_releases_again() {
    let mut shard = Shard::new();
    shard.push_event(deposit(8, 1, "10"));
    shard.push_event(Event::Dispute { client: 8, tx: 1 });
    shard.push_event(Event::Resolve { client: 8, tx: 1 });
    shard.push_event(Event::Dispute { client: 8, tx: 1 });
    let account = shard.get_account(8).unwrap();
    assert_eq!(account.held(), amt("-10"));
    assert_eq!(account.total(), amt("10"));
}

#[test]
fn snapshot_is_sorted_by_client() {
    let mut shard = Shard::new();
    shard.push_event(deposit(30, 1, "1"));
    shard.push_event(deposit(2, 2, "2"));
    shard.push_event(deposit(65535, 3, "3"));
    shard.push_event(deposit(0, 4, "4"));
    let sorted = shard.generate_output_sorted();
    let clients: Vec<u16> = sorted.iter().map(|o| o.client).collect();
    assert_eq!(clients, vec![0, 2, 30, 65535]);
    assert_eq!(sorted[2].total, amt("1"));
    assert_eq!(sorted[2].available, amt("1"));
    let mut unsorted: Vec<u16> = shard.generate_output().iter().map(|o| o.client).collect();
    unsorted.sort();
    assert_eq!(unsorted, clients);
}

#[test]
fn account_operations() {
    let mut account = Account::new();
    assert!(account.deposit(amt("5")).is_ok());
    assert!(account.hold(amt("2")).is_ok());
    assert_eq!(account.available(), amt("3"));
    assert!(account.release(amt("1")).is_ok());
    assert_eq!(account.held(), amt("1"));
    assert!(account.withdraw(amt("1")).is_ok());
    assert_eq!(account.total(), amt("4"));
    assert!(account.chargeback(amt("1"), true).is_ok());
    assert!(account.is_locked());
    assert_eq!(account.total(), amt("3"));
    assert_eq!(account.held(), Amount::new(0));
    account.unlock();
    assert!(!account.is_locked());
    account.lock();
    assert!(account.is_locked());
}

#[test]
fn chargeback_keeps_lock_on_overflow() {
    let mut account = Account::new();
    let e = account.chargeback(Amount::new(i64::MIN), false).unwrap_err();
    assert!(account.is_locked());
    assert_eq!(account.total(), Amount::new(0));
    assert_eq!(e.op, "-");
    let mut held = Account::new();
    assert!(held.deposit(Amount::new(i64::MAX)).is_err() == false);
    assert!(held.deposit(Amount::new(1)).is_err());
}

#[test]
fn available_floors_at_zero_when_out_of_range() {
    let mut account = Account::new();
    assert!(account.deposit(Amount::new(i64::MAX)).is_ok());
    assert!(account.hold(Amount::new(-1)).is_ok());
    assert_eq!(account.available(), Amount::new(0));
}

#[test]
fn events_from_records() {
    let e = Event::from_record("deposit", 1, 2, Some(amt("1.5"))).unwrap();
    assert_eq!(e.client(), 1);
    assert_eq!(e.transaction(), 2);
    assert_eq!(e.amount(), Some(amt("1.5")));
    let e = Event::from_record("dispute", 3, 4, None).unwrap();
    assert_eq!(e.amount(), None);
    assert_eq!(e.transaction(), 4);
    assert!(matches!(Event::from_record("resolve", 1, 1, None), Ok(Event::Resolve { .. })));
    assert!(matches!(
        Event::from_record("chargeback", 1, 1, None),
        Ok(Event::Chargeback { .. })
    ));
    assert!(matches!(
        Event::from_record("withdrawal", 1, 1, Some(amt("1"))),
        Ok(Event::Withdrawal { .. })
    ));
    let missing = Event::from_record("withdrawal", 1, 1, None).unwrap_err();
    assert_eq!(missing, EventError::MissingAmount);
    assert_eq!(missing.message(), "missing required field: amount");
    let invalid = Event::from_record("transfer", 1, 1, None).unwrap_err();
    assert_eq!(invalid, EventError::InvalidType);
    assert_eq!(invalid.message(), "invalid event type");
}

#[test]
fn transaction_starts_fresh() {
    let t = Transaction::new();
    assert_eq!(t.amount(), Amount::new(0));
    assert!(!t.is_disputed() && !t.is_resolved() && !t.is_chargebacked());
    let mut t = Transaction::new();
    let mut account = Account::new();
    assert!(t.apply(Event::Withdrawal { client: 1, tx: 1, amount: Amount::new(i64::MIN) }, &mut account).is_err());
    assert!(!t.has_amount());
}

#[test]
fn negative_overflow_message() {
    let e = Amount::new(i64::MIN).neg().unwrap_err();
    let err = ShardError::TransactionOprror { tx: 12, reason: e };
    assert_eq!(
        err.to_string(),
        "Transaction 12 failed due to arithmetic overflow: --922337203685477.5808"
    );
}

#[test]
fn lock_and_flags_are_never_undone() {
    let mut shard = Shard::new();
    shard.push_event(deposit(9, 1, "5"));
    shard.push_event(Event::Dispute { client: 9, tx: 1 });
    shard.push_event(Event::Chargeback { client: 9, tx: 1 });
    shard.push_event(deposit(9, 2, "1"));
    shard.push_event(Event::Resolve { client: 9, tx: 1 });
    shard.push_event(Event::Dispute { client: 9, tx: 1 });
    let account = shard.get_account(9).unwrap();
    assert!(account.is_locked());
    let tx = shard.get_transaction(1).unwrap();
    assert!(tx.is_disputed() && tx.is_resolved() && tx.is_chargebacked());
    assert_eq!(tx.amount(), amt("5"));
    assert_eq!(account.total(), amt("-4"));
}
