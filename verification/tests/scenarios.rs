use payments_core::{
    accounts_csv, Amount, ClientId, Ledger, LedgerError, Transaction, TxId, TxKind, TxState,
};

fn tx(kind: TxKind, client: u16, id: u32, amount: Option<Amount>) -> Transaction {
    Transaction {
        kind,
        client_id: ClientId(client),
        tx_id: TxId(id),
        amount,
    }
}

fn report(ledger: &Ledger) -> String {
    let mut rows = ledger.iter_accounts();
    rows.sort_by_key(|(c, _)| c.0);
    accounts_csv(&rows).0
}

#[test]
fn basic_deposits_and_withdrawals() {
    let mut ledger = Ledger::new();
    assert!(ledger.process(tx(TxKind::Deposit, 1, 1, Some(Amount::new(10, 1)))).is_ok());
    assert!(ledger.process(tx(TxKind::Deposit, 2, 2, Some(Amount::new(20, 1)))).is_ok());
    assert!(ledger.process(tx(TxKind::Deposit, 1, 3, Some(Amount::new(20, 1)))).is_ok());
    assert!(ledger.process(tx(TxKind::Withdrawal, 1, 4, Some(Amount::new(15, 1)))).is_ok());
    assert!(matches!(
        ledger.process(tx(TxKind::Withdrawal, 2, 5, Some(Amount::new(30, 1)))),
        Err(LedgerError::InsufficientFunds(ClientId(2)))
    ));
    assert_eq!(
        report(&ledger),
        "client,available,held,total,locked\n1,1.5000,0.0000,1.5000,false\n2,2.0000,0.0000,2.0000,false\n"
    );
}

#[test]
fn decimal_precision_is_four_places() {
    let mut ledger = Ledger::new();
    ledger
        .process(tx(TxKind::Deposit, 1, 1, Some(Amount::new(123456789, 8))))
        .unwrap();
    ledger
        .process(tx(TxKind::Deposit, 1, 2, Some(Amount::new(5, 5))))
        .unwrap();
    assert_eq!(
        report(&ledger),
        "client,available,held,total,locked\n1,1.2346,0.0000,1.2346,false\n"
    );
    assert_eq!(ledger.transactions.get(&2).unwrap().amount, Amount::zero());
}

#[test]
fn rejected_transaction_changes_nothing() {
    let mut ledger = Ledger::new();
    ledger
        .process(tx(TxKind::Deposit, 1, 1, Some(Amount::new(5, 0))))
        .unwrap();
    let before_available = ledger.accounts.get(&1).unwrap().available;
    let before_log = ledger.event_log.len();
    assert!(matches!(
        ledger.process(tx(TxKind::Deposit, 1, 1, Some(Amount::new(3, 0)))),
        Err(LedgerError::DuplicateTxId(TxId(1)))
    ));
    assert!(matches!(
        ledger.process(tx(TxKind::Deposit, 1, 2, None)),
        Err(LedgerError::MissingAmount(TxId(2)))
    ));
    assert!(matches!(
        ledger.process(tx(TxKind::Deposit, 1, 2, Some(Amount::zero()))),
        Err(LedgerError::InvalidAmount)
    ));
    assert!(matches!(
        ledger.process(tx(TxKind::Dispute, 1, 77, None)),
        Err(LedgerError::TxNotFound(TxId(77)))
    ));
    assert_eq!(ledger.accounts.get(&1).unwrap().available, before_available);
    assert_eq!(ledger.event_log.len(), before_log);
    assert_eq!(ledger.transactions.len(), 1);
}

#[test]
fn accepted_transactions_are_logged_unnormalized() {
    let mut ledger = Ledger::new();
    ledger
        .process(tx(TxKind::Deposit, 1, 1, Some(Amount::new(123456, 5))))
        .unwrap();
    let _ = ledger.process(tx(TxKind::Withdrawal, 1, 2, Some(Amount::new(9, 0))));
    assert_eq!(ledger.event_log.len(), 1);
    assert_eq!(ledger.event_log[0].amount.unwrap().scale(), 5);
    assert_eq!(ledger.transactions.get(&1).unwrap().amount.scale(), 4);
}

#[test]
fn locked_account_blocks_everything() {
    let mut ledger = Ledger::new();
    ledger.process(tx(TxKind::Deposit, 1, 1, Some(Amount::new(5, 0)))).unwrap();
    ledger.process(tx(TxKind::Deposit, 1, 2, Some(Amount::new(7, 0)))).unwrap();
    ledger.process(tx(TxKind::Dispute, 1, 1, None)).unwrap();
    ledger.process(tx(TxKind::Chargeback, 1, 1, None)).unwrap();
    let locked = *ledger.accounts.get(&1).unwrap();
    assert!(locked.locked);
    for t in [
        tx(TxKind::Deposit, 1, 3, Some(Amount::new(1, 0))),
        tx(TxKind::Withdrawal, 1, 4, Some(Amount::new(1, 0))),
        tx(TxKind::Dispute, 1, 2, None),
        tx(TxKind::Resolve, 1, 2, None),
        tx(TxKind::Chargeback, 1, 1, None),
    ] {
        assert!(matches!(
            ledger.process(t),
            Err(LedgerError::AccountLocked(ClientId(1)))
        ));
    }
    let after = ledger.accounts.get(&1).unwrap();
    assert!(after.locked);
    assert_eq!(after.available, locked.available);
    assert_eq!(after.held, locked.held);
    assert_eq!(after.available, Amount::new(7, 0));
}

#[test]
fn dispute_lifecycle_and_totals() {
    let mut ledger = Ledger::new();
    ledger.process(tx(TxKind::Deposit, 1, 1, Some(Amount::new(10, 0)))).unwrap();
    ledger.process(tx(TxKind::Deposit, 2, 2, Some(Amount::new(4, 0)))).unwrap();
    let other = *ledger.accounts.get(&2).unwrap();
    assert!(matches!(
        ledger.process(tx(TxKind::Resolve, 1, 1, None)),
        Err(LedgerError::InvalidTxState(TxId(1), TxState::Active))
    ));
    assert!(matches!(
        ledger.process(tx(TxKind::Dispute, 1, 2, None)),
        Err(LedgerError::TxClientMismatch)
    ));
    ledger.process(tx(TxKind::Dispute, 1, 1, None)).unwrap();
    let a = ledger.accounts.get(&1).unwrap();
    assert_eq!(a.total(), Some(Amount::new(10, 0)));
    assert_eq!(a.held, Amount::new(10, 0));
    assert!(matches!(
        ledger.process(tx(TxKind::Dispute, 1, 1, None)),
        Err(LedgerError::InvalidTxState(TxId(1), TxState::Disputed))
    ));
    ledger.process(tx(TxKind::Resolve, 1, 1, None)).unwrap();
    let a = ledger.accounts.get(&1).unwrap();
    assert_eq!(a.total(), Some(Amount::new(10, 0)));
    assert_eq!(a.available, Amount::new(10, 0));
    assert_eq!(ledger.transactions.get(&1).unwrap().state, TxState::Resolved);
    for kind in [TxKind::Dispute, TxKind::Resolve, TxKind::Chargeback] {
        assert!(ledger.process(tx(kind, 1, 1, None)).is_err());
    }
    assert_eq!(ledger.transactions.get(&1).unwrap().state, TxState::Resolved);
    let b = ledger.accounts.get(&2).unwrap();
    assert_eq!(b.available, other.available);
    assert_eq!(b.held, other.held);
}

#[test]
fn iter_accounts_lists_each_client_once() {
    let mut ledger = Ledger::new();
    for (i, c) in [3u16, 1, 2, 3, 1].iter().enumerate() {
        ledger
            .process(tx(TxKind::Deposit, *c, i as u32, Some(Amount::new(1, 0))))
            .unwrap();
    }
    let mut ids: Vec<u16> = ledger.iter_accounts().iter().map(|(c, _)| c.0).collect();
    ids.sort();
    assert_eq!(ids, vec![1, 2, 3]);
    let three = ledger
        .iter_accounts()
        .into_iter()
        .find(|(c, _)| c.0 == 3)
        .unwrap()
        .1;
    assert_eq!(three.available, Amount::new(2, 0));
}

#[test]
fn validate_matches_process() {
    let mut ledger = Ledger::new();
    let t = tx(TxKind::Withdrawal, 4, 1, Some(Amount::new(1, 0)));
    assert!(matches!(ledger.validate(&t), Err(LedgerError::AccountLocked(ClientId(4)))));
    assert!(matches!(ledger.process(t), Err(LedgerError::AccountLocked(ClientId(4)))));
    let d = tx(TxKind::Deposit, 4, 2, Some(Amount::new(1, 0)));
    assert!(ledger.validate(&d).is_ok());
    assert!(ledger.process(d).is_ok());
}

#[test]
fn only_deposits_create_accounts_and_records() {
    let mut ledger = Ledger::new();
    assert!(ledger.process(tx(TxKind::Withdrawal, 8, 1, Some(Amount::new(1, 0)))).is_err());
    assert!(ledger.process(tx(TxKind::Dispute, 8, 1, None)).is_err());
    assert!(ledger.accounts.is_empty());
    assert!(ledger.transactions.is_empty());
    ledger.process(tx(TxKind::Deposit, 8, 1, Some(Amount::new(3, 0)))).unwrap();
    ledger.process(tx(TxKind::Deposit, 8, 2, Some(Amount::new(4, 0)))).unwrap();
    ledger.process(tx(TxKind::Withdrawal, 8, 3, Some(Amount::new(1, 0)))).unwrap();
    assert_eq!(ledger.accounts.len(), 1);
    assert_eq!(ledger.transactions.len(), 2);
    ledger.process(tx(TxKind::Dispute, 8, 1, None)).unwrap();
    assert_eq!(ledger.transactions.get(&2).unwrap().state, TxState::Active);
    assert_eq!(ledger.transactions.get(&1).unwrap().state, TxState::Disputed);
}

#[test]
fn chargeback_removes_held_funds_and_locks() {
    let mut ledger = Ledger::new();
    ledger.process(tx(TxKind::Deposit, 1, 1, Some(Amount::new(10, 0)))).unwrap();
    ledger.process(tx(TxKind::Dispute, 1, 1, None)).unwrap();
    ledger.process(tx(TxKind::Chargeback, 1, 1, None)).unwrap();
    assert_eq!(
        report(&ledger),
        "client,available,held,total,locked\n1,0.0000,0.0000,0.0000,true\n"
    );
    assert_eq!(ledger.transactions.get(&1).unwrap().state, TxState::ChargedBack);
}

#[test]
fn normalizing_twice_changes_nothing() {
    let once = payments_core::normalize_amount(Amount::new(123456789, 8));
    assert_eq!(once, Amount::new(12346, 4));
    let twice = payments_core::normalize_amount(once);
    assert_eq!(twice.mantissa(), once.mantissa());
    assert_eq!(twice.scale(), once.scale());
    assert_eq!(payments_core::normalize_amount(Amount::new(25, 1)), Amount::new(25, 1));
}

#[test]
fn held_funds_track_open_disputes() {
    let mut ledger = Ledger::new();
    ledger.process(tx(TxKind::Deposit, 1, 1, Some(Amount::new(10, 0)))).unwrap();
    ledger.process(tx(TxKind::Deposit, 1, 2, Some(Amount::new(205, 1)))).unwrap();
    ledger.process(tx(TxKind::Deposit, 2, 3, Some(Amount::new(7, 0)))).unwrap();
    ledger.process(tx(TxKind::Dispute, 1, 1, None)).unwrap();
    ledger.process(tx(TxKind::Dispute, 1, 2, None)).unwrap();
    ledger.process(tx(TxKind::Dispute, 2, 3, None)).unwrap();
    assert_eq!(ledger.accounts.get(&1).unwrap().held, Amount::new(305, 1));
    assert_eq!(ledger.accounts.get(&2).unwrap().held, Amount::new(7, 0));
    ledger.process(tx(TxKind::Resolve, 1, 2, None)).unwrap();
    assert_eq!(ledger.accounts.get(&1).unwrap().held, Amount::new(10, 0));
    ledger.process(tx(TxKind::Chargeback, 1, 1, None)).unwrap();
    let a = ledger.accounts.get(&1).unwrap();
    assert_eq!(a.held, Amount::zero());
    assert_eq!(a.available, Amount::new(205, 1));
    assert!(a.locked);
    assert_eq!(ledger.accounts.get(&2).unwrap().held, Amount::new(7, 0));
}
