use payments_core::{
    apply_deposit, apply_dispute, normalize_amount, validate_dispute_no_overflow, apply_resolve, apply_withdrawal, Account, Amount, ClientId,
    Ledger, LedgerError, Transaction, TxId, TxKind, TxRecord, TxState,
};

fn amt(mantissa: i64, scale: u32) -> Amount {
    Amount::new(mantissa, scale)
}

fn tx(kind: TxKind, client: u16, id: u32, amount: Option<Amount>) -> Transaction {
    Transaction {
        kind,
        client_id: ClientId(client),
        tx_id: TxId(id),
        amount,
    }
}

fn parts(a: Amount) -> (i128, u32) {
    (a.mantissa(), a.scale())
}

fn sample_history() -> Vec<Transaction> {
    vec![
        tx(TxKind::Deposit, 1, 1, Some(amt(100, 1))),
        tx(TxKind::Deposit, 2, 2, Some(amt(5, 0))),
        tx(TxKind::Withdrawal, 1, 3, Some(amt(25, 1))),
        tx(TxKind::Withdrawal, 2, 4, Some(amt(9, 0))),
        tx(TxKind::Dispute, 1, 1, None),
        tx(TxKind::Deposit, 1, 5, Some(amt(123456, 5))),
        tx(TxKind::Resolve, 1, 1, None),
        tx(TxKind::Dispute, 2, 2, None),
        tx(TxKind::Chargeback, 2, 2, None),
        tx(TxKind::Deposit, 2, 6, Some(amt(1, 0))),
        tx(TxKind::Dispute, 1, 5, None),
    ]
}

#[test]
fn adding_zero_gives_the_other_operand() {
    let a = Account {
        available: Amount::zero(),
        held: amt(150, 2),
        locked: false,
    };
    assert_eq!(parts(a.total().unwrap()), (150, 2));
    let b = Account {
        available: amt(7, 3),
        held: amt(0, 5),
        locked: false,
    };
    assert_eq!(parts(b.total().unwrap()), (7, 3));
}

#[test]
fn exact_sum_is_at_the_larger_scale() {
    let a = Account {
        available: amt(1, 1),
        held: amt(2, 3),
        locked: false,
    };
    assert_eq!(parts(a.total().unwrap()), (102, 3));
}

#[test]
fn sum_beyond_the_largest_decimal_is_none() {
    let a = Account {
        available: Amount::max(),
        held: Amount::one(),
        locked: false,
    };
    assert!(a.total().is_none());
}

#[test]
fn withdrawal_from_zero_flips_the_sign() {
    let a = Account {
        available: Amount::zero(),
        held: Amount::zero(),
        locked: false,
    };
    let b = apply_withdrawal(&a, amt(25, 1));
    assert_eq!(parts(b.available), (-25, 1));
}

#[test]
fn empty_ledger_accepts_a_positive_deposit() {
    let mut ledger = Ledger::new();
    assert_eq!(ledger.iter_accounts().len(), 0);
    let d = tx(TxKind::Deposit, 1, 1, Some(amt(100, 1)));
    assert!(ledger.validate(&d).is_ok());
    assert!(ledger.process(d).is_ok());
    assert_eq!(parts(ledger.accounts[&1].available), (100, 1));
}

#[test]
fn empty_ledger_rejects_everything_else() {
    let ledger = Ledger::new();
    let zero = tx(TxKind::Deposit, 1, 1, Some(amt(0, 0)));
    assert!(matches!(ledger.validate(&zero), Err(LedgerError::InvalidAmount)));
    let w = tx(TxKind::Withdrawal, 1, 2, Some(amt(1, 0)));
    assert!(matches!(
        ledger.validate(&w),
        Err(LedgerError::AccountLocked(ClientId(1)))
    ));
    for kind in [TxKind::Dispute, TxKind::Resolve, TxKind::Chargeback] {
        let t = tx(kind, 1, 1, None);
        assert!(matches!(
            ledger.validate(&t),
            Err(LedgerError::AccountLocked(ClientId(1)))
        ));
    }
}

#[test]
fn deposit_then_withdrawal_restores_available() {
    let a = Account {
        available: amt(35, 1),
        held: amt(2, 0),
        locked: false,
    };
    let x = amt(10, 1);
    let b = apply_withdrawal(&apply_deposit(&a, x), x);
    assert_eq!(b.available, a.available);
    assert_eq!(parts(b.held), parts(a.held));
    assert_eq!(b.locked, a.locked);
    let c = apply_withdrawal(&a, x);
    assert_eq!(parts(c.available), (25, 1));
}

#[test]
fn dispute_then_resolve_restores_account() {
    let a = Account {
        available: amt(50, 0),
        held: amt(125, 2),
        locked: false,
    };
    let r = TxRecord {
        client_id: ClientId(3),
        amount: amt(20, 0),
        state: TxState::Active,
    };
    let (a1, r1) = apply_dispute(a, r);
    let (a2, r2) = apply_resolve(a1, r1);
    assert_eq!(a2.available, a.available);
    assert_eq!(a2.held, a.held);
    assert_eq!(a2.locked, a.locked);
    assert_eq!(r2.client_id, ClientId(3));
    assert_eq!(parts(r2.amount), (20, 0));
    assert_eq!(r2.state, TxState::Resolved);
}

#[test]
fn replaying_the_log_rebuilds_the_ledger() {
    let mut ledger = Ledger::new();
    for t in sample_history() {
        let _ = ledger.process(t);
    }
    let mut replay = Ledger::new();
    for t in ledger.event_log.clone() {
        assert!(replay.process(t).is_ok());
    }
    assert_eq!(replay.event_log.len(), ledger.event_log.len());
    assert_eq!(replay.accounts.len(), ledger.accounts.len());
    for (c, a) in ledger.accounts.iter() {
        let b = replay.accounts[c];
        assert_eq!(parts(b.available), parts(a.available));
        assert_eq!(parts(b.held), parts(a.held));
        assert_eq!(b.locked, a.locked);
    }
    assert_eq!(replay.transactions.len(), ledger.transactions.len());
    for (k, r) in ledger.transactions.iter() {
        let s = replay.transactions[k];
        assert_eq!(s.client_id, r.client_id);
        assert_eq!(parts(s.amount), parts(r.amount));
        assert_eq!(s.state, r.state);
    }
}

#[test]
fn lock_holds_over_later_transactions() {
    let mut ledger = Ledger::new();
    for t in sample_history() {
        let _ = ledger.process(t);
    }
    let locked = ledger.accounts[&2];
    assert!(locked.locked);
    let later = vec![
        tx(TxKind::Deposit, 2, 10, Some(amt(7, 0))),
        tx(TxKind::Withdrawal, 2, 11, Some(amt(1, 0))),
        tx(TxKind::Dispute, 2, 6, None),
        tx(TxKind::Deposit, 1, 12, Some(amt(3, 0))),
        tx(TxKind::Resolve, 2, 2, None),
    ];
    for t in later {
        let r = ledger.process(t);
        if t.client_id == ClientId(2) {
            assert!(r.is_err());
        }
    }
    let after = ledger.accounts[&2];
    assert_eq!(parts(after.available), parts(locked.available));
    assert_eq!(parts(after.held), parts(locked.held));
    assert!(after.locked);
    assert!(!ledger.transactions.contains_key(&10));
    assert_eq!(ledger.transactions[&2].state, TxState::ChargedBack);
}

#[test]
fn only_a_chargeback_locks() {
    let mut ledger = Ledger::new();
    let history = sample_history();
    let mut locked_at = None;
    for (i, t) in history.iter().enumerate() {
        let r = ledger.process(*t);
        if locked_at.is_none() && ledger.accounts.get(&2).map_or(false, |a| a.locked) {
            locked_at = Some(i);
            assert_eq!(t.kind, TxKind::Chargeback);
            assert!(r.is_ok());
        }
    }
    assert_eq!(locked_at, Some(8));
    assert!(!ledger.accounts[&1].locked);
}

#[test]
fn funds_balance_deposits_withdrawals_and_chargebacks() {
    let mut ledger = Ledger::new();
    for t in sample_history() {
        let _ = ledger.process(t);
    }
    // Client 1: deposits 10.0 and 1.23456 (normalized 1.2346), withdrawal 2.5.
    let a = ledger.accounts[&1];
    assert_eq!(a.total().unwrap(), amt(87346, 4));
    assert_eq!(a.held, amt(12346, 4));
    // Client 2: deposit 5, charged back; the withdrawal of 9 failed; the later deposit was
    // rejected by the lock.
    let b = ledger.accounts[&2];
    assert_eq!(b.total().unwrap(), Amount::zero());
    assert_eq!(b.held, Amount::zero());
    assert!(b.held.mantissa() >= 0);
}

fn dec(s: &str) -> Amount {
    let d = rust_decimal::Decimal::from_str_exact(s).unwrap();
    Amount::try_from_parts(d.mantissa(), d.scale()).unwrap()
}

#[test]
fn normalization_picks_nearest_multiple() {
    assert_eq!(parts(normalize_amount(dec("1.23455"))), (12346, 4));
    assert_eq!(parts(normalize_amount(dec("1.23445"))), (12344, 4));
    assert_eq!(parts(normalize_amount(dec("1.234449"))), (12344, 4));
    assert_eq!(parts(normalize_amount(dec("-1.23455"))), (-12346, 4));
    assert_eq!(parts(normalize_amount(dec("0.00005"))), (0, 4));
    assert_eq!(parts(normalize_amount(dec("0.00015"))), (2, 4));
    assert_eq!(parts(normalize_amount(dec("2.5"))), (25, 1));
}

#[test]
fn normalization_keeps_order() {
    let xs = [
        "-0.00015", "-0.00005", "0", "0.00004", "0.00005", "0.00006", "0.00015", "0.00025",
        "0.000251", "1",
    ];
    for w in xs.windows(2) {
        let a = normalize_amount(dec(w[0]));
        let b = normalize_amount(dec(w[1]));
        assert!(a.mantissa() * 10i128.pow(4 - a.scale()) <= b.mantissa() * 10i128.pow(4 - b.scale()));
    }
}

#[test]
fn large_amounts_move_exactly() {
    let mut ledger = Ledger::new();
    let big = dec("999999999999999999999999.9999");
    assert!(ledger.process(tx(TxKind::Deposit, 1, 1, Some(big))).is_ok());
    assert!(ledger.process(tx(TxKind::Deposit, 1, 2, Some(big))).is_ok());
    assert_eq!(
        ledger.accounts[&1].available,
        dec("1999999999999999999999999.9998")
    );
    assert!(ledger.process(tx(TxKind::Dispute, 1, 2, None)).is_ok());
    assert_eq!(ledger.accounts[&1].held, big);
    assert_eq!(ledger.accounts[&1].total().unwrap(), dec("1999999999999999999999999.9998"));
}

#[test]
fn overflowing_deposit_is_rejected() {
    let mut ledger = Ledger::new();
    assert!(ledger
        .process(tx(TxKind::Deposit, 1, 1, Some(Amount::max())))
        .is_ok());
    let r = ledger.process(tx(TxKind::Deposit, 1, 2, Some(Amount::one())));
    assert!(matches!(r, Err(LedgerError::Overflow)));
    assert_eq!(parts(ledger.accounts[&1].available), parts(Amount::max()));
    assert!(!ledger.transactions.contains_key(&2));
    assert_eq!(ledger.event_log.len(), 1);
}

#[test]
fn overflowing_total_and_held_are_rejected() {
    let mut ledger = Ledger::new();
    assert!(ledger
        .process(tx(TxKind::Deposit, 1, 1, Some(Amount::max())))
        .is_ok());
    assert!(ledger.process(tx(TxKind::Dispute, 1, 1, None)).is_ok());
    // available + held is 2^96 - 1, so one more would leave the range.
    let r = ledger.process(tx(TxKind::Deposit, 1, 2, Some(Amount::one())));
    assert!(matches!(r, Err(LedgerError::Overflow)));
    assert!(!ledger.transactions.contains_key(&2));
    let r = validate_dispute_no_overflow(Amount::zero(), Amount::max(), Amount::one());
    assert!(matches!(r, Err(LedgerError::Overflow)));
}
