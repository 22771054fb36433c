use payments_core::{
    convert, Amount, ClientId, LedgerError, ParseError, Processor, RawTransaction, Transaction,
    TxId, TxKind,
};

fn transactions_ok(txs: Vec<Transaction>) -> Vec<Result<Transaction, ParseError>> {
    txs.into_iter().map(Ok).collect()
}

#[test]
fn test_processor_basic() {
    let txs = vec![
        Transaction {
            kind: TxKind::Deposit,
            client_id: ClientId(1),
            tx_id: TxId(1),
            amount: Some(Amount::new(100, 1)),
        },
        Transaction {
            kind: TxKind::Withdrawal,
            client_id: ClientId(1),
            tx_id: TxId(2),
            amount: Some(Amount::new(30, 1)),
        },
    ];

    let (ledger, _warnings) = Processor::new(transactions_ok(txs)).run();
    let account = ledger
        .iter_accounts()
        .into_iter()
        .find(|(id, _)| *id == ClientId(1));
    assert!(account.is_some());

    let (_, account) = account.unwrap();
    assert_eq!(account.available, Amount::new(70, 1));
}

#[test]
fn test_processor_skips_invalid() {
    let txs = vec![
        Transaction {
            kind: TxKind::Deposit,
            client_id: ClientId(1),
            tx_id: TxId(1),
            amount: Some(Amount::new(50, 1)),
        },
        Transaction {
            kind: TxKind::Withdrawal,
            client_id: ClientId(1),
            tx_id: TxId(2),
            amount: Some(Amount::new(100, 1)), // insufficient funds
        },
    ];

    let (ledger, _warnings) = Processor::new(transactions_ok(txs)).run();
    let (_, account) = ledger
        .iter_accounts()
        .into_iter()
        .find(|(id, _)| *id == ClientId(1))
        .unwrap();
    assert_eq!(account.available, Amount::new(50, 1)); // withdrawal skipped
}

#[test]
fn warnings_name_the_input_line() {
    let bad_type = convert(RawTransaction {
        kind: "refund".to_string(),
        client: 1,
        tx: 9,
        amount: None,
    });
    let items = vec![
        Ok(Transaction {
            kind: TxKind::Deposit,
            client_id: ClientId(1),
            tx_id: TxId(1),
            amount: Some(Amount::new(5, 0)),
        }),
        bad_type,
        Ok(Transaction {
            kind: TxKind::Withdrawal,
            client_id: ClientId(2),
            tx_id: TxId(2),
            amount: Some(Amount::new(1, 0)),
        }),
        Ok(Transaction {
            kind: TxKind::Dispute,
            client_id: ClientId(1),
            tx_id: TxId(1),
            amount: None,
        }),
    ];
    let (ledger, warnings) = Processor::new(items).run();
    assert_eq!(
        warnings,
        vec![
            "warn: row 3: invalid transaction type: refund".to_string(),
            "warn: row 4: account is locked: client 2".to_string(),
        ]
    );
    let account = ledger.accounts.get(&1).unwrap();
    assert_eq!(account.available, Amount::zero());
    assert_eq!(account.held, Amount::new(5, 0));
    assert_eq!(ledger.event_log.len(), 2);
    assert!(matches!(
        ledger.validate(&Transaction {
            kind: TxKind::Resolve,
            client_id: ClientId(1),
            tx_id: TxId(2),
            amount: None,
        }),
        Err(LedgerError::TxNotFound(TxId(2)))
    ));
}
