use payments_core::{
    convert, normalize_amount, parse_optional_amount, Amount, ClientId, ParseError,
    RawTransaction, TxId, TxKind,
};

fn raw(kind: &str, client: u16, tx: u32, amount: Option<Amount>) -> RawTransaction {
    RawTransaction {
        kind: kind.to_string(),
        client,
        tx,
        amount,
    }
}

#[test]
fn convert_deposit_record() {
    let tx = convert(raw("deposit", 1, 1, Some(Amount::new(15, 1)))).unwrap();
    assert_eq!(tx.kind, TxKind::Deposit);
    assert_eq!(tx.client_id, ClientId(1));
    assert_eq!(tx.tx_id, TxId(1));
    assert_eq!(tx.amount, Some(Amount::new(15, 1)));
}

#[test]
fn convert_is_case_insensitive_and_trims() {
    assert_eq!(convert(raw("  DEPOSIT ", 1, 1, None)).unwrap().kind, TxKind::Deposit);
    assert_eq!(convert(raw("Withdrawal", 2, 2, None)).unwrap().kind, TxKind::Withdrawal);
    assert_eq!(convert(raw("chargeback", 2, 2, None)).unwrap().kind, TxKind::Chargeback);
}

#[test]
fn convert_rejects_unknown_type() {
    match convert(raw("Invalid", 1, 1, None)) {
        Err(ParseError::InvalidTxType(t)) => assert_eq!(t, "invalid"),
        other => panic!("unexpected {:?}", other),
    }
}

#[test]
fn optional_amount_blank_or_absent_is_none() {
    assert!(parse_optional_amount(None).unwrap().is_none());
    assert!(parse_optional_amount(Some("")).unwrap().is_none());
    assert!(parse_optional_amount(Some("   ")).unwrap().is_none());
}

#[test]
fn optional_amount_parses_trimmed_decimal() {
    let a = parse_optional_amount(Some("  1.2345  ")).unwrap().unwrap();
    assert_eq!(a.mantissa(), 12345);
    assert_eq!(a.scale(), 4);
    let b = parse_optional_amount(Some("2.0")).unwrap().unwrap();
    assert_eq!(b, Amount::new(2, 0));
    assert_eq!(b.scale(), 1);
    assert!(parse_optional_amount(Some("not_a_number")).is_err());
}

#[test]
fn normalization_rounds_half_to_even() {
    assert_eq!(normalize_amount(Amount::new(123456, 5)), Amount::new(12346, 4));
    assert_eq!(normalize_amount(Amount::new(100005, 5)), Amount::new(10000, 4));
    assert_eq!(normalize_amount(Amount::new(100015, 5)), Amount::new(10002, 4));
    assert_eq!(normalize_amount(Amount::new(-100015, 5)), Amount::new(-10002, 4));
    assert_eq!(normalize_amount(Amount::new(123456789, 8)).scale(), 4);
    assert_eq!(normalize_amount(Amount::new(25, 1)).scale(), 1);
    assert_eq!(normalize_amount(Amount::new(5, 5)), Amount::zero());
}
