use payments_core::{Account, Amount, ClientId, ParseTxKindError, TxId, TxKind};

#[test]
fn test_client_id_display() {
    assert_eq!(ClientId(42).to_string(), "42");
}

#[test]
fn test_client_id_from_str() {
    assert_eq!("42".parse::<ClientId>().unwrap(), ClientId(42));
    assert_eq!("  42  ".parse::<ClientId>().unwrap(), ClientId(42));
    assert!("invalid".parse::<ClientId>().is_err());
}

#[test]
fn test_tx_id_display() {
    assert_eq!(TxId(123456).to_string(), "123456");
}

#[test]
fn test_tx_id_from_str() {
    assert_eq!("123456".parse::<TxId>().unwrap(), TxId(123456));
    assert!("invalid".parse::<TxId>().is_err());
}

#[test]
fn test_tx_kind_from_str() {
    assert_eq!("deposit".parse::<TxKind>().unwrap(), TxKind::Deposit);
    assert_eq!("DEPOSIT".parse::<TxKind>().unwrap(), TxKind::Deposit);
    assert_eq!("  Deposit  ".parse::<TxKind>().unwrap(), TxKind::Deposit);
    assert_eq!("withdrawal".parse::<TxKind>().unwrap(), TxKind::Withdrawal);
    assert_eq!("dispute".parse::<TxKind>().unwrap(), TxKind::Dispute);
    assert_eq!("resolve".parse::<TxKind>().unwrap(), TxKind::Resolve);
    assert_eq!("chargeback".parse::<TxKind>().unwrap(), TxKind::Chargeback);
    assert!("invalid".parse::<TxKind>().is_err());
}

#[test]
fn test_account_total() {
    let account = Account {
        available: Amount::new(100, 2),
        held: Amount::new(50, 2),
        locked: false,
    };
    assert_eq!(account.total(), Some(Amount::new(150, 2)));
}

#[test]
fn test_account_default() {
    let account = Account::default();
    assert_eq!(account.available, Amount::zero());
    assert_eq!(account.held, Amount::zero());
    assert!(!account.locked);
}

#[test]
fn client_id_rejects_out_of_range_and_signs() {
    assert!("65536".parse::<ClientId>().is_err());
    assert_eq!("65535".parse::<ClientId>().unwrap(), ClientId(65535));
    assert_eq!("+7".parse::<ClientId>().unwrap(), ClientId(7));
    assert!("-7".parse::<ClientId>().is_err());
    assert!("".parse::<ClientId>().is_err());
    assert!("4294967296".parse::<TxId>().is_err());
    assert_eq!("\t4294967295\n".parse::<TxId>().unwrap(), TxId(4294967295));
}

#[test]
fn tx_kind_error_keeps_lowercased_text() {
    let err = "  ReFund ".parse::<TxKind>().unwrap_err();
    assert_eq!(err.0, "refund");
    assert_eq!(err.to_string(), "unknown transaction type: refund");
}

#[test]
fn kind_and_state_names() {
    assert_eq!(TxKind::Deposit.to_string(), "deposit");
    assert_eq!(TxKind::Withdrawal.to_string(), "withdrawal");
    assert_eq!(TxKind::Dispute.to_string(), "dispute");
    assert_eq!(TxKind::Resolve.to_string(), "resolve");
    assert_eq!(TxKind::Chargeback.to_string(), "chargeback");
    assert_eq!(payments_core::TxState::ChargedBack.to_string(), "chargedback");
    assert_eq!(payments_core::TxState::Disputed.to_string(), "disputed");
}

#[test]
fn total_overflows_to_none() {
    let account = Account { available: Amount::max(), held: Amount::one(), locked: false };
    assert_eq!(account.total(), None);
    let account = Account { available: Amount::max(), held: Amount::min(), locked: true };
    assert_eq!(account.total(), Some(Amount::zero()));
}

#[test]
fn amounts_compare_by_value() {
    assert_eq!(Amount::new(150, 2), Amount::new(15, 1));
    assert_ne!(Amount::new(151, 2), Amount::new(15, 1));
    assert_eq!(Amount::new(0, 5), Amount::zero());
    assert!(Amount::try_from_parts(79228162514264337593543950336, 0).is_none());
    assert!(Amount::try_from_parts(1, 29).is_none());
    assert_eq!(Amount::try_from_parts(-5, 28).unwrap().mantissa(), -5);
}

#[test]
fn parse_errors_compare_by_text() {
    assert_eq!(
        "Invalid".parse::<TxKind>(),
        Err(ParseTxKindError("invalid".to_string()))
    );
    assert_ne!(
        ParseTxKindError("a".to_string()),
        ParseTxKindError("b".to_string())
    );
}

#[test]
fn kind_names_parse_back() {
    for k in [
        TxKind::Deposit,
        TxKind::Withdrawal,
        TxKind::Dispute,
        TxKind::Resolve,
        TxKind::Chargeback,
    ] {
        assert_eq!(k.to_string().parse::<TxKind>(), Ok(k));
    }
    assert_eq!(" DePoSiT\t".parse::<TxKind>(), Ok(TxKind::Deposit));
    assert_eq!("\u{3000}resolve\u{2003}\n".parse::<TxKind>(), Ok(TxKind::Resolve));
    assert_eq!(
        " Refund ".parse::<TxKind>(),
        Err(ParseTxKindError("refund".to_string()))
    );
}

#[test]
fn id_texts_parse_back() {
    for n in [0u32, 7, 10, 123456, u32::MAX] {
        assert_eq!(TxId(n).to_string().parse::<TxId>().unwrap(), TxId(n));
    }
    for n in [0u16, 9, 65535] {
        let padded = format!("\t{} ", ClientId(n).to_string());
        assert_eq!(padded.parse::<ClientId>().unwrap(), ClientId(n));
    }
    assert!("4294967296".parse::<TxId>().is_err());
    assert!("65536".parse::<ClientId>().is_err());
    assert!("+".parse::<TxId>().is_err());
    assert_eq!("+12".parse::<TxId>().unwrap(), TxId(12));
}
