//! Turning the fields of one input record into a transaction.
use vstd::prelude::*;
use crate::amount::{decimal_from_str, parse_decimal, Amount};
use crate::error::ParseError;
use crate::text::{str_trim, trim};
use crate::types::{ClientId, Transaction, TxId, TxKind};

verus! {

/// The fields of one input record: the type text, client and transaction ids, and the
/// optional amount.
#[derive(Debug)]
pub struct RawTransaction {
    pub kind: String,
    pub client: u16,
    pub tx: u32,
    pub amount: Option<Amount>,
}

/// What an amount field gives: absent or blank means no amount; otherwise the trimmed text
/// is read as a decimal.
pub open spec fn optional_amount_spec(s: Option<Seq<char>>) -> Option<Option<(i128, u32)>> {
    match s {
        None => Some(None),
        Some(t) => if str_trim(t).len() == 0 {
            Some(None)
        } else {
            match decimal_from_str(str_trim(t)) {
                Some(p) => Some(Some(p)),
                None => None,
            }
        },
    }
}

/// Reads an optional amount field: `None` or blank text gives no amount, other text is trimmed
/// and parsed as a decimal.
pub fn parse_optional_amount(s: Option<&str>) -> (r: Result<Option<Amount>, rust_decimal::Error>)
    ensures
        (match (r, optional_amount_spec(
            match s {
                Some(t) => Some(t@),
                None => None,
            },
        )) {
            (Ok(Some(a)), Some(Some(p))) => a@ == p,
            (Ok(None), Some(None)) => true,
            (Err(_), None) => true,
            _ => false,
        }),
{
    match s {
        None => Ok(None),
        Some(t) => {
            let u = trim(t);
            if u.is_empty() {
                Ok(None)
            } else {
                match parse_decimal(u) {
                    Ok(a) => Ok(Some(a)),
                    Err(e) => Err(e),
                }
            }
        },
    }
}

/// Builds a transaction from the fields of a record; the type text must name a kind.
pub fn convert(raw: RawTransaction) -> (r: Result<Transaction, ParseError>)
    ensures
        (match (r, TxKind::parse_spec(raw.kind@)) {
            (Ok(tx), Ok(k)) => tx == (Transaction {
                kind: k,
                client_id: ClientId(raw.client),
                tx_id: TxId(raw.tx),
                amount: raw.amount,
            }),
            (Err(ParseError::InvalidTxType(t)), Err(l)) => t@ == l,
            _ => false,
        }),
{
    match TxKind::parse(raw.kind.as_str()) {
        Ok(kind) => Ok(
            Transaction {
                kind,
                client_id: ClientId(raw.client),
                tx_id: TxId(raw.tx),
                amount: raw.amount,
            },
        ),
        Err(e) => Err(ParseError::InvalidTxType(e.0)),
    }
}

} // verus!
