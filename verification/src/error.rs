//! Errors of the ledger and of transaction input.
use vstd::prelude::*;
use crate::amount::nat_digits;
use crate::types::{ClientId, TxId, TxState};

verus! {

/// The event log could not durably record an event; the transaction must then not be applied.
#[derive(Clone, Copy, Debug)]
#[non_exhaustive]
pub enum EventLogError {
    WriteFailed,
}

/// Why a transaction was rejected. Every rejection leaves the ledger unchanged.
#[derive(Clone, Copy, Debug)]
#[non_exhaustive]
pub enum LedgerError {
    EventLog(EventLogError),
    AccountLocked(ClientId),
    InsufficientFunds(ClientId),
    InvalidAmount,
    TxNotFound(TxId),
    TxClientMismatch,
    InvalidTxState(TxId, TxState),
    MissingAmount(TxId),
    DuplicateTxId(TxId),
    Overflow,
}

impl EventLogError {
    pub open spec fn text(self) -> Seq<char> {
        "event log write failed"@
    }

    pub fn to_string(&self) -> (r: String)
        ensures
            r@ == self.text(),
    {
        String::from_str("event log write failed")
    }
}

impl From<EventLogError> for LedgerError {
    fn from(e: EventLogError) -> (r: LedgerError) {
        LedgerError::EventLog(e)
    }
}

impl vstd::std_specs::convert::FromSpecImpl<EventLogError> for LedgerError {
    open spec fn obeys_from_spec() -> bool {
        true
    }

    open spec fn from_spec(e: EventLogError) -> LedgerError {
        LedgerError::EventLog(e)
    }
}

impl LedgerError {
    /// The message of the error.
    pub open spec fn text(self) -> Seq<char> {
        match self {
            LedgerError::EventLog(e) => e.text(),
            LedgerError::AccountLocked(c) => "account is locked: client "@ + nat_digits(c.0 as nat),
            LedgerError::InsufficientFunds(c) => "insufficient funds: client "@ + nat_digits(
                c.0 as nat,
            ),
            LedgerError::InvalidAmount => "invalid amount: must be positive"@,
            LedgerError::TxNotFound(t) => "transaction not found: tx "@ + nat_digits(t.0 as nat),
            LedgerError::TxClientMismatch => "transaction belongs to different client"@,
            LedgerError::InvalidTxState(t, s) => "invalid state transition: tx "@ + nat_digits(
                t.0 as nat,
            ) + " is in state "@ + s.text(),
            LedgerError::MissingAmount(t) => "missing amount for transaction "@ + nat_digits(
                t.0 as nat,
            ),
            LedgerError::DuplicateTxId(t) => "duplicate transaction id: tx "@ + nat_digits(
                t.0 as nat,
            ),
            LedgerError::Overflow => "arithmetic overflow or underflow"@,
        }
    }

    /// The message of the error.
    pub fn to_string(&self) -> (r: String)
        ensures
            r@ == self.text(),
    {
        match self {
            LedgerError::EventLog(e) => e.to_string(),
            LedgerError::AccountLocked(c) => {
                let mut s = String::from_str("account is locked: client ");
                s.append(c.to_string().as_str());
                s
            },
            LedgerError::InsufficientFunds(c) => {
                let mut s = String::from_str("insufficient funds: client ");
                s.append(c.to_string().as_str());
                s
            },
            LedgerError::InvalidAmount => String::from_str("invalid amount: must be positive"),
            LedgerError::TxNotFound(t) => {
                let mut s = String::from_str("transaction not found: tx ");
                s.append(t.to_string().as_str());
                s
            },
            LedgerError::TxClientMismatch => String::from_str(
                "transaction belongs to different client",
            ),
            LedgerError::InvalidTxState(t, st) => {
                let mut s = String::from_str("invalid state transition: tx ");
                s.append(t.to_string().as_str());
                s.append(" is in state ");
                s.append(st.to_string().as_str());
                s
            },
            LedgerError::MissingAmount(t) => {
                let mut s = String::from_str("missing amount for transaction ");
                s.append(t.to_string().as_str());
                s
            },
            LedgerError::DuplicateTxId(t) => {
                let mut s = String::from_str("duplicate transaction id: tx ");
                s.append(t.to_string().as_str());
                s
            },
            LedgerError::Overflow => String::from_str("arithmetic overflow or underflow"),
        }
    }
}

#[verifier::external_type_specification]
#[verifier::external_body]
pub struct ExCsvError(csv::Error);

/// Calls `<csv::Error as Display>::fmt` through `to_string`; nothing is stated of the text.
#[verifier::external_body]
fn csv_error_text(e: &csv::Error) -> String {
    e.to_string()
}

/// Errors when reading transaction input.
#[derive(Debug)]
#[non_exhaustive]
pub enum ParseError {
    Csv(csv::Error),
    InvalidTxType(String),
}

impl ParseError {
    /// The message of the error where it is fixed by the library (an unknown type); the
    /// message of a CSV reader error is the reader's.
    pub open spec fn known_text(&self) -> Option<Seq<char>> {
        match self {
            ParseError::Csv(_) => None,
            ParseError::InvalidTxType(t) => Some("invalid transaction type: "@ + t@),
        }
    }

    /// The message of the error: "CSV error: " and the reader's message, or
    /// "invalid transaction type: " and the type.
    pub fn to_string(&self) -> (r: String)
        ensures
            (match self.known_text() {
                None => "CSV error: "@.is_prefix_of(r@),
                Some(t) => r@ == t,
            }),
    {
        match self {
            ParseError::Csv(e) => {
                let mut s = String::from_str("CSV error: ");
                s.append(csv_error_text(e).as_str());
                s
            },
            ParseError::InvalidTxType(t) => {
                let mut s = String::from_str("invalid transaction type: ");
                s.append(t.as_str());
                s
            },
        }
    }
}

} // verus!
