//! Verified core of a payment transaction processor: client accounts, deposits,
//! withdrawals, the dispute lifecycle of deposits, and the accounts report.
pub mod amount;
pub mod csv_source;
pub mod error;
pub mod laws;
pub mod ledger;
pub mod output;
pub mod processor;
pub mod text;
pub mod types;

pub use amount::Amount;
pub use csv_source::{convert, parse_optional_amount, RawTransaction};
pub use error::{EventLogError, LedgerError, ParseError};
pub use ledger::{
    apply_chargeback, apply_deposit, apply_dispute, apply_resolve, apply_withdrawal,
    normalize_amount, validate_account_unlocked, validate_amount, validate_chargeback_no_overflow,
    validate_deposit_no_overflow, validate_deposit_total_no_overflow, validate_dispute_no_overflow,
    validate_resolve_no_overflow, validate_sufficient_funds, validate_tx_record,
    validate_withdrawal_no_overflow, Ledger, LedgerView,
};
pub use output::accounts_csv;
pub use processor::Processor;
pub use types::{Account, ClientId, ParseTxKindError, Transaction, TxId, TxKind, TxRecord, TxState};
