//! The ledger: validation of transactions against account and deposit state, and their
//! application.
use vstd::prelude::*;
use crate::amount::{
    add_defined, add_parts, add_spec, beyond_range, checked_add, checked_sub, exact_add, exact_sub,
    lemma_add_exact, lemma_sub_exact, less_or_equal, less_than, round_dp, round_half_even,
    sub_defined, sub_spec, units, Amount, group_amount_parts,
};
use crate::error::LedgerError;
use crate::laws::{held_matches_disputes, lemma_process_keeps_holdings};
use crate::types::{Account, ClientId, Transaction, TxId, TxKind, TxRecord, TxState};
use std::collections::HashMap;
use vstd::std_specs::hash::spec_hash_map_iter;
use vstd::std_specs::iter::IteratorSpec;

verus! {

broadcast use {vstd::std_specs::hash::group_hash_axioms, group_amount_parts};

/// Number of fractional digits kept of every amount.
pub const AMOUNT_DECIMALS: u32 = 4;

/// `d` rounded to four fractional digits, ties to even.
pub open spec fn normalize_spec(d: Amount) -> Amount {
    Amount::from_parts_spec(round_half_even(d@, AMOUNT_DECIMALS))
}

/// Normalizes an amount to 4 decimal places using banker's rounding (ties to even).
pub fn normalize_amount(d: Amount) -> (r: Amount)
    ensures
        r == normalize_spec(d),
        r@ == round_half_even(d@, AMOUNT_DECIMALS),
{
    round_dp(d, AMOUNT_DECIMALS)
}

// ---------------------------------------------------------------------------
// Validation of single conditions
// ---------------------------------------------------------------------------

pub open spec fn validate_amount_spec(amount: Option<Amount>, tx_id: TxId) -> Result<
    Amount,
    LedgerError,
> {
    match amount {
        None => Err(LedgerError::MissingAmount(tx_id)),
        Some(a) => if units(a@) <= 0 {
            Err(LedgerError::InvalidAmount)
        } else {
            Ok(a)
        },
    }
}

/// An amount must be present and positive.
pub fn validate_amount(amount: Option<Amount>, tx_id: TxId) -> (r: Result<Amount, LedgerError>)
    ensures
        r == validate_amount_spec(amount, tx_id),
{
    match amount {
        None => Err(LedgerError::MissingAmount(tx_id)),
        Some(a) => {
            if less_or_equal(a, Amount::zero()) {
                Err(LedgerError::InvalidAmount)
            } else {
                Ok(a)
            }
        },
    }
}

pub open spec fn validate_account_unlocked_spec(account: Option<Account>, client_id: ClientId) -> Result<
    Account,
    LedgerError,
> {
    match account {
        None => Err(LedgerError::AccountLocked(client_id)),
        Some(a) => if a.locked {
            Err(LedgerError::AccountLocked(client_id))
        } else {
            Ok(a)
        },
    }
}

/// The account must exist and not be locked (a missing account is reported as locked).
pub fn validate_account_unlocked(account: Option<&Account>, client_id: ClientId) -> (r: Result<
    &Account,
    LedgerError,
>)
    ensures
        (match (r, validate_account_unlocked_spec(
            match account {
                Some(a) => Some(*a),
                None => None,
            },
            client_id,
        )) {
            (Ok(a), Ok(b)) => *a == b,
            (Err(e), Err(f)) => e == f,
            _ => false,
        }),
{
    match account {
        None => Err(LedgerError::AccountLocked(client_id)),
        Some(a) => {
            if a.locked {
                Err(LedgerError::AccountLocked(client_id))
            } else {
                Ok(a)
            }
        },
    }
}

pub open spec fn validate_sufficient_funds_spec(account: Account, amount: Amount, client_id: ClientId) -> Result<
    (),
    LedgerError,
> {
    if units(account.available@) < units(amount@) {
        Err(LedgerError::InsufficientFunds(client_id))
    } else {
        Ok(())
    }
}

/// The available funds must cover the amount.
pub fn validate_sufficient_funds(account: &Account, amount: Amount, client_id: ClientId) -> (r:
    Result<(), LedgerError>)
    ensures
        r == validate_sufficient_funds_spec(*account, amount, client_id),
{
    if less_than(account.available, amount) {
        Err(LedgerError::InsufficientFunds(client_id))
    } else {
        Ok(())
    }
}

pub open spec fn validate_tx_record_spec(
    record: Option<TxRecord>,
    tx_id: TxId,
    client_id: ClientId,
    expected_state: TxState,
) -> Result<TxRecord, LedgerError> {
    match record {
        None => Err(LedgerError::TxNotFound(tx_id)),
        Some(r) => if r.client_id != client_id {
            Err(LedgerError::TxClientMismatch)
        } else if r.state != expected_state {
            Err(LedgerError::InvalidTxState(tx_id, r.state))
        } else {
            Ok(r)
        },
    }
}

/// The deposit record must exist, belong to the client and be in the expected state.
pub fn validate_tx_record(
    record: Option<&TxRecord>,
    tx_id: TxId,
    client_id: ClientId,
    expected_state: TxState,
) -> (r: Result<&TxRecord, LedgerError>)
    ensures
        (match (r, validate_tx_record_spec(
            match record {
                Some(x) => Some(*x),
                None => None,
            },
            tx_id,
            client_id,
            expected_state,
        )) {
            (Ok(a), Ok(b)) => *a == b,
            (Err(e), Err(f)) => e == f,
            _ => false,
        }),
{
    match record {
        None => Err(LedgerError::TxNotFound(tx_id)),
        Some(rec) => {
            if rec.client_id != client_id {
                Err(LedgerError::TxClientMismatch)
            } else if rec.state != expected_state {
                Err(LedgerError::InvalidTxState(tx_id, rec.state))
            } else {
                Ok(rec)
            }
        },
    }
}

pub open spec fn overflow_unless(ok: bool) -> Result<(), LedgerError> {
    if ok {
        Ok(())
    } else {
        Err(LedgerError::Overflow)
    }
}

/// available + amount must not overflow.
pub fn validate_deposit_no_overflow(available: Amount, amount: Amount) -> (r: Result<
    (),
    LedgerError,
>)
    ensures
        r == overflow_unless(add_defined(available, amount)),
        beyond_range(units(available@) + units(amount@)) ==> r == Err::<(), LedgerError>(
            LedgerError::Overflow,
        ),
{
    match checked_add(available, amount) {
        Some(_) => Ok(()),
        None => Err(LedgerError::Overflow),
    }
}

pub open spec fn deposit_total_defined(available: Amount, held: Amount, amount: Amount) -> bool {
    match add_parts(available@, held@) {
        Some(t) => add_parts(t, amount@) is Some,
        None => false,
    }
}

/// (available + held) + amount must not overflow, so that the total stays defined after a
/// deposit.
pub fn validate_deposit_total_no_overflow(available: Amount, held: Amount, amount: Amount) -> (r:
    Result<(), LedgerError>)
    ensures
        r == overflow_unless(deposit_total_defined(available, held, amount)),
        beyond_range(units(available@) + units(held@)) ==> r == Err::<(), LedgerError>(
            LedgerError::Overflow,
        ),
        exact_add(available@, held@) && beyond_range(
            units(available@) + units(held@) + units(amount@),
        ) ==> r == Err::<(), LedgerError>(LedgerError::Overflow),
{
    available.establish_wf();
    held.establish_wf();
    proof {
        if exact_add(available@, held@) {
            lemma_add_exact(available@, held@);
        }
    }
    match checked_add(available, held) {
        Some(t) => match checked_add(t, amount) {
            Some(_) => Ok(()),
            None => Err(LedgerError::Overflow),
        },
        None => Err(LedgerError::Overflow),
    }
}

/// available - amount must not overflow.
pub fn validate_withdrawal_no_overflow(available: Amount, amount: Amount) -> (r: Result<
    (),
    LedgerError,
>)
    ensures
        r == overflow_unless(sub_defined(available, amount)),
        beyond_range(units(available@) - units(amount@)) ==> r == Err::<(), LedgerError>(
            LedgerError::Overflow,
        ),
{
    match checked_sub(available, amount) {
        Some(_) => Ok(()),
        None => Err(LedgerError::Overflow),
    }
}

/// available - amount and held + amount must not overflow.
pub fn validate_dispute_no_overflow(available: Amount, held: Amount, amount: Amount) -> (r: Result<
    (),
    LedgerError,
>)
    ensures
        r == overflow_unless(sub_defined(available, amount) && add_defined(held, amount)),
        beyond_range(units(available@) - units(amount@)) || beyond_range(
            units(held@) + units(amount@),
        ) ==> r == Err::<(), LedgerError>(LedgerError::Overflow),
{
    match checked_sub(available, amount) {
        Some(_) => match checked_add(held, amount) {
            Some(_) => Ok(()),
            None => Err(LedgerError::Overflow),
        },
        None => Err(LedgerError::Overflow),
    }
}

/// available + amount and held - amount must not overflow.
pub fn validate_resolve_no_overflow(available: Amount, held: Amount, amount: Amount) -> (r: Result<
    (),
    LedgerError,
>)
    ensures
        r == overflow_unless(add_defined(available, amount) && sub_defined(held, amount)),
        beyond_range(units(available@) + units(amount@)) || beyond_range(
            units(held@) - units(amount@),
        ) ==> r == Err::<(), LedgerError>(LedgerError::Overflow),
{
    match checked_add(available, amount) {
        Some(_) => match checked_sub(held, amount) {
            Some(_) => Ok(()),
            None => Err(LedgerError::Overflow),
        },
        None => Err(LedgerError::Overflow),
    }
}

/// held - amount must not overflow.
pub fn validate_chargeback_no_overflow(held: Amount, amount: Amount) -> (r: Result<
    (),
    LedgerError,
>)
    ensures
        r == overflow_unless(sub_defined(held, amount)),
        beyond_range(units(held@) - units(amount@)) ==> r == Err::<(), LedgerError>(
            LedgerError::Overflow,
        ),
{
    match checked_sub(held, amount) {
        Some(_) => Ok(()),
        None => Err(LedgerError::Overflow),
    }
}

// ---------------------------------------------------------------------------
// Application to an account and a deposit record
// ---------------------------------------------------------------------------

pub open spec fn deposit_spec(account: Account, amount: Amount) -> Account {
    Account { available: add_spec(account.available, amount), ..account }
}

pub open spec fn withdrawal_spec(account: Account, amount: Amount) -> Account {
    Account { available: sub_spec(account.available, amount), ..account }
}

pub open spec fn dispute_spec(account: Account, record: TxRecord) -> (Account, TxRecord) {
    (
        Account {
            available: sub_spec(account.available, record.amount),
            held: add_spec(account.held, record.amount),
            ..account
        },
        TxRecord { state: TxState::Disputed, ..record },
    )
}

pub open spec fn resolve_spec(account: Account, record: TxRecord) -> (Account, TxRecord) {
    (
        Account {
            available: add_spec(account.available, record.amount),
            held: sub_spec(account.held, record.amount),
            ..account
        },
        TxRecord { state: TxState::Resolved, ..record },
    )
}

pub open spec fn chargeback_spec(account: Account, record: TxRecord) -> (Account, TxRecord) {
    (
        Account { held: sub_spec(account.held, record.amount), locked: true, ..account },
        TxRecord { state: TxState::ChargedBack, ..record },
    )
}

/// Credits the amount to the available funds.
pub fn apply_deposit(account: &Account, amount: Amount) -> (r: Account)
    requires
        add_defined(account.available, amount),
    ensures
        r == deposit_spec(*account, amount),
        exact_add(account.available@, amount@) ==> units(r.available@) == units(
            account.available@,
        ) + units(amount@),
{
    account.available.establish_wf();
    amount.establish_wf();
    proof {
        if exact_add(account.available@, amount@) {
            lemma_add_exact(account.available@, amount@);
        }
    }
    let available = checked_add(account.available, amount).unwrap();
    Account { available, held: account.held, locked: account.locked }
}

/// Debits the amount from the available funds.
pub fn apply_withdrawal(account: &Account, amount: Amount) -> (r: Account)
    requires
        sub_defined(account.available, amount),
    ensures
        r == withdrawal_spec(*account, amount),
        exact_sub(account.available@, amount@) ==> units(r.available@) == units(
            account.available@,
        ) - units(amount@),
{
    account.available.establish_wf();
    amount.establish_wf();
    proof {
        if exact_sub(account.available@, amount@) {
            lemma_sub_exact(account.available@, amount@);
        }
    }
    let available = checked_sub(account.available, amount).unwrap();
    Account { available, held: account.held, locked: account.locked }
}

/// Moves the deposit's amount from available to held and marks the deposit disputed.
pub fn apply_dispute(account: Account, record: TxRecord) -> (r: (Account, TxRecord))
    requires
        sub_defined(account.available, record.amount),
        add_defined(account.held, record.amount),
    ensures
        r == dispute_spec(account, record),
        exact_sub(account.available@, record.amount@) ==> units(r.0.available@) == units(
            account.available@,
        ) - units(record.amount@),
        exact_add(account.held@, record.amount@) ==> units(r.0.held@) == units(account.held@)
            + units(record.amount@),
{
    account.available.establish_wf();
    account.held.establish_wf();
    record.amount.establish_wf();
    proof {
        if exact_sub(account.available@, record.amount@) {
            lemma_sub_exact(account.available@, record.amount@);
        }
        if exact_add(account.held@, record.amount@) {
            lemma_add_exact(account.held@, record.amount@);
        }
    }
    let available = checked_sub(account.available, record.amount).unwrap();
    let held = checked_add(account.held, record.amount).unwrap();
    (
        Account { available, held, locked: account.locked },
        TxRecord { client_id: record.client_id, amount: record.amount, state: TxState::Disputed },
    )
}

/// Moves the deposit's amount from held back to available and marks the dispute resolved.
pub fn apply_resolve(account: Account, record: TxRecord) -> (r: (Account, TxRecord))
    requires
        add_defined(account.available, record.amount),
        sub_defined(account.held, record.amount),
    ensures
        r == resolve_spec(account, record),
        exact_add(account.available@, record.amount@) ==> units(r.0.available@) == units(
            account.available@,
        ) + units(record.amount@),
        exact_sub(account.held@, record.amount@) ==> units(r.0.held@) == units(account.held@)
            - units(record.amount@),
{
    account.available.establish_wf();
    account.held.establish_wf();
    record.amount.establish_wf();
    proof {
        if exact_add(account.available@, record.amount@) {
            lemma_add_exact(account.available@, record.amount@);
        }
        if exact_sub(account.held@, record.amount@) {
            lemma_sub_exact(account.held@, record.amount@);
        }
    }
    let available = checked_add(account.available, record.amount).unwrap();
    let held = checked_sub(account.held, record.amount).unwrap();
    (
        Account { available, held, locked: account.locked },
        TxRecord { client_id: record.client_id, amount: record.amount, state: TxState::Resolved },
    )
}

/// Removes the deposit's amount from the held funds, locks the account and marks the deposit
/// charged back.
pub fn apply_chargeback(account: Account, record: TxRecord) -> (r: (Account, TxRecord))
    requires
        sub_defined(account.held, record.amount),
    ensures
        r == chargeback_spec(account, record),
        exact_sub(account.held@, record.amount@) ==> units(r.0.held@) == units(account.held@)
            - units(record.amount@),
{
    account.held.establish_wf();
    record.amount.establish_wf();
    proof {
        if exact_sub(account.held@, record.amount@) {
            lemma_sub_exact(account.held@, record.amount@);
        }
    }
    let held = checked_sub(account.held, record.amount).unwrap();
    (
        Account { available: account.available, held, locked: true },
        TxRecord {
            client_id: record.client_id,
            amount: record.amount,
            state: TxState::ChargedBack,
        },
    )
}

/// available - amount and held + amount are exact.
pub open spec fn exact_move(available: Amount, held: Amount, amount: Amount) -> bool {
    exact_sub(available@, amount@) && exact_add(held@, amount@)
}

/// available + amount and held - amount are exact.
pub open spec fn exact_return(available: Amount, held: Amount, amount: Amount) -> bool {
    exact_add(available@, amount@) && exact_sub(held@, amount@)
}


// ---------------------------------------------------------------------------
// The ledger
// ---------------------------------------------------------------------------

/// Abstract state of a ledger: accounts by client, deposit records by transaction id, and
/// the log of applied transactions.
pub struct LedgerView {
    pub accounts: Map<u16, Account>,
    pub transactions: Map<u32, TxRecord>,
    pub events: Seq<Transaction>,
}

impl LedgerView {
    pub open spec fn empty() -> LedgerView {
        LedgerView { accounts: Map::empty(), transactions: Map::empty(), events: Seq::empty() }
    }

    pub open spec fn account(self, client_id: ClientId) -> Option<Account> {
        if self.accounts.contains_key(client_id.0) {
            Some(self.accounts[client_id.0])
        } else {
            None
        }
    }

    pub open spec fn record(self, tx_id: TxId) -> Option<TxRecord> {
        if self.transactions.contains_key(tx_id.0) {
            Some(self.transactions[tx_id.0])
        } else {
            None
        }
    }

    /// The client's account, or an empty one if the client has none yet.
    pub open spec fn account_or_empty(self, client_id: ClientId) -> Account {
        match self.account(client_id) {
            Some(a) => a,
            None => Account::empty_spec(),
        }
    }
}

/// The arithmetic that validation checks for the transaction gives a value of 2^96 or more in
/// magnitude, which no decimal holds: for a deposit, available + held, or (where that sum is
/// exact) available + held + amount; for a withdrawal, available - amount; for a dispute,
/// available - amount or held + amount; for a resolve, available + amount or held - amount;
/// for a chargeback, held - amount (the amount of the named deposit).
pub open spec fn out_of_range(v: LedgerView, tx: Transaction) -> bool {
    let a = v.account_or_empty(tx.client_id);
    let ua = units(a.available@);
    let uh = units(a.held@);
    let ur = units(v.transactions[tx.tx_id.0].amount@);
    match tx.kind {
        TxKind::Deposit => tx.amount matches Some(x) && (beyond_range(ua + uh) || (exact_add(
            a.available@,
            a.held@,
        ) && beyond_range(ua + uh + units(x@)))),
        TxKind::Withdrawal => tx.amount matches Some(x) && beyond_range(ua - units(x@)),
        TxKind::Dispute => beyond_range(ua - ur) || beyond_range(uh + ur),
        TxKind::Resolve => beyond_range(ua + ur) || beyond_range(uh - ur),
        TxKind::Chargeback => beyond_range(uh - ur),
    }
}

/// Whether a transaction may be applied, and if not, why (mirrors [`Ledger::validate`]).
pub open spec fn validate_spec(v: LedgerView, tx: Transaction) -> Result<(), LedgerError> {
    let account = v.account(tx.client_id);
    match tx.kind {
        TxKind::Deposit => match validate_amount_spec(tx.amount, tx.tx_id) {
            Err(e) => Err(e),
            Ok(amount) => if v.transactions.contains_key(tx.tx_id.0) {
                Err(LedgerError::DuplicateTxId(tx.tx_id))
            } else if account matches Some(a) && a.locked {
                Err(LedgerError::AccountLocked(tx.client_id))
            } else {
                let a = v.account_or_empty(tx.client_id);
                overflow_unless(deposit_total_defined(a.available, a.held, amount))
            },
        },
        TxKind::Withdrawal => match validate_amount_spec(tx.amount, tx.tx_id) {
            Err(e) => Err(e),
            Ok(amount) => match validate_account_unlocked_spec(account, tx.client_id) {
                Err(e) => Err(e),
                Ok(a) => match validate_sufficient_funds_spec(a, amount, tx.client_id) {
                    Err(e) => Err(e),
                    Ok(_) => overflow_unless(sub_defined(a.available, amount)),
                },
            },
        },
        TxKind::Dispute => match validate_account_unlocked_spec(account, tx.client_id) {
            Err(e) => Err(e),
            Ok(a) => match validate_tx_record_spec(
                v.record(tx.tx_id),
                tx.tx_id,
                tx.client_id,
                TxState::Active,
            ) {
                Err(e) => Err(e),
                Ok(r) => overflow_unless(
                    sub_defined(a.available, r.amount) && add_defined(a.held, r.amount),
                ),
            },
        },
        TxKind::Resolve => match validate_account_unlocked_spec(account, tx.client_id) {
            Err(e) => Err(e),
            Ok(a) => match validate_tx_record_spec(
                v.record(tx.tx_id),
                tx.tx_id,
                tx.client_id,
                TxState::Disputed,
            ) {
                Err(e) => Err(e),
                Ok(r) => overflow_unless(
                    add_defined(a.available, r.amount) && sub_defined(a.held, r.amount),
                ),
            },
        },
        TxKind::Chargeback => match validate_account_unlocked_spec(account, tx.client_id) {
            Err(e) => Err(e),
            Ok(a) => match validate_tx_record_spec(
                v.record(tx.tx_id),
                tx.tx_id,
                tx.client_id,
                TxState::Disputed,
            ) {
                Err(e) => Err(e),
                Ok(r) => overflow_unless(sub_defined(a.held, r.amount)),
            },
        },
    }
}

/// The amount that a deposit or withdrawal moves: the given amount normalized.
pub open spec fn tx_amount_spec(tx: Transaction) -> Amount {
    match tx.amount {
        Some(a) => normalize_spec(a),
        None => Amount::zero_spec(),
    }
}

/// Whether the arithmetic of applying a (validated) transaction is defined.
pub open spec fn apply_defined(v: LedgerView, tx: Transaction) -> bool {
    let a = v.account_or_empty(tx.client_id);
    let r = v.transactions[tx.tx_id.0];
    match tx.kind {
        TxKind::Deposit => add_defined(a.available, tx_amount_spec(tx)),
        TxKind::Withdrawal => sub_defined(a.available, tx_amount_spec(tx)),
        TxKind::Dispute => sub_defined(a.available, r.amount) && add_defined(a.held, r.amount),
        TxKind::Resolve => add_defined(a.available, r.amount) && sub_defined(a.held, r.amount),
        TxKind::Chargeback => sub_defined(a.held, r.amount),
    }
}

/// Accounts and records after applying a validated transaction (the log is left as it is).
pub open spec fn apply_spec(v: LedgerView, tx: Transaction) -> LedgerView {
    let c = tx.client_id;
    let a = v.account_or_empty(c);
    let r = v.transactions[tx.tx_id.0];
    match tx.kind {
        TxKind::Deposit => LedgerView {
            accounts: v.accounts.insert(c.0, deposit_spec(a, tx_amount_spec(tx))),
            transactions: v.transactions.insert(
                tx.tx_id.0,
                TxRecord { client_id: c, amount: tx_amount_spec(tx), state: TxState::Active },
            ),
            events: v.events,
        },
        TxKind::Withdrawal => LedgerView {
            accounts: v.accounts.insert(c.0, withdrawal_spec(a, tx_amount_spec(tx))),
            ..v
        },
        TxKind::Dispute => {
            let (na, nr) = dispute_spec(a, r);
            LedgerView {
                accounts: v.accounts.insert(c.0, na),
                transactions: v.transactions.insert(tx.tx_id.0, nr),
                events: v.events,
            }
        },
        TxKind::Resolve => {
            let (na, nr) = resolve_spec(a, r);
            LedgerView {
                accounts: v.accounts.insert(c.0, na),
                transactions: v.transactions.insert(tx.tx_id.0, nr),
                events: v.events,
            }
        },
        TxKind::Chargeback => {
            let (na, nr) = chargeback_spec(a, r);
            LedgerView {
                accounts: v.accounts.insert(c.0, na),
                transactions: v.transactions.insert(tx.tx_id.0, nr),
                events: v.events,
            }
        },
    }
}

/// The arithmetic of applying the transaction is exact: no sum or difference is rounded.
pub open spec fn exact_effect(v: LedgerView, tx: Transaction) -> bool {
    let a = v.account_or_empty(tx.client_id);
    let r = v.transactions[tx.tx_id.0];
    match tx.kind {
        TxKind::Deposit => exact_add(a.available@, tx_amount_spec(tx)@),
        TxKind::Withdrawal => exact_sub(a.available@, tx_amount_spec(tx)@),
        TxKind::Dispute => exact_move(a.available, a.held, r.amount),
        TxKind::Resolve => exact_return(a.available, a.held, r.amount),
        TxKind::Chargeback => exact_sub(a.held@, r.amount@),
    }
}

/// The values (in units of 10^-28) of the client's funds after the transaction, `n`, against
/// those before, `v`: a deposit adds the normalized amount to the available funds, a
/// withdrawal subtracts it, a dispute moves the deposit's amount from available to held, a
/// resolve moves it back, a chargeback removes it from held.
pub open spec fn value_effect(v: LedgerView, tx: Transaction, n: LedgerView) -> bool {
    let a = v.account_or_empty(tx.client_id);
    let na = n.accounts[tx.client_id.0];
    let amount = v.transactions[tx.tx_id.0].amount;
    match tx.kind {
        TxKind::Deposit => units(na.available@) == units(a.available@) + units(
            tx_amount_spec(tx)@,
        ),
        TxKind::Withdrawal => units(na.available@) == units(a.available@) - units(
            tx_amount_spec(tx)@,
        ),
        TxKind::Dispute => units(na.available@) == units(a.available@) - units(amount@) && units(
            na.held@,
        ) == units(a.held@) + units(amount@),
        TxKind::Resolve => units(na.available@) == units(a.available@) + units(amount@) && units(
            na.held@,
        ) == units(a.held@) - units(amount@),
        TxKind::Chargeback => units(na.held@) == units(a.held@) - units(amount@),
    }
}

/// The update of the held funds that the transaction makes is exact: held + amount for a
/// dispute, held - amount for a resolve or a chargeback (nothing to check for the others).
pub open spec fn held_exact(v: LedgerView, tx: Transaction) -> bool {
    let a = v.account_or_empty(tx.client_id);
    let r = v.transactions[tx.tx_id.0];
    match tx.kind {
        TxKind::Dispute => exact_add(a.held@, r.amount@),
        TxKind::Resolve => exact_sub(a.held@, r.amount@),
        TxKind::Chargeback => exact_sub(a.held@, r.amount@),
        _ => true,
    }
}

/// The held funds of the client after the transaction, `n`, against those before, `v`: a
/// dispute adds the deposit's amount, a resolve or a chargeback removes it.
pub open spec fn held_effect(v: LedgerView, tx: Transaction, n: LedgerView) -> bool {
    let a = v.account_or_empty(tx.client_id);
    let na = n.accounts[tx.client_id.0];
    let amount = v.transactions[tx.tx_id.0].amount;
    match tx.kind {
        TxKind::Dispute => units(na.held@) == units(a.held@) + units(amount@),
        TxKind::Resolve => units(na.held@) == units(a.held@) - units(amount@),
        TxKind::Chargeback => units(na.held@) == units(a.held@) - units(amount@),
        _ => true,
    }
}

/// The state and answer of [`Ledger::process`]: a rejected transaction leaves the state as it
/// is; an accepted one is appended to the log and applied.
pub open spec fn process_spec(v: LedgerView, tx: Transaction) -> (LedgerView, Result<
    (),
    LedgerError,
>) {
    match validate_spec(v, tx) {
        Err(e) => (v, Err(e)),
        Ok(_) => if apply_defined(v, tx) {
            let n = apply_spec(v, tx);
            (LedgerView { events: v.events.push(tx), ..n }, Ok(()))
        } else {
            (v, Err(LedgerError::Overflow))
        },
    }
}

/// The core ledger: all accounts and deposit records, and the log of applied transactions.
/// [`Ledger::process`] is the mutation API: it validates, logs, then applies.
pub struct Ledger {
    pub accounts: HashMap<u16, Account>,
    pub transactions: HashMap<u32, TxRecord>,
    pub event_log: Vec<Transaction>,
}

impl View for Ledger {
    type V = LedgerView;

    open spec fn view(&self) -> LedgerView {
        LedgerView {
            accounts: self.accounts@,
            transactions: self.transactions@,
            events: self.event_log@,
        }
    }
}

impl Ledger {
    /// A ledger with no accounts, no records and an empty log.
    pub fn new() -> (r: Ledger)
        ensures
            r@ == LedgerView::empty(),
    {
        Ledger { accounts: HashMap::new(), transactions: HashMap::new(), event_log: Vec::new() }
    }

    /// All accounts with their client ids, each client once, in no particular order.
    pub fn iter_accounts(&self) -> (r: Vec<(ClientId, Account)>)
        ensures
            r@.len() == self@.accounts.len(),
            forall|i: int|
                0 <= i < r@.len() ==> #[trigger] self@.accounts.contains_key(r@[i].0.0)
                    && self@.accounts[r@[i].0.0] == r@[i].1,
            forall|k: u16|
                #[trigger] self@.accounts.contains_key(k) ==> exists|i: int|
                    0 <= i < r@.len() && #[trigger] r@[i].0.0 == k,
            forall|i: int, j: int|
                0 <= i < r@.len() && 0 <= j < r@.len() && i != j ==> r@[i].0 != r@[j].0,
    {
        let mut out: Vec<(ClientId, Account)> = Vec::new();
        let ghost pairs = spec_hash_map_iter(&self.accounts).remaining();
        for (k, a) in it: self.accounts.iter()
            invariant
                it.seq() == pairs,
                out@.len() == it.index(),
                forall|i: int|
                    0 <= i < it.index() ==> #[trigger] out@[i] == (
                        ClientId(*pairs[i].0),
                        *pairs[i].1,
                    ),
        {
            out.push((ClientId(*k), *a));
        }
        proof {
            let m = self.accounts@;
            assert forall|k: u16| #[trigger] m.contains_key(k) implies exists|i: int|
                0 <= i < out@.len() && #[trigger] out@[i].0.0 == k by {
                assert(pairs.contains((&k, &m[k])));
                let i = choose|i: int| 0 <= i < pairs.len() && pairs[i] == (&k, &m[k]);
                assert(out@[i].0.0 == k);
            }
            assert forall|i: int, j: int|
                0 <= i < out@.len() && 0 <= j < out@.len() && i != j implies out@[i].0
                != out@[j].0 by {
                if out@[i].0 == out@[j].0 {
                    assert(m.contains_key(*pairs[i].0) && m[*pairs[i].0] == *pairs[i].1);
                    assert(m.contains_key(*pairs[j].0) && m[*pairs[j].0] == *pairs[j].1);
                    assert(pairs[i] == pairs[j]);
                }
            }
        }
        out
    }

    /// The client's account, or an empty one if the client has none yet.
    fn get_or_create_account(&self, client_id: ClientId) -> (r: Account)
        ensures
            r == self@.account_or_empty(client_id),
    {
        match self.accounts.get(&client_id.0) {
            Some(a) => *a,
            None => Account::default(),
        }
    }

    /// Checks a transaction against the current state: `Ok(())` if it may be applied,
    /// otherwise the reason it may not.
    pub fn validate(&self, tx: &Transaction) -> (r: Result<(), LedgerError>)
        ensures
            r == validate_spec(self@, *tx),
            out_of_range(self@, *tx) ==> r is Err,
    {
        let account = self.accounts.get(&tx.client_id.0);
        match tx.kind {
            TxKind::Deposit => {
                let amount = match validate_amount(tx.amount, tx.tx_id) {
                    Ok(a) => a,
                    Err(e) => return Err(e),
                };
                if self.transactions.contains_key(&tx.tx_id.0) {
                    return Err(LedgerError::DuplicateTxId(tx.tx_id));
                }
                if let Some(acc) = account {
                    if acc.locked {
                        return Err(LedgerError::AccountLocked(tx.client_id));
                    }
                }
                let a = self.get_or_create_account(tx.client_id);
                validate_deposit_total_no_overflow(a.available, a.held, amount)
            },
            TxKind::Withdrawal => {
                let amount = match validate_amount(tx.amount, tx.tx_id) {
                    Ok(a) => a,
                    Err(e) => return Err(e),
                };
                let account = match validate_account_unlocked(account, tx.client_id) {
                    Ok(a) => a,
                    Err(e) => return Err(e),
                };
                match validate_sufficient_funds(account, amount, tx.client_id) {
                    Ok(_) => {},
                    Err(e) => return Err(e),
                }
                validate_withdrawal_no_overflow(account.available, amount)
            },
            TxKind::Dispute => {
                let account = match validate_account_unlocked(account, tx.client_id) {
                    Ok(a) => a,
                    Err(e) => return Err(e),
                };
                let record = match validate_tx_record(
                    self.transactions.get(&tx.tx_id.0),
                    tx.tx_id,
                    tx.client_id,
                    TxState::Active,
                ) {
                    Ok(r) => r,
                    Err(e) => return Err(e),
                };
                validate_dispute_no_overflow(account.available, account.held, record.amount)
            },
            TxKind::Resolve => {
                let account = match validate_account_unlocked(account, tx.client_id) {
                    Ok(a) => a,
                    Err(e) => return Err(e),
                };
                let record = match validate_tx_record(
                    self.transactions.get(&tx.tx_id.0),
                    tx.tx_id,
                    tx.client_id,
                    TxState::Disputed,
                ) {
                    Ok(r) => r,
                    Err(e) => return Err(e),
                };
                validate_resolve_no_overflow(account.available, account.held, record.amount)
            },
            TxKind::Chargeback => {
                let account = match validate_account_unlocked(account, tx.client_id) {
                    Ok(a) => a,
                    Err(e) => return Err(e),
                };
                let record = match validate_tx_record(
                    self.transactions.get(&tx.tx_id.0),
                    tx.tx_id,
                    tx.client_id,
                    TxState::Disputed,
                ) {
                    Ok(r) => r,
                    Err(e) => return Err(e),
                };
                validate_chargeback_no_overflow(account.held, record.amount)
            },
        }
    }

    /// Whether the arithmetic of applying a validated transaction is defined. Validation has
    /// already checked the operations of a dispute, resolve or chargeback; a deposit or
    /// withdrawal moves the normalized amount, which is checked here.
    fn apply_is_defined(&self, tx: &Transaction) -> (r: bool)
        requires
            validate_spec(self@, *tx) is Ok,
        ensures
            r == apply_defined(self@, *tx),
    {
        let a = self.get_or_create_account(tx.client_id);
        match tx.kind {
            TxKind::Deposit => {
                let amount = normalize_amount(tx.amount.unwrap());
                checked_add(a.available, amount).is_some()
            },
            TxKind::Withdrawal => {
                let amount = normalize_amount(tx.amount.unwrap());
                checked_sub(a.available, amount).is_some()
            },
            _ => true,
        }
    }

    /// Applies a validated transaction whose arithmetic is defined: updates the account and
    /// the deposit record, without any check.
    fn apply_unchecked(&mut self, tx: Transaction)
        requires
            validate_spec(old(self)@, tx) is Ok,
            apply_defined(old(self)@, tx),
        ensures
            final(self)@ == apply_spec(old(self)@, tx),
            exact_effect(old(self)@, tx) ==> value_effect(old(self)@, tx, final(self)@),
            held_exact(old(self)@, tx) ==> held_effect(old(self)@, tx, final(self)@),
    {
        let ghost v = self@;
        let c = tx.client_id;
        match tx.kind {
            TxKind::Deposit => {
                let amount = normalize_amount(tx.amount.unwrap());
                let account = self.get_or_create_account(c);
                let account = apply_deposit(&account, amount);
                self.accounts.insert(c.0, account);
                self.transactions.insert(
                    tx.tx_id.0,
                    TxRecord { client_id: c, amount, state: TxState::Active },
                );
            },
            TxKind::Withdrawal => {
                let amount = normalize_amount(tx.amount.unwrap());
                let account = self.get_or_create_account(c);
                let account = apply_withdrawal(&account, amount);
                self.accounts.insert(c.0, account);
            },
            TxKind::Dispute => {
                let record = *self.transactions.get(&tx.tx_id.0).unwrap();
                let account = *self.accounts.get(&c.0).unwrap();
                let (new_account, new_record) = apply_dispute(account, record);
                self.accounts.insert(c.0, new_account);
                self.transactions.insert(tx.tx_id.0, new_record);
            },
            TxKind::Resolve => {
                let record = *self.transactions.get(&tx.tx_id.0).unwrap();
                let account = *self.accounts.get(&c.0).unwrap();
                let (new_account, new_record) = apply_resolve(account, record);
                self.accounts.insert(c.0, new_account);
                self.transactions.insert(tx.tx_id.0, new_record);
            },
            TxKind::Chargeback => {
                let record = *self.transactions.get(&tx.tx_id.0).unwrap();
                let account = *self.accounts.get(&c.0).unwrap();
                let (new_account, new_record) = apply_chargeback(account, record);
                self.accounts.insert(c.0, new_account);
                self.transactions.insert(tx.tx_id.0, new_record);
            },
        }
    }

    /// Validates a transaction and, if it is valid, records it in the event log and applies
    /// it. A rejected transaction leaves the ledger unchanged and its reason is returned.
    /// Validation checks a deposit or withdrawal with the amount as given, while the amount
    /// applied is the normalized one; should that arithmetic be undefined, the transaction is
    /// rejected with `Overflow` rather than applied.
    /// Where the arithmetic is exact, amounts move as `value_effect` describes; where the update
    /// of the held funds is exact, the held funds of every account stay equal to the total of
    /// its disputed deposits. A transaction whose checked arithmetic leaves the range of
    /// decimals is rejected.
    pub fn process(&mut self, tx: Transaction) -> (r: Result<(), LedgerError>)
        ensures
            (final(self)@, r) == process_spec(old(self)@, tx),
            r is Ok && exact_effect(old(self)@, tx) ==> value_effect(old(self)@, tx, final(self)@),
            r is Ok && exact_effect(old(self)@, tx) && (tx.kind == TxKind::Dispute || tx.kind
                == TxKind::Resolve) ==> ({
                let a = old(self)@.accounts[tx.client_id.0];
                let na = final(self)@.accounts[tx.client_id.0];
                units(na.available@) + units(na.held@) == units(a.available@) + units(a.held@)
            }),
            held_matches_disputes(old(self)@) && held_exact(old(self)@, tx)
                ==> held_matches_disputes(final(self)@),
            out_of_range(old(self)@, tx) ==> r is Err,
    {
        let ghost v = self@;
        let r = self.process_step(tx);
        proof {
            if held_matches_disputes(v) && held_exact(v, tx) {
                lemma_process_keeps_holdings(v, tx);
            }
        }
        r
    }

    /// Validation, logging and application of one transaction.
    fn process_step(&mut self, tx: Transaction) -> (r: Result<(), LedgerError>)
        ensures
            (final(self)@, r) == process_spec(old(self)@, tx),
            r is Ok && exact_effect(old(self)@, tx) ==> value_effect(old(self)@, tx, final(self)@),
            r is Ok && held_exact(old(self)@, tx) ==> held_effect(old(self)@, tx, final(self)@),
            out_of_range(old(self)@, tx) ==> r is Err,
    {
        match self.validate(&tx) {
            Ok(_) => {},
            Err(e) => return Err(e),
        }
        if !self.apply_is_defined(&tx) {
            return Err(LedgerError::Overflow);
        }
        self.event_log.push(tx);
        self.apply_unchecked(tx);
        Ok(())
    }
} // impl Ledger

impl Default for Ledger {
    fn default() -> (r: Self)
        ensures
            r@ == LedgerView::empty(),
    {
        Ledger::new()
    }
}

} // verus!
