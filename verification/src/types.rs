//! Identifiers, transactions, deposit records and accounts.
use vstd::prelude::*;
use crate::amount::{add_parts, checked_add, exact_add, lemma_add_exact, units, nat_digits, opt_parts, Amount};
use crate::text::{decimal_text, lowercase, parse_u16, parse_u32, str_trim, to_lowercase, trim, unsigned_text_value};
use core::num::ParseIntError;


verus! {

/// Unique identifier for a client account.
#[derive(Clone, Copy, Debug, PartialEq, Eq, Hash, Structural)]
pub struct ClientId(pub u16);

/// Unique identifier for a transaction.
#[derive(Clone, Copy, Debug, PartialEq, Eq, Hash, Structural)]
pub struct TxId(pub u32);

impl ClientId {
    /// Decimal text of the identifier.
    pub fn to_string(&self) -> (r: String)
        ensures
            r@ == nat_digits(self.0 as nat),
    {
        decimal_text(self.0 as u128)
    }

    /// Parses an identifier from text, ignoring surrounding white space.
    pub fn parse(s: &str) -> (r: Result<ClientId, ParseIntError>)
        ensures
            (match r {
                Ok(id) => unsigned_text_value(str_trim(s@), 65535) == Some(id.0 as nat),
                Err(_) => unsigned_text_value(str_trim(s@), 65535) is None,
            }),
    {
        match parse_u16(trim(s)) {
            Ok(v) => Ok(ClientId(v)),
            Err(e) => Err(e),
        }
    }
}

impl TxId {
    /// Decimal text of the identifier.
    pub fn to_string(&self) -> (r: String)
        ensures
            r@ == nat_digits(self.0 as nat),
    {
        decimal_text(self.0 as u128)
    }

    /// Parses an identifier from text, ignoring surrounding white space.
    pub fn parse(s: &str) -> (r: Result<TxId, ParseIntError>)
        ensures
            (match r {
                Ok(id) => unsigned_text_value(str_trim(s@), 4294967295) == Some(id.0 as nat),
                Err(_) => unsigned_text_value(str_trim(s@), 4294967295) is None,
            }),
    {
        match parse_u32(trim(s)) {
            Ok(v) => Ok(TxId(v)),
            Err(e) => Err(e),
        }
    }
}

impl std::str::FromStr for ClientId {
    type Err = ParseIntError;

    fn from_str(s: &str) -> (r: Result<Self, Self::Err>)
        ensures
            (match r {
                Ok(id) => unsigned_text_value(str_trim(s@), 65535) == Some(id.0 as nat),
                Err(_) => unsigned_text_value(str_trim(s@), 65535) is None,
            }),
    {
        ClientId::parse(s)
    }
}

impl std::str::FromStr for TxId {
    type Err = ParseIntError;

    fn from_str(s: &str) -> (r: Result<Self, Self::Err>)
        ensures
            (match r {
                Ok(id) => unsigned_text_value(str_trim(s@), 4294967295) == Some(id.0 as nat),
                Err(_) => unsigned_text_value(str_trim(s@), 4294967295) is None,
            }),
    {
        TxId::parse(s)
    }
}

/// State of a deposit in the dispute lifecycle.
///
/// - `Active` -> `Disputed` (via dispute)
/// - `Disputed` -> `Resolved` (via resolve, terminal)
/// - `Disputed` -> `ChargedBack` (via chargeback, terminal)
#[derive(Clone, Copy, Debug, PartialEq, Eq, Structural)]
pub enum TxState {
    /// In good standing; the funds are available.
    Active,
    /// Under dispute; the funds are held.
    Disputed,
    /// The dispute was resolved in favour of the deposit (terminal).
    Resolved,
    /// The dispute ended in a chargeback (terminal).
    ChargedBack,
}

impl TxState {
    pub open spec fn text(self) -> Seq<char> {
        match self {
            TxState::Active => "active"@,
            TxState::Disputed => "disputed"@,
            TxState::Resolved => "resolved"@,
            TxState::ChargedBack => "chargedback"@,
        }
    }

    /// Lower-case name of the state.
    pub fn to_string(&self) -> (r: String)
        ensures
            r@ == self.text(),
    {
        match self {
            TxState::Active => String::from_str("active"),
            TxState::Disputed => String::from_str("disputed"),
            TxState::Resolved => String::from_str("resolved"),
            TxState::ChargedBack => String::from_str("chargedback"),
        }
    }
}

/// Type of a transaction.
#[derive(Clone, Copy, Debug, PartialEq, Eq, Structural)]
#[non_exhaustive]
pub enum TxKind {
    /// Credit funds to the client's account.
    Deposit,
    /// Debit funds from the client's account.
    Withdrawal,
    /// Open a dispute on a previous deposit.
    Dispute,
    /// Resolve a dispute in favour of the deposit.
    Resolve,
    /// Reverse a disputed deposit and lock the account.
    Chargeback,
}

/// Error when parsing a transaction kind: holds the (trimmed, lower-cased) text.
#[derive(Debug, Clone)]
pub struct ParseTxKindError(pub String);

impl PartialEq for ParseTxKindError {
    fn eq(&self, other: &Self) -> (r: bool) {
        self.0 == other.0
    }
}

impl Eq for ParseTxKindError {}

impl vstd::std_specs::cmp::PartialEqSpecImpl for ParseTxKindError {
    open spec fn obeys_eq_spec() -> bool {
        true
    }

    open spec fn eq_spec(&self, other: &Self) -> bool {
        self.0@ == other.0@
    }
}

impl ParseTxKindError {
    /// "unknown transaction type: " followed by the text.
    pub fn to_string(&self) -> (r: String)
        ensures
            r@ == "unknown transaction type: "@ + self.0@,
    {
        let mut s = String::from_str("unknown transaction type: ");
        s.append(self.0.as_str());
        s
    }
}

impl TxKind {
    pub open spec fn text(self) -> Seq<char> {
        match self {
            TxKind::Deposit => "deposit"@,
            TxKind::Withdrawal => "withdrawal"@,
            TxKind::Dispute => "dispute"@,
            TxKind::Resolve => "resolve"@,
            TxKind::Chargeback => "chargeback"@,
        }
    }

    /// What parsing gives for a text: its trimmed, lower-cased form names a kind, or is
    /// returned in the error.
    pub open spec fn parse_spec(s: Seq<char>) -> Result<TxKind, Seq<char>> {
        let l = lowercase(str_trim(s));
        if l == "deposit"@ {
            Ok(TxKind::Deposit)
        } else if l == "withdrawal"@ {
            Ok(TxKind::Withdrawal)
        } else if l == "dispute"@ {
            Ok(TxKind::Dispute)
        } else if l == "resolve"@ {
            Ok(TxKind::Resolve)
        } else if l == "chargeback"@ {
            Ok(TxKind::Chargeback)
        } else {
            Err(l)
        }
    }

    /// Lower-case name of the kind.
    pub fn to_string(&self) -> (r: String)
        ensures
            r@ == self.text(),
    {
        match self {
            TxKind::Deposit => String::from_str("deposit"),
            TxKind::Withdrawal => String::from_str("withdrawal"),
            TxKind::Dispute => String::from_str("dispute"),
            TxKind::Resolve => String::from_str("resolve"),
            TxKind::Chargeback => String::from_str("chargeback"),
        }
    }

    /// Parses a kind, case-insensitively and ignoring surrounding white space.
    pub fn parse(s: &str) -> (r: Result<TxKind, ParseTxKindError>)
        ensures
            (match (r, TxKind::parse_spec(s@)) {
                (Ok(k), Ok(k2)) => k == k2,
                (Err(e), Err(t)) => e.0@ == t,
                _ => false,
            }),
    {
        let l = to_lowercase(trim(s));
        if l == String::from_str("deposit") {
            Ok(TxKind::Deposit)
        } else if l == String::from_str("withdrawal") {
            Ok(TxKind::Withdrawal)
        } else if l == String::from_str("dispute") {
            Ok(TxKind::Dispute)
        } else if l == String::from_str("resolve") {
            Ok(TxKind::Resolve)
        } else if l == String::from_str("chargeback") {
            Ok(TxKind::Chargeback)
        } else {
            Err(ParseTxKindError(l))
        }
    }
}

impl std::str::FromStr for TxKind {
    type Err = ParseTxKindError;

    fn from_str(s: &str) -> (r: Result<Self, Self::Err>)
        ensures
            (match (r, TxKind::parse_spec(s@)) {
                (Ok(k), Ok(k2)) => k == k2,
                (Err(e), Err(t)) => e.0@ == t,
                _ => false,
            }),
    {
        TxKind::parse(s)
    }
}

/// Record of a deposit kept by the ledger (only deposits can be disputed).
#[derive(Clone, Copy, Debug)]
pub struct TxRecord {
    pub client_id: ClientId,
    pub amount: Amount,
    pub state: TxState,
}

/// A client account.
#[derive(Clone, Copy, Debug)]
pub struct Account {
    /// Funds available for withdrawal.
    pub available: Amount,
    /// Funds held by open disputes.
    pub held: Amount,
    /// Frozen by a chargeback.
    pub locked: bool,
}

impl Account {
    /// What `total` returns: available + held as `Decimal::checked_add` computes it.
    pub open spec fn total_spec(self) -> Option<(i128, u32)> {
        add_parts(self.available@, self.held@)
    }

    /// Total funds (available + held), or `None` if the sum overflows.
    pub fn total(&self) -> (r: Option<Amount>)
        ensures
            opt_parts(r) == self.total_spec(),
            exact_add(self.available@, self.held@) ==> (r matches Some(t) && units(t@) == units(
                self.available@,
            ) + units(self.held@)),
    {
        self.available.establish_wf();
        self.held.establish_wf();
        proof {
            if exact_add(self.available@, self.held@) {
                lemma_add_exact(self.available@, self.held@);
            }
        }
        checked_add(self.available, self.held)
    }

    pub open spec fn empty_spec() -> Account {
        Account { available: Amount::zero_spec(), held: Amount::zero_spec(), locked: false }
    }
}

impl Default for Account {
    fn default() -> (r: Self)
        ensures
            r == Account::empty_spec(),
    {
        Account { available: Amount::zero(), held: Amount::zero(), locked: false }
    }
}

/// An incoming transaction.
#[derive(Clone, Copy, Debug)]
pub struct Transaction {
    pub kind: TxKind,
    pub client_id: ClientId,
    pub tx_id: TxId,
    /// Amount of a deposit or withdrawal; `None` for dispute, resolve and chargeback.
    pub amount: Option<Amount>,
}

} // verus!
