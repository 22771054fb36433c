//! Running a sequence of input records through a ledger.
use vstd::prelude::*;
use crate::amount::nat_digits;
use crate::error::{LedgerError, ParseError};
use crate::laws::held_matches_disputes;
use crate::ledger::{held_exact, process_spec, Ledger, LedgerView};
use crate::text::decimal_text;
use crate::types::Transaction;

verus! {

/// A record that did not change the ledger: its row (counted from zero, header excluded)
/// and why.
pub enum RowFailure {
    /// The transaction was rejected by the ledger.
    Rejected(nat, LedgerError),
    /// The record could not be read; the message is given where the library fixes it.
    Unreadable(nat, Option<Seq<char>>),
}

/// The ledger after processing the records in order; unreadable records are skipped.
pub open spec fn run_state(v: LedgerView, items: Seq<Result<Transaction, ParseError>>) -> LedgerView
    decreases items.len(),
{
    if items.len() == 0 {
        v
    } else {
        let p = run_state(v, items.drop_last());
        match items.last() {
            Ok(tx) => process_spec(p, tx).0,
            Err(_) => p,
        }
    }
}

/// The records that did not change the ledger, in order.
pub open spec fn run_failures(v: LedgerView, items: Seq<Result<Transaction, ParseError>>) -> Seq<
    RowFailure,
>
    decreases items.len(),
{
    if items.len() == 0 {
        Seq::empty()
    } else {
        let p = run_state(v, items.drop_last());
        let f = run_failures(v, items.drop_last());
        let row = (items.len() - 1) as nat;
        match items.last() {
            Ok(tx) => match process_spec(p, tx).1 {
                Ok(_) => f,
                Err(e) => f.push(RowFailure::Rejected(row, e)),
            },
            Err(e) => f.push(RowFailure::Unreadable(row, e.known_text())),
        }
    }
}

/// Every dispute, resolve and chargeback in the records updates the held funds exactly in the
/// state it is processed in.
pub open spec fn held_steps_exact(v: LedgerView, items: Seq<Result<Transaction, ParseError>>) -> bool {
    forall|i: int|
        0 <= i < items.len() ==> (#[trigger] items[i] matches Ok(tx) ==> held_exact(
            run_state(v, items.take(i)),
            tx,
        ))
}

/// "warn: row N: " where N is the line of the record in the input (the header is line 1).
pub open spec fn warning_prefix(row: nat) -> Seq<char> {
    "warn: row "@ + nat_digits(row + 2) + ": "@
}

/// The warning printed for a failed record.
pub open spec fn warning_matches(f: RowFailure, w: Seq<char>) -> bool {
    match f {
        RowFailure::Rejected(row, e) => w == warning_prefix(row) + e.text(),
        RowFailure::Unreadable(row, Some(t)) => w == warning_prefix(row) + t,
        RowFailure::Unreadable(row, None) => (warning_prefix(row) + "CSV error: "@).is_prefix_of(
            w,
        ),
    }
}

fn warning_line(row: usize, message: String) -> (r: String)
    ensures
        r@ == warning_prefix(row as nat) + message@,
{
    let mut s = String::from_str("warn: row ");
    s.append(decimal_text(row as u128 + 2).as_str());
    s.append(": ");
    s.append(message.as_str());
    s
}

/// A ledger together with the records to feed it.
pub struct Processor {
    ledger: Ledger,
    source: Vec<Result<Transaction, ParseError>>,
}

impl Processor {
    pub closed spec fn ledger_view(&self) -> LedgerView {
        self.ledger@
    }

    pub closed spec fn records(&self) -> Seq<Result<Transaction, ParseError>> {
        self.source@
    }

    /// A processor with an empty ledger and the given records.
    pub fn new(source: Vec<Result<Transaction, ParseError>>) -> (r: Processor)
        ensures
            r.ledger_view() == LedgerView::empty(),
            r.records() == source@,
    {
        Processor { ledger: Ledger::new(), source }
    }

    /// Processes every record in order and returns the final ledger with one warning per
    /// record that was unreadable or rejected; those records change nothing. Where every
    /// dispute, resolve and chargeback updates the held funds exactly, held funds keep matching
    /// the open disputes.
    pub fn run(self) -> (r: (Ledger, Vec<String>))
        ensures
            r.0@ == run_state(self.ledger_view(), self.records()),
            r.1@.len() == run_failures(self.ledger_view(), self.records()).len(),
            forall|j: int|
                0 <= j < r.1@.len() ==> warning_matches(
                    #[trigger] run_failures(self.ledger_view(), self.records())[j],
                    r.1@[j]@,
                ),
            held_matches_disputes(self.ledger_view()) && held_steps_exact(
                self.ledger_view(),
                self.records(),
            ) ==> held_matches_disputes(r.0@),
    {
        let ghost v0 = self.ledger_view();
        let ghost items = self.records();
        let ghost keeps = held_matches_disputes(v0) && held_steps_exact(v0, items);
        let Processor { mut ledger, source } = self;
        let mut warnings: Vec<String> = Vec::new();
        let mut i: usize = 0;
        while i < source.len()
            invariant
                items == source@,
                0 <= i <= source@.len(),
                ledger@ == run_state(v0, items.take(i as int)),
                keeps == (held_matches_disputes(v0) && held_steps_exact(v0, items)),
                keeps ==> held_matches_disputes(ledger@),
                warnings@.len() == run_failures(v0, items.take(i as int)).len(),
                forall|j: int|
                    0 <= j < warnings@.len() ==> warning_matches(
                        #[trigger] run_failures(v0, items.take(i as int))[j],
                        warnings@[j]@,
                    ),
            decreases source@.len() - i,
        {
            let ghost before = items.take(i as int);
            assert(items.take(i + 1).drop_last() == before);
            assert(items.take(i + 1).last() == items[i as int]);
            match &source[i] {
                Ok(tx) => {
                    match ledger.process(*tx) {
                        Ok(_) => {},
                        Err(e) => {
                            warnings.push(warning_line(i, e.to_string()));
                        },
                    }
                },
                Err(e) => {
                    warnings.push(warning_line(i, e.to_string()));
                },
            }
            i = i + 1;
        }
        assert(items.take(i as int) == items);
        (ledger, warnings)
    }
}

} // verus!
