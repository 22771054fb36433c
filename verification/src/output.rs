//! The accounts report: one CSV line per account with amounts to four decimal places.
use vstd::prelude::*;
use crate::amount::{fixed_string, fixed_text, nat_digits};
use crate::types::{Account, ClientId};

verus! {

/// Number of fractional digits printed for amounts.
pub const PRINTED_DECIMALS: usize = 4;

pub open spec fn header_text() -> Seq<char> {
    "client,available,held,total,locked\n"@
}

pub open spec fn bool_text(b: bool) -> Seq<char> {
    if b {
        "true"@
    } else {
        "false"@
    }
}

/// "client,available,held,total,locked" values of one account, and a line break.
pub open spec fn account_line(c: ClientId, a: Account, total: (i128, u32)) -> Seq<char> {
    nat_digits(c.0 as nat) + ","@ + fixed_text(a.available@, 4) + ","@ + fixed_text(a.held@, 4)
        + ","@ + fixed_text(total, 4) + ","@ + bool_text(a.locked) + "\n"@
}

/// The lines of the accounts whose total is defined, in the given order.
pub open spec fn account_lines(rows: Seq<(ClientId, Account)>) -> Seq<char>
    decreases rows.len(),
{
    if rows.len() == 0 {
        Seq::empty()
    } else {
        let p = account_lines(rows.drop_last());
        let (c, a) = rows.last();
        match a.total_spec() {
            Some(t) => p + account_line(c, a, t),
            None => p,
        }
    }
}

pub open spec fn overflow_message(c: ClientId) -> Seq<char> {
    "error: total overflow for client "@ + nat_digits(c.0 as nat) + " (available + held overflow)"@
}

/// One message per account whose total overflows, in the given order.
pub open spec fn overflow_messages(rows: Seq<(ClientId, Account)>) -> Seq<Seq<char>>
    decreases rows.len(),
{
    if rows.len() == 0 {
        Seq::empty()
    } else {
        let p = overflow_messages(rows.drop_last());
        let (c, a) = rows.last();
        match a.total_spec() {
            Some(t) => p,
            None => p.push(overflow_message(c)),
        }
    }
}

fn bool_string(b: bool) -> (r: String)
    ensures
        r@ == bool_text(b),
{
    if b {
        String::from_str("true")
    } else {
        String::from_str("false")
    }
}

/// The accounts report: the header line, then one line per account whose total is defined;
/// and a message for each account whose total overflows (that account is left out).
pub fn accounts_csv(accounts: &Vec<(ClientId, Account)>) -> (r: (String, Vec<String>))
    ensures
        r.0@ == header_text() + account_lines(accounts@),
        r.1@.len() == overflow_messages(accounts@).len(),
        forall|j: int|
            0 <= j < r.1@.len() ==> #[trigger] r.1@[j]@ == overflow_messages(accounts@)[j],
{
    let mut out = String::from_str("client,available,held,total,locked\n");
    let mut errors: Vec<String> = Vec::new();
    let mut i: usize = 0;
    while i < accounts.len()
        invariant
            0 <= i <= accounts@.len(),
            out@ == header_text() + account_lines(accounts@.take(i as int)),
            errors@.len() == overflow_messages(accounts@.take(i as int)).len(),
            forall|j: int|
                0 <= j < errors@.len() ==> #[trigger] errors@[j]@ == overflow_messages(
                    accounts@.take(i as int),
                )[j],
        decreases accounts@.len() - i,
    {
        assert(accounts@.take(i + 1).drop_last() == accounts@.take(i as int));
        assert(accounts@.take(i + 1).last() == accounts@[i as int]);
        let (c, a) = accounts[i];
        match a.total() {
            Some(total) => {
                let mut line = c.to_string();
                line.append(",");
                line.append(fixed_string(a.available, PRINTED_DECIMALS).as_str());
                line.append(",");
                line.append(fixed_string(a.held, PRINTED_DECIMALS).as_str());
                line.append(",");
                line.append(fixed_string(total, PRINTED_DECIMALS).as_str());
                line.append(",");
                line.append(bool_string(a.locked).as_str());
                line.append("\n");
                assert(line@ == account_line(c, a, total@));
                out.append(line.as_str());
            },
            None => {
                let mut msg = String::from_str("error: total overflow for client ");
                msg.append(c.to_string().as_str());
                msg.append(" (available + held overflow)");
                errors.push(msg);
            },
        }
        i = i + 1;
    }
    assert(accounts@.take(i as int) == accounts@);
    (out, errors)
}

} // verus!
