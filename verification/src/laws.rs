//! Properties of transaction processing, stated over [`process_spec`], the exact contract of
//! [`Ledger::process`](crate::ledger::Ledger::process): what one transaction does to any
//! ledger state; what runs of transactions do (replaying the log, locks, which clients have
//! accounts, and the balance of every client's funds against its deposits, withdrawals and
//! chargebacks); the normalization of amounts; and the round trips of the account operations
//! and of the texts of kinds and identifiers.
use vstd::prelude::*;
use crate::amount::{
    abs, add_defined, digit_char, exact_add, exact_sub, fixed_text, group_amount_parts,
    lemma_add_exact, lemma_pow10_add, lemma_pow10_at_least_ten, lemma_pow10_monotone,
    lemma_pow10_positive, lemma_round_wf, lemma_small_exact, lemma_sub_exact, nat_digits,
    padded_digits, parts_wf, pow10, sub_defined, units, Amount, MAX_MANTISSA,
};
use crate::error::LedgerError;
use crate::ledger::{
    deposit_spec, deposit_total_defined, dispute_spec, exact_effect, held_effect, held_exact, normalize_spec, process_spec, resolve_spec,
    tx_amount_spec, validate_spec, value_effect, withdrawal_spec, LedgerView, AMOUNT_DECIMALS,
};
use crate::text::{
    all_ascii, all_white_space, ascii_lower, lowercase, digits_value, is_ascii_digit, lemma_trim_padded,
    lemma_trim_unchanged, str_trim, unsigned_text_value,
};
use crate::output::{account_line, account_lines, bool_text, header_text};
use crate::types::{Account, ClientId, Transaction, TxKind, TxRecord, TxState};

verus! {

broadcast use group_amount_parts;

/// The transitions of a deposit's state that the lifecycle allows (staying put included):
/// `Active -> Disputed -> Resolved | ChargedBack`.
pub open spec fn allowed_transition(from: TxState, to: TxState) -> bool {
    ||| from == to
    ||| from == TxState::Active && to == TxState::Disputed
    ||| from == TxState::Disputed && to == TxState::Resolved
    ||| from == TxState::Disputed && to == TxState::ChargedBack
}

/// A rejected transaction is a no-op: the ledger is left exactly as it was.
pub proof fn law_rejection_is_noop(v: LedgerView, tx: Transaction)
    ensures
        process_spec(v, tx).1 is Err ==> process_spec(v, tx).0 == v,
{
}

/// The event log grows by exactly the accepted transaction, and by nothing otherwise.
pub proof fn law_log_records_accepted(v: LedgerView, tx: Transaction)
    ensures
        process_spec(v, tx).1 is Ok ==> process_spec(v, tx).0.events == v.events.push(tx),
        process_spec(v, tx).1 is Err ==> process_spec(v, tx).0.events == v.events,
{
}

/// Processing rejects with the validation error whenever validation fails, and accepts only
/// transactions that pass validation.
pub proof fn law_process_follows_validate(v: LedgerView, tx: Transaction)
    ensures
        validate_spec(v, tx) is Err ==> process_spec(v, tx).1 == validate_spec(v, tx),
        process_spec(v, tx).1 is Ok ==> validate_spec(v, tx) is Ok,
{
}

/// A locked account blocks every transaction of its client: it is rejected and changes
/// nothing.
pub proof fn law_locked_account_blocks_all(v: LedgerView, tx: Transaction)
    requires
        v.accounts.contains_key(tx.client_id.0),
        v.accounts[tx.client_id.0].locked,
    ensures
        process_spec(v, tx).1 is Err,
        process_spec(v, tx).0 == v,
{
}

/// Apart from a deposit whose amount is missing or not positive or whose id is taken, a
/// transaction on a locked account is answered with `AccountLocked`.
pub proof fn law_locked_account_answer(v: LedgerView, tx: Transaction)
    requires
        v.accounts.contains_key(tx.client_id.0),
        v.accounts[tx.client_id.0].locked,
        tx.kind != TxKind::Deposit,
    ensures
        tx.kind != TxKind::Withdrawal ==> process_spec(v, tx).1 == Err::<(), LedgerError>(
            LedgerError::AccountLocked(tx.client_id),
        ),
        tx.kind == TxKind::Withdrawal && (tx.amount matches Some(a) && crate::amount::units(a@)
            > 0) ==> process_spec(v, tx).1 == Err::<(), LedgerError>(
            LedgerError::AccountLocked(tx.client_id),
        ),
{
}

/// Once locked, an account stays locked.
pub proof fn law_lock_is_permanent(v: LedgerView, tx: Transaction, client: u16)
    requires
        v.accounts.contains_key(client),
        v.accounts[client].locked,
    ensures
        process_spec(v, tx).0.accounts.contains_key(client),
        process_spec(v, tx).0.accounts[client].locked,
{
}

/// Accounts are never removed.
pub proof fn law_accounts_persist(v: LedgerView, tx: Transaction, client: u16)
    requires
        v.accounts.contains_key(client),
    ensures
        process_spec(v, tx).0.accounts.contains_key(client),
{
}

/// Accounts are created only by accepted deposits, for the deposit's client.
pub proof fn law_accounts_come_from_deposits(
    v: LedgerView,
    tx: Transaction,
    client: u16,
)
    requires
        !v.accounts.contains_key(client),
        process_spec(v, tx).0.accounts.contains_key(client),
    ensures
        tx.kind == TxKind::Deposit,
        tx.client_id.0 == client,
        process_spec(v, tx).1 is Ok,
{
}

/// A transaction changes no deposit record but the one it names.
pub proof fn law_other_records_unchanged(v: LedgerView, tx: Transaction, id: u32)
    requires
        id != tx.tx_id.0,
    ensures
        process_spec(v, tx).0.transactions.contains_key(id) == v.transactions.contains_key(id),
        v.transactions.contains_key(id) ==> process_spec(v, tx).0.transactions[id]
            == v.transactions[id],
{
}

/// A normalized amount has at most four fractional digits, and normalizing it again changes
/// nothing.
pub proof fn law_normalization_is_idempotent(d: Amount)
    ensures
        normalize_spec(d)@.1 <= 4,
        normalize_spec(normalize_spec(d)) == normalize_spec(d),
{
}

/// Normalizing gives the multiple of 0.0001 (10^24 units of 10^-28) nearest to the amount: it
/// is at most 0.00005 away, and at exactly 0.00005 it is the even multiple.
pub proof fn law_normalization_is_nearest(d: Amount)
    requires
        parts_wf(d@),
    ensures
        units(normalize_spec(d)@) % (pow10(24) as int) == 0,
        abs(units(normalize_spec(d)@) - units(d@)) <= 5 * pow10(23),
        abs(units(normalize_spec(d)@) - units(d@)) == 5 * pow10(23) ==> (units(
            normalize_spec(d)@,
        ) / (pow10(24) as int)) % 2 == 0,
{
    let p = d@;
    let r = normalize_spec(d)@;
    lemma_round_wf(p, AMOUNT_DECIMALS);
    lemma_pow10_positive(23);
    let t: int = pow10(24) as int;
    assert(t == 10 * pow10(23));
    let ur = units(r);
    assert(r.1 == 4 || r == p);
    if p.1 <= 4 {
        lemma_pow10_add((4 - p.1) as nat, 24);
        let k: int = pow10((4 - p.1) as nat) as int;
        assert(units(p) == (p.0 * k) * t) by (nonlinear_arith)
            requires
                units(p) == p.0 * (k * t),
        ;
        vstd::arithmetic::div_mod::lemma_mod_multiples_basic(p.0 * k, t);
    } else {
        let e = (p.1 - 4) as nat;
        let dd: int = pow10(e) as int;
        let l: int = pow10((24 - e) as nat) as int;
        lemma_pow10_add(e, (24 - e) as nat);
        lemma_pow10_positive(e);
        lemma_pow10_positive((24 - e) as nat);
        lemma_pow10_at_least_ten(e);
        assert(t == dd * l);
        assert(l * dd == dd * l) by (nonlinear_arith);
        let x: int = abs(p.0 as int) as int;
        let q: int = x / dd;
        let rr: int = x % dd;
        assert(x == q * dd + rr && 0 <= rr < dd) by (nonlinear_arith)
            requires
                dd > 0,
                q == x / dd,
                rr == x % dd,
        ;
        let up = 2 * rr > dd || (2 * rr == dd && q % 2 == 1);
        let q2: int = if up {
            q + 1
        } else {
            q
        };
        let sg: int = if p.0 < 0 {
            -1
        } else {
            1
        };
        assert(q * 10 <= x) by (nonlinear_arith)
            requires
                x == q * dd + rr,
                rr >= 0,
                dd >= 10,
                q >= 0,
        ;
        assert(q2 <= MAX_MANTISSA);
        assert(r.0 == sg * q2);
        assert(p.0 == sg * x);
        assert(units(p) == p.0 * l);
        assert(ur == r.0 * t);
        vstd::arithmetic::div_mod::lemma_mod_multiples_basic(r.0 as int, t);
        vstd::arithmetic::div_mod::lemma_div_multiples_vanish(r.0 as int, t);
        assert(t * r.0 == r.0 * t) by (nonlinear_arith);
        let diff = ur - units(p);
        assert(diff == sg * l * (q2 * dd - q * dd - rr)) by (nonlinear_arith)
            requires
                diff == ur - units(p),
                ur == r.0 * t,
                r.0 == sg * q2,
                t == dd * l,
                units(p) == p.0 * l,
                p.0 == sg * x,
                x == q * dd + rr,
        ;
        if up {
            assert(abs(diff) == l * (dd - rr)) by (nonlinear_arith)
                requires
                    diff == sg * l * (q2 * dd - q * dd - rr),
                    q2 == q + 1,
                    sg == 1 || sg == -1,
                    l > 0,
                    rr < dd,
            ;
            assert(2 * (l * (dd - rr)) <= l * dd) by (nonlinear_arith)
                requires
                    2 * rr >= dd,
                    l > 0,
            ;
            if abs(diff) == 5 * pow10(23) {
                assert(2 * rr == dd) by (nonlinear_arith)
                    requires
                        2 * (l * (dd - rr)) == l * dd,
                        l > 0,
                ;
            }
        } else {
            assert(abs(diff) == l * rr) by (nonlinear_arith)
                requires
                    diff == sg * l * (q2 * dd - q * dd - rr),
                    q2 == q,
                    sg == 1 || sg == -1,
                    l > 0,
                    rr >= 0,
            ;
            assert(2 * (l * rr) <= l * dd) by (nonlinear_arith)
                requires
                    2 * rr <= dd,
                    l > 0,
            ;
            if abs(diff) == 5 * pow10(23) {
                assert(2 * rr == dd) by (nonlinear_arith)
                    requires
                        2 * (l * rr) == l * dd,
                        l > 0,
                ;
            }
        }
    }
}

/// Normalization keeps the order of amounts: a smaller amount never normalizes to a larger
/// one.
pub proof fn law_normalization_is_monotone(d1: Amount, d2: Amount)
    requires
        parts_wf(d1@),
        parts_wf(d2@),
        units(d1@) <= units(d2@),
    ensures
        units(normalize_spec(d1)@) <= units(normalize_spec(d2)@),
{
    law_normalization_is_nearest(d1);
    law_normalization_is_nearest(d2);
    let t: int = pow10(24) as int;
    assert(t == 10 * pow10(23));
    lemma_pow10_positive(23);
    let n1 = units(normalize_spec(d1)@);
    let n2 = units(normalize_spec(d2)@);
    let a = n1 / t;
    let b = n2 / t;
    assert(n1 == a * t && n2 == b * t) by (nonlinear_arith)
        requires
            t > 0,
            n1 % t == 0,
            n2 % t == 0,
            a == n1 / t,
            b == n2 / t,
    ;
    if n1 > n2 {
        assert(n1 >= n2 + t) by (nonlinear_arith)
            requires
                n1 == a * t,
                n2 == b * t,
                n1 > n2,
                t > 0,
        ;
        assert(a == b + 1) by (nonlinear_arith)
            requires
                n1 == a * t,
                n2 == b * t,
                n1 == n2 + t,
                t > 0,
        ;
    }
}

/// A transaction changes no account but its own client's.
pub proof fn law_other_accounts_unchanged(
    v: LedgerView,
    tx: Transaction,
    client: u16,
)
    requires
        client != tx.client_id.0,
    ensures
        process_spec(v, tx).0.accounts.contains_key(client) == v.accounts.contains_key(client),
        v.accounts.contains_key(client) ==> process_spec(v, tx).0.accounts[client]
            == v.accounts[client],
{
}

/// A deposit record keeps its client and amount forever, and its state only moves along the
/// lifecycle `Active -> Disputed -> Resolved | ChargedBack`.
pub proof fn law_deposit_lifecycle(v: LedgerView, tx: Transaction, id: u32)
    requires
        v.transactions.contains_key(id),
    ensures
        process_spec(v, tx).0.transactions.contains_key(id),
        process_spec(v, tx).0.transactions[id].client_id == v.transactions[id].client_id,
        process_spec(v, tx).0.transactions[id].amount == v.transactions[id].amount,
        allowed_transition(
            v.transactions[id].state,
            process_spec(v, tx).0.transactions[id].state,
        ),
{
}

/// `Resolved` and `ChargedBack` are terminal: such a deposit never changes again.
pub proof fn law_terminal_states_are_final(
    v: LedgerView,
    tx: Transaction,
    id: u32,
)
    requires
        v.transactions.contains_key(id),
        v.transactions[id].state == TxState::Resolved || v.transactions[id].state
            == TxState::ChargedBack,
    ensures
        process_spec(v, tx).0.transactions[id] == v.transactions[id],
{
}

/// Deposit records come only from accepted deposits: a new record carries the deposit's
/// client, its normalized amount, and the state `Active`.
pub proof fn law_records_come_from_deposits(
    v: LedgerView,
    tx: Transaction,
    id: u32,
)
    requires
        !v.transactions.contains_key(id),
        process_spec(v, tx).0.transactions.contains_key(id),
    ensures
        tx.kind == TxKind::Deposit,
        tx.tx_id.0 == id,
        tx.amount is Some,
        process_spec(v, tx).0.transactions[id] == (TxRecord {
            client_id: tx.client_id,
            amount: normalize_spec(tx.amount->0),
            state: TxState::Active,
        }),
{
}

/// A deposit whose transaction id is already recorded is rejected.
pub proof fn law_duplicate_deposit_rejected(v: LedgerView, tx: Transaction)
    requires
        tx.kind == TxKind::Deposit,
        v.transactions.contains_key(tx.tx_id.0),
    ensures
        process_spec(v, tx).0 == v,
        process_spec(v, tx).1 is Err,
        (tx.amount matches Some(a) && crate::amount::units(a@) > 0) ==> process_spec(v, tx).1
            == Err::<(), LedgerError>(LedgerError::DuplicateTxId(tx.tx_id)),
{
}


// ---------------------------------------------------------------------------
// Held funds and open disputes
// ---------------------------------------------------------------------------

/// Sum of `g` over a finite set of transaction ids.
pub open spec fn sum_over(s: Set<u32>, g: spec_fn(u32) -> int) -> int
    decreases s.len(),
{
    if s.finite() && s.len() > 0 {
        let k = s.choose();
        g(k) + sum_over(s.remove(k), g)
    } else {
        0
    }
}

/// Removing any member splits it off the sum.
pub proof fn lemma_sum_remove(s: Set<u32>, g: spec_fn(u32) -> int, k: u32)
    requires
        s.finite(),
        s.contains(k),
    ensures
        sum_over(s, g) == g(k) + sum_over(s.remove(k), g),
    decreases s.len(),
{
    let j = s.choose();
    assert(s.len() > 0);
    if j != k {
        lemma_sum_remove(s.remove(j), g, k);
        lemma_sum_remove(s.remove(k), g, j);
        assert(s.remove(j).remove(k) =~= s.remove(k).remove(j));
    }
}

/// Sums of functions that agree on the set are equal.
pub proof fn lemma_sum_congruent(s: Set<u32>, g1: spec_fn(u32) -> int, g2: spec_fn(u32) -> int)
    requires
        s.finite(),
        forall|k: u32| s.contains(k) ==> g1(k) == g2(k),
    ensures
        sum_over(s, g1) == sum_over(s, g2),
    decreases s.len(),
{
    if s.len() > 0 {
        let k = s.choose();
        lemma_sum_congruent(s.remove(k), g1, g2);
    }
}

/// A sum of zeros is zero.
pub proof fn lemma_sum_zero(s: Set<u32>, g: spec_fn(u32) -> int)
    requires
        s.finite(),
        forall|k: u32| s.contains(k) ==> g(k) == 0,
    ensures
        sum_over(s, g) == 0,
    decreases s.len(),
{
    if s.len() > 0 {
        let k = s.choose();
        lemma_sum_zero(s.remove(k), g);
    }
}

/// The value (units of 10^-28) that a deposit record counts for `client` while it is in
/// `state`.
pub open spec fn state_value(m: Map<u32, TxRecord>, client: u16, state: TxState) -> spec_fn(
    u32,
) -> int {
    |k: u32|
        if m.contains_key(k) && m[k].client_id.0 == client && m[k].state == state {
            units(m[k].amount@)
        } else {
            0
        }
}

/// Sum of the amounts of the client's deposits that are in `state`.
pub open spec fn state_total(m: Map<u32, TxRecord>, client: u16, state: TxState) -> int {
    sum_over(m.dom(), state_value(m, client, state))
}

/// Sum of the amounts of the client's disputed deposits.
pub open spec fn open_disputes_total(m: Map<u32, TxRecord>, client: u16) -> int {
    state_total(m, client, TxState::Disputed)
}

/// Sum of the amounts of the client's charged-back deposits.
pub open spec fn charged_back_total(m: Map<u32, TxRecord>, client: u16) -> int {
    state_total(m, client, TxState::ChargedBack)
}

/// Every deposit record belongs to an existing account, and each account holds exactly the
/// sum of its disputed deposits.
pub open spec fn held_matches_disputes(v: LedgerView) -> bool {
    &&& v.transactions.dom().finite()
    &&& forall|k: u32|
        #[trigger] v.transactions.contains_key(k) ==> v.accounts.contains_key(
            v.transactions[k].client_id.0,
        )
    &&& forall|c: u16|
        #[trigger] v.accounts.contains_key(c) ==> units(v.accounts[c].held@)
            == open_disputes_total(v.transactions, c)
}

/// The empty ledger holds nothing and has no disputes.
pub proof fn law_empty_ledger_holds_nothing()
    ensures
        held_matches_disputes(LedgerView::empty()),
{
}

/// Changing one record changes each client's disputed total by what that record contributes.
proof fn lemma_update_record(m: Map<u32, TxRecord>, k: u32, r: TxRecord, c: u16, st: TxState)
    requires
        m.dom().finite(),
    ensures
        state_total(m.insert(k, r), c, st) == state_total(m, c, st) - state_value(m, c, st)(k)
            + state_value(m.insert(k, r), c, st)(k),
{
    let n = m.insert(k, r);
    let g = state_value(m, c, st);
    let h = state_value(n, c, st);
    assert(n.dom().finite());
    lemma_sum_remove(n.dom(), h, k);
    assert(n.dom().remove(k) =~= m.dom().remove(k));
    lemma_sum_congruent(m.dom().remove(k), h, g);
    if m.contains_key(k) {
        lemma_sum_remove(m.dom(), g, k);
    } else {
        assert(m.dom().remove(k) =~= m.dom());
    }
}

/// A processed transaction keeps the held funds equal to the open disputes, given that the
/// held funds move by exactly the deposit's amount (which [`Ledger::process`] guarantees when
/// the update of the held funds is exact).
pub proof fn lemma_process_keeps_holdings(v: LedgerView, tx: Transaction)
    requires
        held_matches_disputes(v),
        process_spec(v, tx).1 is Ok ==> held_effect(v, tx, process_spec(v, tx).0),
    ensures
        held_matches_disputes(process_spec(v, tx).0),
{
    let n = process_spec(v, tx).0;
    if process_spec(v, tx).1 is Ok {
        let c = tx.client_id.0;
        let t = tx.tx_id.0;
        let m = v.transactions;
        let nm = n.transactions;
        assert(nm.dom().finite());
        match tx.kind {
            TxKind::Withdrawal => {
                assert forall|d: u16| #[trigger] n.accounts.contains_key(d) implies units(
                    n.accounts[d].held@,
                ) == open_disputes_total(nm, d) by {
                    assert(nm == m);
                }
            },
            TxKind::Deposit => {
                let rec = nm[t];
                assert forall|d: u16| #[trigger] n.accounts.contains_key(d) implies units(
                    n.accounts[d].held@,
                ) == open_disputes_total(nm, d) by {
                    lemma_update_record(m, t, rec, d, TxState::Disputed);
                    if d == c && !v.accounts.contains_key(c) {
                        assert forall|k: u32| m.dom().contains(k) implies state_value(
                            m,
                            d,
                            TxState::Disputed,
                        )(k) == 0 by {
                            assert(v.accounts.contains_key(m[k].client_id.0));
                        }
                        lemma_sum_zero(m.dom(), state_value(m, d, TxState::Disputed));
                    }
                }
            },
            _ => {
                assert forall|d: u16| #[trigger] n.accounts.contains_key(d) implies units(
                    n.accounts[d].held@,
                ) == open_disputes_total(nm, d) by {
                    lemma_update_record(m, t, nm[t], d, TxState::Disputed);
                }
            },
        }
    }
}


// ---------------------------------------------------------------------------
// Runs of transactions
// ---------------------------------------------------------------------------

/// The state after processing the transactions `xs` in order, starting from `v`.
pub open spec fn run(v: LedgerView, xs: Seq<Transaction>) -> LedgerView
    decreases xs.len(),
{
    if xs.len() == 0 {
        v
    } else {
        process_spec(run(v, xs.drop_last()), xs.last()).0
    }
}

/// The answer given to the `i`-th transaction of `xs`, processed in order from `v`.
pub open spec fn answer(v: LedgerView, xs: Seq<Transaction>, i: int) -> Result<(), LedgerError> {
    process_spec(run(v, xs.take(i)), xs[i]).1
}

/// Answers to the transactions before the last do not depend on the last one; the last is
/// answered in the state that the others lead to.
proof fn lemma_answer_prefix(v: LedgerView, xs: Seq<Transaction>)
    requires
        xs.len() > 0,
    ensures
        forall|i: int|
            0 <= i < xs.len() - 1 ==> #[trigger] answer(v, xs, i) == answer(v, xs.drop_last(), i),
        answer(v, xs, xs.len() - 1) == process_spec(run(v, xs.drop_last()), xs.last()).1,
{
    assert forall|i: int| 0 <= i < xs.len() - 1 implies #[trigger] answer(v, xs, i) == answer(
        v,
        xs.drop_last(),
        i,
    ) by {
        assert(xs.take(i) =~= xs.drop_last().take(i));
    }
    assert(xs.take(xs.len() - 1) =~= xs.drop_last());
}

/// Replaying the event log of a ledger that processing built from an empty one rebuilds it,
/// log included, and every logged transaction is accepted again.
pub proof fn law_replay_rebuilds(xs: Seq<Transaction>)
    ensures
        run(LedgerView::empty(), run(LedgerView::empty(), xs).events) == run(
            LedgerView::empty(),
            xs,
        ),
        forall|i: int|
            0 <= i < run(LedgerView::empty(), xs).events.len() ==> #[trigger] answer(
                LedgerView::empty(),
                run(LedgerView::empty(), xs).events,
                i,
            ) is Ok,
    decreases xs.len(),
{
    let e = LedgerView::empty();
    if xs.len() > 0 {
        law_replay_rebuilds(xs.drop_last());
        let w = run(e, xs.drop_last());
        let tx = xs.last();
        let v = run(e, xs);
        if process_spec(w, tx).1 is Ok {
            let log = v.events;
            assert(log.drop_last() =~= w.events);
            assert(log.last() == tx);
            lemma_answer_prefix(e, log);
        }
    }
}

/// Along any run from an empty ledger, the clients with an account are exactly those with an
/// accepted deposit: withdrawals, disputes and rejected transactions never create one.
pub proof fn law_accounts_are_depositors(xs: Seq<Transaction>, c: u16)
    ensures
        run(LedgerView::empty(), xs).accounts.contains_key(c) <==> exists|i: int|
            0 <= i < xs.len() && xs[i].kind == TxKind::Deposit && xs[i].client_id.0 == c
                && #[trigger] answer(LedgerView::empty(), xs, i) is Ok,
    decreases xs.len(),
{
    let e = LedgerView::empty();
    if xs.len() > 0 {
        let ys = xs.drop_last();
        let w = run(e, ys);
        law_accounts_are_depositors(ys, c);
        lemma_answer_prefix(e, xs);
        if w.accounts.contains_key(c) {
            law_accounts_persist(w, xs.last(), c);
            let i = choose|i: int|
                0 <= i < ys.len() && ys[i].kind == TxKind::Deposit && ys[i].client_id.0 == c
                    && #[trigger] answer(e, ys, i) is Ok;
            assert(answer(e, xs, i) is Ok);
        } else if run(e, xs).accounts.contains_key(c) {
            law_accounts_come_from_deposits(w, xs.last(), c);
            assert(answer(e, xs, xs.len() - 1) is Ok);
        } else {
            assert forall|i: int|
                0 <= i < xs.len() && xs[i].kind == TxKind::Deposit && xs[i].client_id.0 == c
                    implies !(#[trigger] answer(e, xs, i) is Ok) by {
                if i < xs.len() - 1 {
                    assert(ys[i] == xs[i]);
                }
            }
        }
    }
}

/// The client's deposit record under `k`, if there is one.
pub open spec fn client_record(v: LedgerView, k: u32, c: u16) -> Option<TxRecord> {
    if v.transactions.contains_key(k) && v.transactions[k].client_id.0 == c {
        Some(v.transactions[k])
    } else {
        None
    }
}

/// One transaction leaves a locked account, and its client's records, as they are.
proof fn lemma_locked_step(v: LedgerView, tx: Transaction, c: u16)
    requires
        v.accounts.contains_key(c),
        v.accounts[c].locked,
    ensures
        process_spec(v, tx).0.accounts.contains_key(c),
        process_spec(v, tx).0.accounts[c] == v.accounts[c],
        tx.client_id.0 == c ==> process_spec(v, tx).1 is Err,
        forall|k: u32| #[trigger] client_record(process_spec(v, tx).0, k, c) == client_record(v, k, c),
{
    let n = process_spec(v, tx).0;
    if tx.client_id.0 == c {
        law_locked_account_blocks_all(v, tx);
    }
    assert forall|k: u32| #[trigger] client_record(n, k, c) == client_record(v, k, c) by {
        if k == tx.tx_id.0 && process_spec(v, tx).1 is Ok && tx.kind != TxKind::Withdrawal {
            assert(n.transactions[k].client_id == tx.client_id);
        }
    }
}

/// Once an account is locked, whatever transactions follow leave it exactly as it is (still
/// locked, same available and held funds), every transaction of its client is rejected, and
/// the client's deposit records neither change nor grow in number.
pub proof fn law_lock_holds_over_runs(v: LedgerView, xs: Seq<Transaction>, c: u16)
    requires
        v.accounts.contains_key(c),
        v.accounts[c].locked,
    ensures
        run(v, xs).accounts.contains_key(c),
        run(v, xs).accounts[c] == v.accounts[c],
        forall|i: int|
            0 <= i < xs.len() && xs[i].client_id.0 == c ==> #[trigger] answer(v, xs, i) is Err,
        forall|k: u32| #[trigger] client_record(run(v, xs), k, c) == client_record(v, k, c),
    decreases xs.len(),
{
    if xs.len() > 0 {
        law_lock_holds_over_runs(v, xs.drop_last(), c);
        let w = run(v, xs.drop_last());
        lemma_locked_step(w, xs.last(), c);
        lemma_answer_prefix(v, xs);
        assert forall|k: u32| #[trigger] client_record(run(v, xs), k, c) == client_record(
            v,
            k,
            c,
        ) by {
            assert(client_record(w, k, c) == client_record(v, k, c));
        }
    }
}

/// Only an accepted chargeback of the client locks an account.
proof fn lemma_lock_step(v: LedgerView, tx: Transaction, c: u16)
    requires
        !(v.accounts.contains_key(c) && v.accounts[c].locked),
        process_spec(v, tx).0.accounts.contains_key(c),
        process_spec(v, tx).0.accounts[c].locked,
    ensures
        tx.kind == TxKind::Chargeback,
        tx.client_id.0 == c,
        process_spec(v, tx).1 is Ok,
{
}

/// An account that was not locked becomes locked only through an accepted chargeback of its
/// client.
pub proof fn law_lock_comes_from_chargeback(v: LedgerView, xs: Seq<Transaction>, c: u16)
    requires
        !(v.accounts.contains_key(c) && v.accounts[c].locked),
        run(v, xs).accounts.contains_key(c),
        run(v, xs).accounts[c].locked,
    ensures
        exists|i: int|
            0 <= i < xs.len() && xs[i].kind == TxKind::Chargeback && xs[i].client_id.0 == c
                && #[trigger] answer(v, xs, i) is Ok,
    decreases xs.len(),
{
    let w = run(v, xs.drop_last());
    lemma_answer_prefix(v, xs);
    if w.accounts.contains_key(c) && w.accounts[c].locked {
        law_lock_comes_from_chargeback(v, xs.drop_last(), c);
        let i = choose|i: int|
            0 <= i < xs.drop_last().len() && xs.drop_last()[i].kind == TxKind::Chargeback
                && xs.drop_last()[i].client_id.0 == c && #[trigger] answer(v, xs.drop_last(), i)
                is Ok;
        assert(answer(v, xs, i) is Ok);
    } else {
        lemma_lock_step(w, xs.last(), c);
        assert(answer(v, xs, xs.len() - 1) is Ok);
    }
}


// ---------------------------------------------------------------------------
// Funds over runs
// ---------------------------------------------------------------------------

/// Net amount that the logged transactions bring to the client: its deposits' normalized
/// amounts minus its withdrawals' (units of 10^-28).
pub open spec fn flow(events: Seq<Transaction>, c: u16) -> int
    decreases events.len(),
{
    if events.len() == 0 {
        0
    } else {
        let tx = events.last();
        let rest = flow(events.drop_last(), c);
        if tx.client_id.0 != c {
            rest
        } else if tx.kind == TxKind::Deposit {
            rest + units(tx_amount_spec(tx)@)
        } else if tx.kind == TxKind::Withdrawal {
            rest - units(tx_amount_spec(tx)@)
        } else {
            rest
        }
    }
}

/// A transaction's amount, if it has one, is representable.
pub open spec fn tx_wf(tx: Transaction) -> bool {
    tx.amount matches Some(a) ==> parts_wf(a@)
}

/// Every amount of the state is representable, and no deposit record is negative.
pub open spec fn amounts_wf(v: LedgerView) -> bool {
    &&& forall|c: u16|
        #[trigger] v.accounts.contains_key(c) ==> parts_wf(v.accounts[c].available@) && parts_wf(
            v.accounts[c].held@,
        )
    &&& forall|k: u32|
        #[trigger] v.transactions.contains_key(k) ==> parts_wf(v.transactions[k].amount@)
            && units(v.transactions[k].amount@) >= 0
}

/// Every transaction that the run accepts has exact arithmetic.
pub open spec fn exact_run(v: LedgerView, xs: Seq<Transaction>) -> bool
    decreases xs.len(),
{
    xs.len() == 0 || (exact_run(v, xs.drop_last()) && (process_spec(
        run(v, xs.drop_last()),
        xs.last(),
    ).1 is Ok ==> exact_effect(run(v, xs.drop_last()), xs.last())))
}

/// Available plus held funds of the client (zero without an account).
pub open spec fn client_funds(v: LedgerView, c: u16) -> int {
    units(v.account_or_empty(ClientId(c)).available@) + units(
        v.account_or_empty(ClientId(c)).held@,
    )
}

/// For every client, available plus held funds equal the deposits minus the withdrawals of
/// the log, minus the deposits that were charged back.
pub open spec fn books_balance(v: LedgerView) -> bool {
    forall|c: u16|
        #[trigger] client_funds(v, c) == flow(v.events, c) - charged_back_total(v.transactions, c)
}

/// An accepted transaction with exact arithmetic moves amounts as `value_effect` says and keeps
/// every amount representable and every deposit record nonnegative.
pub proof fn lemma_exact_step(v: LedgerView, tx: Transaction)
    requires
        amounts_wf(v),
        tx_wf(tx),
        process_spec(v, tx).1 is Ok,
        exact_effect(v, tx),
    ensures
        value_effect(v, tx, process_spec(v, tx).0),
        amounts_wf(process_spec(v, tx).0),
{
    let c = tx.client_id;
    let a = v.account_or_empty(c);
    let r = v.transactions[tx.tx_id.0];
    assert(parts_wf(a.available@) && parts_wf(a.held@));
    match tx.kind {
        TxKind::Deposit => {
            let x = tx.amount->0;
            lemma_round_wf(x@, AMOUNT_DECIMALS);
            lemma_add_exact(a.available@, tx_amount_spec(tx)@);
        },
        TxKind::Withdrawal => {
            let x = tx.amount->0;
            lemma_round_wf(x@, AMOUNT_DECIMALS);
            lemma_sub_exact(a.available@, tx_amount_spec(tx)@);
        },
        TxKind::Dispute => {
            lemma_sub_exact(a.available@, r.amount@);
            lemma_add_exact(a.held@, r.amount@);
        },
        TxKind::Resolve => {
            lemma_add_exact(a.available@, r.amount@);
            lemma_sub_exact(a.held@, r.amount@);
        },
        TxKind::Chargeback => {
            lemma_sub_exact(a.held@, r.amount@);
        },
    }
}

/// A sum of nonnegative terms is nonnegative.
proof fn lemma_sum_nonneg(s: Set<u32>, g: spec_fn(u32) -> int)
    requires
        s.finite(),
        forall|k: u32| s.contains(k) ==> g(k) >= 0,
    ensures
        sum_over(s, g) >= 0,
    decreases s.len(),
{
    if s.len() > 0 {
        let k = s.choose();
        lemma_sum_nonneg(s.remove(k), g);
    }
}

/// An accepted transaction with exact arithmetic keeps the books balanced.
proof fn lemma_balance_step(v: LedgerView, tx: Transaction)
    requires
        amounts_wf(v),
        tx_wf(tx),
        v.transactions.dom().finite(),
        books_balance(v),
        process_spec(v, tx).1 is Ok,
        exact_effect(v, tx),
    ensures
        books_balance(process_spec(v, tx).0),
{
    let n = process_spec(v, tx).0;
    let t = tx.tx_id.0;
    let m = v.transactions;
    lemma_exact_step(v, tx);
    assert(n.events.drop_last() =~= v.events);
    assert forall|c: u16| #[trigger] client_funds(n, c) == flow(n.events, c) - charged_back_total(
        n.transactions,
        c,
    ) by {
        assert(client_funds(v, c) == flow(v.events, c) - charged_back_total(m, c));
        if tx.kind != TxKind::Withdrawal {
            lemma_update_record(m, t, n.transactions[t], c, TxState::ChargedBack);
            assert(n.transactions == m.insert(t, n.transactions[t]));
        } else {
            assert(n.transactions == m);
        }
    }
}

/// The parts have at most four fractional digits and a value below 10^24 in magnitude.
pub open spec fn small_amount(p: (i128, u32)) -> bool {
    p.1 <= 4 && abs(units(p)) < pow10(52)
}

/// A transaction is processed without rounding when the client's funds and the amount it
/// moves (as given, or the deposit's it names) have at most four fractional digits and values
/// below 10^24 in magnitude.
pub proof fn law_small_amounts_are_exact(v: LedgerView, tx: Transaction)
    requires
        small_amount(v.account_or_empty(tx.client_id).available@),
        small_amount(v.account_or_empty(tx.client_id).held@),
        tx.amount matches Some(x) ==> parts_wf(x@) && abs(units(x@)) < pow10(52),
        v.transactions.contains_key(tx.tx_id.0) ==> small_amount(
            v.transactions[tx.tx_id.0].amount@,
        ),
    ensures
        process_spec(v, tx).1 is Ok ==> exact_effect(v, tx),
{
    let a = v.account_or_empty(tx.client_id);
    lemma_pow10_monotone(24, 52);
    lemma_pow10_positive(23);
    assert(pow10(24) == 10 * pow10(23));
    if tx.kind == TxKind::Deposit || tx.kind == TxKind::Withdrawal {
        if tx.amount is Some {
            let x = tx.amount->0;
            law_normalization_is_nearest(x);
            lemma_round_wf(x@, AMOUNT_DECIMALS);
            lemma_small_exact(a.available@, tx_amount_spec(tx)@);
        } else {
            lemma_small_exact(a.available@, tx_amount_spec(tx)@);
        }
    } else if v.transactions.contains_key(tx.tx_id.0) {
        let r = v.transactions[tx.tx_id.0];
        lemma_small_exact(a.available@, r.amount@);
        lemma_small_exact(a.held@, r.amount@);
    }
}

/// The invariant that processing keeps along an exact run.
pub open spec fn sound_books(v: LedgerView) -> bool {
    &&& amounts_wf(v)
    &&& held_matches_disputes(v)
    &&& books_balance(v)
}

proof fn lemma_sound_step(v: LedgerView, tx: Transaction)
    requires
        sound_books(v),
        tx_wf(tx),
        process_spec(v, tx).1 is Ok ==> exact_effect(v, tx),
    ensures
        sound_books(process_spec(v, tx).0),
{
    if process_spec(v, tx).1 is Ok {
        lemma_exact_step(v, tx);
        lemma_balance_step(v, tx);
        lemma_process_keeps_holdings(v, tx);
    }
}

/// Along any run from an empty ledger in which every accepted transaction has exact
/// arithmetic: every client's available plus held funds equal its deposits minus its
/// withdrawals (normalized amounts, as logged) minus its charged-back deposits; each
/// account's held funds equal the total of its open disputes and are never negative; and
/// every deposit record belongs to an existing account.
pub proof fn law_funds_balance(xs: Seq<Transaction>)
    requires
        forall|i: int| 0 <= i < xs.len() ==> tx_wf(#[trigger] xs[i]),
        exact_run(LedgerView::empty(), xs),
    ensures
        books_balance(run(LedgerView::empty(), xs)),
        held_matches_disputes(run(LedgerView::empty(), xs)),
        forall|c: u16|
            #[trigger] run(LedgerView::empty(), xs).accounts.contains_key(c) ==> units(
                run(LedgerView::empty(), xs).accounts[c].held@,
            ) >= 0,
    decreases xs.len(),
{
    lemma_sound_run(xs);
    let v = run(LedgerView::empty(), xs);
    assert forall|c: u16| #[trigger] v.accounts.contains_key(c) implies units(
        v.accounts[c].held@,
    ) >= 0 by {
        lemma_sum_nonneg(v.transactions.dom(), state_value(v.transactions, c, TxState::Disputed));
    }
}

proof fn lemma_sound_run(xs: Seq<Transaction>)
    requires
        forall|i: int| 0 <= i < xs.len() ==> tx_wf(#[trigger] xs[i]),
        exact_run(LedgerView::empty(), xs),
    ensures
        sound_books(run(LedgerView::empty(), xs)),
    decreases xs.len(),
{
    let e = LedgerView::empty();
    if xs.len() == 0 {
        assert forall|c: u16| #[trigger] client_funds(e, c) == flow(e.events, c)
            - charged_back_total(e.transactions, c) by {
            assert(e.transactions.dom() =~= Set::<u32>::empty());
        }
    } else {
        let ys = xs.drop_last();
        assert forall|i: int| 0 <= i < ys.len() implies tx_wf(#[trigger] ys[i]) by {
            assert(ys[i] == xs[i]);
        }
        lemma_sound_run(ys);
        assert(tx_wf(xs[xs.len() - 1]));
        lemma_sound_step(run(e, ys), xs.last());
    }
}


// ---------------------------------------------------------------------------
// Round trips
// ---------------------------------------------------------------------------

/// An empty ledger accepts exactly the deposits of a positive amount; every other transaction
/// is rejected.
pub proof fn law_empty_ledger_accepts_positive_deposits(tx: Transaction)
    ensures
        process_spec(LedgerView::empty(), tx).1 is Ok <==> (tx.kind == TxKind::Deposit
            && (tx.amount matches Some(x) && units(x@) > 0)),
{
}

/// A deposit followed by a withdrawal of the same amount gives back the available funds (by
/// value) and leaves the held funds and the lock as they were, for amounts with at most four
/// fractional digits and values below 10^24 in magnitude.
pub proof fn law_deposit_then_withdrawal(a: Account, x: Amount)
    requires
        parts_wf(a.available@),
        parts_wf(x@),
        a.available@.1 <= 4,
        x@.1 <= 4,
        abs(units(a.available@)) < pow10(52),
        abs(units(x@)) < pow10(52),
    ensures
        add_defined(a.available, x),
        sub_defined(deposit_spec(a, x).available, x),
        units(withdrawal_spec(deposit_spec(a, x), x).available@) == units(a.available@),
        withdrawal_spec(deposit_spec(a, x), x).held == a.held,
        withdrawal_spec(deposit_spec(a, x), x).locked == a.locked,
{
    lemma_small_exact(a.available@, x@);
    lemma_add_exact(a.available@, x@);
    let p = deposit_spec(a, x).available@;
    lemma_small_exact(p, x@);
    lemma_sub_exact(p, x@);
}

/// A dispute followed by the resolve of that dispute gives back the account's available and
/// held funds (by value) and its lock, and leaves the deposit record resolved with its client
/// and amount, for amounts with at most four fractional digits and values below 10^24.
pub proof fn law_dispute_then_resolve(acc: Account, r: TxRecord)
    requires
        parts_wf(acc.available@),
        parts_wf(acc.held@),
        parts_wf(r.amount@),
        acc.available@.1 <= 4,
        acc.held@.1 <= 4,
        r.amount@.1 <= 4,
        abs(units(acc.available@)) < pow10(52),
        abs(units(acc.held@)) < pow10(52),
        abs(units(r.amount@)) < pow10(52),
    ensures
        sub_defined(acc.available, r.amount) && add_defined(acc.held, r.amount),
        ({
            let (a1, r1) = dispute_spec(acc, r);
            let (a2, r2) = resolve_spec(a1, r1);
            &&& add_defined(a1.available, r1.amount) && sub_defined(a1.held, r1.amount)
            &&& units(a2.available@) == units(acc.available@)
            &&& units(a2.held@) == units(acc.held@)
            &&& a2.locked == acc.locked
            &&& r2.client_id == r.client_id && r2.amount == r.amount
            &&& r2.state == TxState::Resolved
        }),
{
    lemma_small_exact(acc.available@, r.amount@);
    lemma_small_exact(acc.held@, r.amount@);
    lemma_sub_exact(acc.available@, r.amount@);
    lemma_add_exact(acc.held@, r.amount@);
    let a1 = dispute_spec(acc, r).0;
    lemma_small_exact(a1.available@, r.amount@);
    lemma_small_exact(a1.held@, r.amount@);
    lemma_add_exact(a1.available@, r.amount@);
    lemma_sub_exact(a1.held@, r.amount@);
}

/// Each transaction kind parses back from its name.
pub proof fn law_kind_name_round_trip(k: TxKind)
    ensures
        TxKind::parse_spec(k.text()) == Ok::<TxKind, Seq<char>>(k),
{
    reveal_strlit("deposit");
    reveal_strlit("withdrawal");
    reveal_strlit("dispute");
    reveal_strlit("resolve");
    reveal_strlit("chargeback");
    let t = k.text();
    lemma_trim_unchanged(t);
    assert(ascii_lower(t) =~= t);
}

/// The decimal digits of a number are ASCII digits, at least one, and read back as the number.
pub proof fn lemma_digits_read_back(n: nat)
    ensures
        nat_digits(n).len() > 0,
        forall|i: int| 0 <= i < nat_digits(n).len() ==> is_ascii_digit(#[trigger] nat_digits(n)[i]),
        digits_value(nat_digits(n)) == n,
    decreases n,
{
    let d = n % 10;
    assert(digit_char(d) as int == d + 48);
    if n >= 10 {
        lemma_digits_read_back(n / 10);
        let s = nat_digits(n);
        assert(s.drop_last() =~= nat_digits(n / 10));
        assert(s.last() == digit_char(d));
        assert(digits_value(s) == digits_value(s.drop_last()) * 10 + d);
        assert((n / 10) * 10 + d == n);
    } else {
        let s = nat_digits(n);
        assert(s.drop_last() =~= Seq::<char>::empty());
        assert(s.last() == digit_char(d));
        assert(digits_value(s.drop_last()) == 0);
        assert(digits_value(s) == digits_value(s.drop_last()) * 10 + d);
    }
}

/// The decimal text of a number within range parses back to it, also with white space around
/// it.
pub proof fn law_id_text_round_trip(n: nat, max: nat, w1: Seq<char>, w2: Seq<char>)
    requires
        n <= max,
        all_white_space(w1),
        all_white_space(w2),
    ensures
        unsigned_text_value(str_trim(nat_digits(n)), max) == Some(n),
        unsigned_text_value(str_trim(w1 + nat_digits(n) + w2), max) == Some(n),
{
    lemma_digits_read_back(n);
    let s = nat_digits(n);
    lemma_trim_unchanged(s);
    lemma_trim_padded(w1, s, w2);
}


// ---------------------------------------------------------------------------
// Held funds over runs
// ---------------------------------------------------------------------------

/// Held funds and deposit records are representable, and no deposit record is negative.
pub open spec fn held_amounts_wf(v: LedgerView) -> bool {
    &&& forall|c: u16| #[trigger] v.accounts.contains_key(c) ==> parts_wf(v.accounts[c].held@)
    &&& forall|k: u32|
        #[trigger] v.transactions.contains_key(k) ==> parts_wf(v.transactions[k].amount@)
            && units(v.transactions[k].amount@) >= 0
}

/// Every transaction that the run accepts updates the held funds exactly.
pub open spec fn held_exact_run(v: LedgerView, xs: Seq<Transaction>) -> bool
    decreases xs.len(),
{
    xs.len() == 0 || (held_exact_run(v, xs.drop_last()) && (process_spec(
        run(v, xs.drop_last()),
        xs.last(),
    ).1 is Ok ==> held_exact(run(v, xs.drop_last()), xs.last())))
}

/// An accepted transaction whose held update is exact moves the held funds by the deposit's
/// amount and keeps held funds and records representable and records nonnegative.
proof fn lemma_held_step(v: LedgerView, tx: Transaction)
    requires
        held_amounts_wf(v),
        tx_wf(tx),
        process_spec(v, tx).1 is Ok,
        held_exact(v, tx),
    ensures
        held_effect(v, tx, process_spec(v, tx).0),
        held_amounts_wf(process_spec(v, tx).0),
{
    let a = v.account_or_empty(tx.client_id);
    let r = v.transactions[tx.tx_id.0];
    assert(parts_wf(a.held@));
    match tx.kind {
        TxKind::Deposit => {
            lemma_round_wf((tx.amount->0)@, AMOUNT_DECIMALS);
        },
        TxKind::Dispute => {
            lemma_add_exact(a.held@, r.amount@);
        },
        TxKind::Resolve => {
            lemma_sub_exact(a.held@, r.amount@);
        },
        TxKind::Chargeback => {
            lemma_sub_exact(a.held@, r.amount@);
        },
        _ => {},
    }
}

proof fn lemma_held_run(xs: Seq<Transaction>)
    requires
        forall|i: int| 0 <= i < xs.len() ==> tx_wf(#[trigger] xs[i]),
        held_exact_run(LedgerView::empty(), xs),
    ensures
        held_amounts_wf(run(LedgerView::empty(), xs)),
        held_matches_disputes(run(LedgerView::empty(), xs)),
    decreases xs.len(),
{
    let e = LedgerView::empty();
    if xs.len() > 0 {
        let ys = xs.drop_last();
        assert forall|i: int| 0 <= i < ys.len() implies tx_wf(#[trigger] ys[i]) by {
            assert(ys[i] == xs[i]);
        }
        lemma_held_run(ys);
        let w = run(e, ys);
        assert(tx_wf(xs[xs.len() - 1]));
        if process_spec(w, xs.last()).1 is Ok {
            lemma_held_step(w, xs.last());
        }
        lemma_process_keeps_holdings(w, xs.last());
    }
}

/// Along any run from an empty ledger in which every accepted dispute, resolve and chargeback
/// updates the held funds exactly: each account's held funds equal the total of its open
/// disputes and are never negative, and every deposit record belongs to an existing account.
pub proof fn law_held_funds_over_runs(xs: Seq<Transaction>)
    requires
        forall|i: int| 0 <= i < xs.len() ==> tx_wf(#[trigger] xs[i]),
        held_exact_run(LedgerView::empty(), xs),
    ensures
        held_matches_disputes(run(LedgerView::empty(), xs)),
        forall|c: u16|
            #[trigger] run(LedgerView::empty(), xs).accounts.contains_key(c) ==> units(
                run(LedgerView::empty(), xs).accounts[c].held@,
            ) >= 0,
{
    lemma_held_run(xs);
    let v = run(LedgerView::empty(), xs);
    assert forall|c: u16| #[trigger] v.accounts.contains_key(c) implies units(
        v.accounts[c].held@,
    ) >= 0 by {
        lemma_sum_nonneg(v.transactions.dom(), state_value(v.transactions, c, TxState::Disputed));
    }
}

// ---------------------------------------------------------------------------
// Funds over runs of moderate amounts
// ---------------------------------------------------------------------------

/// Every amount of the state is below 10^24 in magnitude.
pub open spec fn magnitudes_below(v: LedgerView) -> bool {
    &&& forall|c: u16|
        #[trigger] v.accounts.contains_key(c) ==> abs(units(v.accounts[c].available@)) < pow10(52)
            && abs(units(v.accounts[c].held@)) < pow10(52)
    &&& forall|k: u32|
        #[trigger] v.transactions.contains_key(k) ==> abs(units(v.transactions[k].amount@))
            < pow10(52)
}

/// Every amount of the state has at most four fractional digits.
pub open spec fn scales_small(v: LedgerView) -> bool {
    &&& forall|c: u16|
        #[trigger] v.accounts.contains_key(c) ==> v.accounts[c].available@.1 <= 4
            && v.accounts[c].held@.1 <= 4
    &&& forall|k: u32|
        #[trigger] v.transactions.contains_key(k) ==> v.transactions[k].amount@.1 <= 4
}

/// Exact steps keep every amount at four fractional digits or fewer.
proof fn lemma_scale_step(v: LedgerView, tx: Transaction)
    requires
        scales_small(v),
        process_spec(v, tx).1 is Ok,
        exact_effect(v, tx),
    ensures
        scales_small(process_spec(v, tx).0),
{
}

proof fn lemma_bounded_run(xs: Seq<Transaction>)
    requires
        forall|i: int|
            0 <= i < xs.len() ==> tx_wf(#[trigger] xs[i]) && (xs[i].amount matches Some(x) ==> abs(
                units(x@),
            ) < pow10(52)),
        forall|i: int|
            0 <= i <= xs.len() ==> magnitudes_below(#[trigger] run(LedgerView::empty(), xs.take(i))),
    ensures
        exact_run(LedgerView::empty(), xs),
        scales_small(run(LedgerView::empty(), xs)),
    decreases xs.len(),
{
    let e = LedgerView::empty();
    if xs.len() > 0 {
        let ys = xs.drop_last();
        assert forall|i: int| 0 <= i < ys.len() implies tx_wf(#[trigger] ys[i]) && (
        ys[i].amount matches Some(x) ==> abs(units(x@)) < pow10(52)) by {
            assert(ys[i] == xs[i]);
        }
        assert forall|i: int| 0 <= i <= ys.len() implies magnitudes_below(
            #[trigger] run(e, ys.take(i)),
        ) by {
            assert(ys.take(i) =~= xs.take(i));
            assert(magnitudes_below(run(e, xs.take(i))));
        }
        lemma_bounded_run(ys);
        lemma_sound_run(ys);
        let w = run(e, ys);
        let tx = xs.last();
        assert(xs.take(xs.len() - 1) =~= ys);
        assert(magnitudes_below(run(e, xs.take(xs.len() - 1))));
        assert(tx_wf(xs[xs.len() - 1]));
        lemma_zero_small();
        law_small_amounts_are_exact(w, tx);
        if process_spec(w, tx).1 is Ok {
            lemma_scale_step(w, tx);
        }
    }
}

proof fn lemma_zero_small()
    ensures
        small_amount(Amount::zero_spec()@),
{
    lemma_pow10_positive(52);
}

/// Along any run from an empty ledger in which every transaction's amount, and every amount of
/// every state reached, is below 10^24 in magnitude: every client's available plus held funds
/// equal its deposits minus its withdrawals (normalized amounts, as logged) minus its
/// charged-back deposits; each account's held funds equal the total of its open disputes and
/// are never negative; and every deposit record belongs to an existing account.
pub proof fn law_funds_balance_below_bound(xs: Seq<Transaction>)
    requires
        forall|i: int|
            0 <= i < xs.len() ==> tx_wf(#[trigger] xs[i]) && (xs[i].amount matches Some(x) ==> abs(
                units(x@),
            ) < pow10(52)),
        forall|i: int|
            0 <= i <= xs.len() ==> magnitudes_below(#[trigger] run(LedgerView::empty(), xs.take(i))),
    ensures
        books_balance(run(LedgerView::empty(), xs)),
        held_matches_disputes(run(LedgerView::empty(), xs)),
        forall|c: u16|
            #[trigger] run(LedgerView::empty(), xs).accounts.contains_key(c) ==> units(
                run(LedgerView::empty(), xs).accounts[c].held@,
            ) >= 0,
{
    lemma_bounded_run(xs);
    assert forall|i: int| 0 <= i < xs.len() implies tx_wf(#[trigger] xs[i]) by {}
    law_funds_balance(xs);
}


// ---------------------------------------------------------------------------
// What each kind of transaction is owed
// ---------------------------------------------------------------------------

/// A deposit of a positive amount under an unused transaction id, for a client whose account
/// is absent or not locked, is accepted whenever its arithmetic is defined (whatever the
/// account holds, zero included): the account exists afterwards, is not locked, and a new
/// active record holds the normalized amount.
pub proof fn law_open_deposit_accepted(v: LedgerView, tx: Transaction)
    requires
        tx.kind == TxKind::Deposit,
        tx.amount is Some,
        units((tx.amount->0)@) > 0,
        !v.transactions.contains_key(tx.tx_id.0),
        !(v.accounts.contains_key(tx.client_id.0) && v.accounts[tx.client_id.0].locked),
        deposit_total_defined(
            v.account_or_empty(tx.client_id).available,
            v.account_or_empty(tx.client_id).held,
            tx.amount->0,
        ),
        add_defined(v.account_or_empty(tx.client_id).available, normalize_spec(tx.amount->0)),
    ensures
        validate_spec(v, tx) is Ok,
        process_spec(v, tx).1 is Ok,
        process_spec(v, tx).0.accounts.contains_key(tx.client_id.0),
        !process_spec(v, tx).0.accounts[tx.client_id.0].locked,
        process_spec(v, tx).0.accounts[tx.client_id.0].held == v.account_or_empty(
            tx.client_id,
        ).held,
        process_spec(v, tx).0.transactions[tx.tx_id.0] == (TxRecord {
            client_id: tx.client_id,
            amount: normalize_spec(tx.amount->0),
            state: TxState::Active,
        }),
        parts_wf(v.account_or_empty(tx.client_id).available@) && parts_wf((tx.amount->0)@)
            && exact_add(
            v.account_or_empty(tx.client_id).available@,
            normalize_spec(tx.amount->0)@,
        ) ==> units(process_spec(v, tx).0.accounts[tx.client_id.0].available@) == units(
            v.account_or_empty(tx.client_id).available@,
        ) + units(normalize_spec(tx.amount->0)@),
{
    let a = v.account_or_empty(tx.client_id);
    let x = tx.amount->0;
    if parts_wf(a.available@) && parts_wf(x@) && exact_add(a.available@, normalize_spec(x)@) {
        lemma_round_wf(x@, AMOUNT_DECIMALS);
        lemma_add_exact(a.available@, normalize_spec(x)@);
    }
}

/// A withdrawal of a positive amount from an existing, unlocked account whose available funds
/// cover it (all of them included) is accepted whenever its arithmetic is defined; it leaves
/// the held funds and the lock as they are and records no deposit.
pub proof fn law_covered_withdrawal_accepted(v: LedgerView, tx: Transaction)
    requires
        tx.kind == TxKind::Withdrawal,
        tx.amount is Some,
        units((tx.amount->0)@) > 0,
        v.accounts.contains_key(tx.client_id.0),
        !v.accounts[tx.client_id.0].locked,
        units(v.accounts[tx.client_id.0].available@) >= units((tx.amount->0)@),
        sub_defined(v.accounts[tx.client_id.0].available, tx.amount->0),
        sub_defined(v.accounts[tx.client_id.0].available, normalize_spec(tx.amount->0)),
    ensures
        validate_spec(v, tx) is Ok,
        process_spec(v, tx).1 is Ok,
        process_spec(v, tx).0.accounts[tx.client_id.0].held == v.accounts[tx.client_id.0].held,
        !process_spec(v, tx).0.accounts[tx.client_id.0].locked,
        process_spec(v, tx).0.transactions == v.transactions,
        parts_wf(v.accounts[tx.client_id.0].available@) && parts_wf((tx.amount->0)@) && exact_sub(
            v.accounts[tx.client_id.0].available@,
            normalize_spec(tx.amount->0)@,
        ) ==> units(process_spec(v, tx).0.accounts[tx.client_id.0].available@) == units(
            v.accounts[tx.client_id.0].available@,
        ) - units(normalize_spec(tx.amount->0)@),
{
    let a = v.accounts[tx.client_id.0];
    let x = tx.amount->0;
    if parts_wf(a.available@) && parts_wf(x@) && exact_sub(a.available@, normalize_spec(x)@) {
        lemma_round_wf(x@, AMOUNT_DECIMALS);
        lemma_sub_exact(a.available@, normalize_spec(x)@);
    }
}

/// A withdrawal that the available funds do not cover is rejected with `InsufficientFunds`
/// (given a positive amount and an existing, unlocked account).
pub proof fn law_uncovered_withdrawal_rejected(v: LedgerView, tx: Transaction)
    requires
        tx.kind == TxKind::Withdrawal,
        tx.amount is Some,
        units((tx.amount->0)@) > 0,
        v.accounts.contains_key(tx.client_id.0),
        !v.accounts[tx.client_id.0].locked,
        units(v.accounts[tx.client_id.0].available@) < units((tx.amount->0)@),
    ensures
        process_spec(v, tx).1 == Err::<(), LedgerError>(
            LedgerError::InsufficientFunds(tx.client_id),
        ),
        process_spec(v, tx).0 == v,
{
}

/// An accepted chargeback locks its client's account, leaves its available funds as they
/// are, and ends the deposit in `ChargedBack`.
pub proof fn law_chargeback_locks(v: LedgerView, tx: Transaction)
    requires
        tx.kind == TxKind::Chargeback,
        process_spec(v, tx).1 is Ok,
    ensures
        process_spec(v, tx).0.accounts.contains_key(tx.client_id.0),
        process_spec(v, tx).0.accounts[tx.client_id.0].locked,
        process_spec(v, tx).0.accounts[tx.client_id.0].available == v.accounts[tx.client_id.0].available,
        process_spec(v, tx).0.transactions[tx.tx_id.0].state == TxState::ChargedBack,
{
}

/// Parsing a kind ignores case and surrounding white space: any text whose trimmed form is
/// ASCII and lowercases to a kind's name parses to that kind.
pub proof fn law_kind_parse_ignores_case(s: Seq<char>, k: TxKind)
    requires
        all_ascii(str_trim(s)),
        ascii_lower(str_trim(s)) == k.text(),
    ensures
        TxKind::parse_spec(s) == Ok::<TxKind, Seq<char>>(k),
{
    reveal_strlit("deposit");
    reveal_strlit("withdrawal");
    reveal_strlit("dispute");
    reveal_strlit("resolve");
    reveal_strlit("chargeback");
    let t = str_trim(s);
    assert(lowercase(t) == k.text());
    let l = k.text();
    match k {
        TxKind::Deposit => {},
        TxKind::Withdrawal => {
            assert(l.len() != "deposit"@.len());
        },
        TxKind::Dispute => {
            assert(l[2] != "deposit"@[2]);
            assert(l.len() != "withdrawal"@.len());
        },
        TxKind::Resolve => {
            assert(l[0] != "deposit"@[0]);
            assert(l.len() != "withdrawal"@.len());
            assert(l[0] != "dispute"@[0]);
        },
        TxKind::Chargeback => {
            assert(l.len() != "deposit"@.len());
            assert(l[0] != "withdrawal"@[0]);
            assert(l.len() != "dispute"@.len());
            assert(l.len() != "resolve"@.len());
        },
    }
}


// ---------------------------------------------------------------------------
// The accounts report
// ---------------------------------------------------------------------------

/// Number of line breaks in a text.
pub open spec fn line_breaks(s: Seq<char>) -> nat
    decreases s.len(),
{
    if s.len() == 0 {
        0
    } else {
        line_breaks(s.drop_last()) + if s.last() == '\n' {
            1nat
        } else {
            0nat
        }
    }
}

/// Number of rows whose account total is defined.
pub open spec fn defined_rows(rows: Seq<(ClientId, Account)>) -> nat
    decreases rows.len(),
{
    if rows.len() == 0 {
        0
    } else {
        defined_rows(rows.drop_last()) + if rows.last().1.total_spec() is Some {
            1nat
        } else {
            0nat
        }
    }
}

/// `t` occurs in `s` as a contiguous piece.
pub open spec fn occurs(s: Seq<char>, t: Seq<char>) -> bool {
    exists|j: int| 0 <= j && j + t.len() <= s.len() && #[trigger] s.subrange(j, j + t.len()) == t
}

proof fn lemma_line_breaks_concat(a: Seq<char>, b: Seq<char>)
    ensures
        line_breaks(a + b) == line_breaks(a) + line_breaks(b),
    decreases b.len(),
{
    if b.len() > 0 {
        assert((a + b).drop_last() =~= a + b.drop_last());
        assert((a + b).last() == b.last());
        lemma_line_breaks_concat(a, b.drop_last());
    } else {
        assert(a + b =~= a);
    }
}

proof fn lemma_no_line_breaks(s: Seq<char>)
    requires
        forall|i: int| 0 <= i < s.len() ==> s[i] != '\n',
    ensures
        line_breaks(s) == 0,
    decreases s.len(),
{
    if s.len() > 0 {
        let d = s.drop_last();
        assert forall|i: int| 0 <= i < d.len() implies d[i] != '\n' by {
            assert(d[i] == s[i]);
        }
        lemma_no_line_breaks(d);
    }
}

proof fn lemma_padded_digits_are_digits(n: nat, w: nat)
    ensures
        padded_digits(n, w).len() == w,
        forall|i: int| 0 <= i < w ==> is_ascii_digit(#[trigger] padded_digits(n, w)[i]),
    decreases w,
{
    if w > 0 {
        lemma_padded_digits_are_digits(n / 10, (w - 1) as nat);
        let d = (n % 10) % 10;
        assert(digit_char(n % 10) as int == d + 48);
        let s = padded_digits(n, w);
        assert forall|i: int| 0 <= i < w implies is_ascii_digit(#[trigger] s[i]) by {
            if i < w - 1 {
                assert(s[i] == padded_digits(n / 10, (w - 1) as nat)[i]);
            }
        }
    }
}

proof fn lemma_fixed_text_one_line(p: (i128, u32), prec: nat)
    ensures
        line_breaks(fixed_text(p, prec)) == 0,
{
    let t = (abs(p.0 as int) * pow10(prec)) / pow10(p.1 as nat);
    lemma_pow10_positive(prec);
    let sign = if p.0 < 0 {
        seq!['-']
    } else {
        Seq::<char>::empty()
    };
    let a = nat_digits(t / pow10(prec));
    let b = padded_digits(t % pow10(prec), prec);
    lemma_digits_read_back(t / pow10(prec));
    lemma_padded_digits_are_digits(t % pow10(prec), prec);
    lemma_no_line_breaks(sign);
    lemma_no_line_breaks(a);
    lemma_no_line_breaks(seq!['.']);
    lemma_no_line_breaks(b);
    lemma_line_breaks_concat(sign, a);
    lemma_line_breaks_concat(sign + a, seq!['.']);
    lemma_line_breaks_concat(sign + a + seq!['.'], b);
}

proof fn lemma_account_line_one_line(c: ClientId, a: Account, t: (i128, u32))
    ensures
        line_breaks(account_line(c, a, t)) == 1,
{
    reveal_strlit(",");
    reveal_strlit("\n");
    reveal_strlit("true");
    reveal_strlit("false");
    let d = nat_digits(c.0 as nat);
    lemma_digits_read_back(c.0 as nat);
    lemma_no_line_breaks(d);
    lemma_no_line_breaks(","@);
    lemma_no_line_breaks(bool_text(a.locked));
    let f1 = fixed_text(a.available@, 4);
    let f2 = fixed_text(a.held@, 4);
    let f3 = fixed_text(t, 4);
    lemma_fixed_text_one_line(a.available@, 4);
    lemma_fixed_text_one_line(a.held@, 4);
    lemma_fixed_text_one_line(t, 4);
    let s1 = d + ","@;
    let s2 = s1 + f1;
    let s3 = s2 + ","@;
    let s4 = s3 + f2;
    let s5 = s4 + ","@;
    let s6 = s5 + f3;
    let s7 = s6 + ","@;
    let s8 = s7 + bool_text(a.locked);
    lemma_line_breaks_concat(d, ","@);
    lemma_line_breaks_concat(s1, f1);
    lemma_line_breaks_concat(s2, ","@);
    lemma_line_breaks_concat(s3, f2);
    lemma_line_breaks_concat(s4, ","@);
    lemma_line_breaks_concat(s5, f3);
    lemma_line_breaks_concat(s6, ","@);
    lemma_line_breaks_concat(s7, bool_text(a.locked));
    lemma_line_breaks_concat(s8, "\n"@);
    assert(line_breaks("\n"@) == 1) by {
        let n = "\n"@;
        assert(n.len() == 1);
        assert(n.last() == '\n');
        assert(n.drop_last() =~= Seq::<char>::empty());
        assert(line_breaks(n.drop_last()) == 0);
    }
}

proof fn lemma_occurs_in_longer(s: Seq<char>, u: Seq<char>, t: Seq<char>)
    requires
        occurs(s, t),
    ensures
        occurs(s + u, t),
{
    let j = choose|j: int|
        0 <= j && j + t.len() <= s.len() && #[trigger] s.subrange(j, j + t.len()) == t;
    assert((s + u).subrange(j, j + t.len()) =~= s.subrange(j, j + t.len()));
}

#[verifier::rlimit(40)]
proof fn lemma_header_one_line()
    ensures
        line_breaks(header_text()) == 1,
{
    reveal_strlit("client,available,held,total,locked\n");
    let h = header_text();
    let hd = h.drop_last();
    assert(h.last() == '\n');
    assert forall|i: int| 0 <= i < hd.len() implies hd[i] != '\n' by {
        assert(hd[i] == h[i]);
    }
    lemma_no_line_breaks(hd);
}

/// The lines of the report: one per row whose total is defined, whatever the account holds
/// (zero included), and the line of each such row occurs in them.
pub proof fn law_report_has_every_defined_account(rows: Seq<(ClientId, Account)>)
    ensures
        line_breaks(account_lines(rows)) == defined_rows(rows),
        line_breaks(header_text() + account_lines(rows)) == 1 + defined_rows(rows),
        forall|i: int|
            0 <= i < rows.len() && (#[trigger] rows[i]).1.total_spec() is Some ==> occurs(
                account_lines(rows),
                account_line(rows[i].0, rows[i].1, rows[i].1.total_spec()->0),
            ),
    decreases rows.len(),
{
    let h = header_text();
    lemma_header_one_line();
    lemma_line_breaks_concat(h, account_lines(rows));
    if rows.len() > 0 {
        let ys = rows.drop_last();
        law_report_has_every_defined_account(ys);
        let p = account_lines(ys);
        let (c, a) = rows.last();
        if a.total_spec() is Some {
            let line = account_line(c, a, a.total_spec()->0);
            lemma_account_line_one_line(c, a, a.total_spec()->0);
            lemma_line_breaks_concat(p, line);
            assert((p + line).subrange(p.len() as int, (p.len() + line.len()) as int) =~= line);
        }
        assert forall|i: int|
            0 <= i < rows.len() && (#[trigger] rows[i]).1.total_spec() is Some implies occurs(
            account_lines(rows),
            account_line(rows[i].0, rows[i].1, rows[i].1.total_spec()->0),
        ) by {
            if i < rows.len() - 1 {
                assert(rows[i] == ys[i]);
                let t = account_line(rows[i].0, rows[i].1, rows[i].1.total_spec()->0);
                assert(occurs(p, t));
                if a.total_spec() is Some {
                    lemma_occurs_in_longer(p, account_line(c, a, a.total_spec()->0), t);
                }
            } else {
                let line = account_line(c, a, a.total_spec()->0);
                assert((p + line).subrange(p.len() as int, (p.len() + line.len()) as int) =~= line);
            }
        }
    }
}


/// A dispute, resolve or chargeback of the client's own deposit in the state it acts on
/// (active for a dispute, disputed for a resolve or a chargeback), on an existing unlocked
/// account, is accepted whenever its arithmetic is defined, and moves the deposit to the next
/// state of its lifecycle.
pub proof fn law_lifecycle_step_accepted(v: LedgerView, tx: Transaction)
    requires
        tx.kind == TxKind::Dispute || tx.kind == TxKind::Resolve || tx.kind == TxKind::Chargeback,
        v.accounts.contains_key(tx.client_id.0),
        !v.accounts[tx.client_id.0].locked,
        v.transactions.contains_key(tx.tx_id.0),
        v.transactions[tx.tx_id.0].client_id == tx.client_id,
        v.transactions[tx.tx_id.0].state == (if tx.kind == TxKind::Dispute {
            TxState::Active
        } else {
            TxState::Disputed
        }),
        tx.kind == TxKind::Dispute ==> sub_defined(
            v.accounts[tx.client_id.0].available,
            v.transactions[tx.tx_id.0].amount,
        ) && add_defined(v.accounts[tx.client_id.0].held, v.transactions[tx.tx_id.0].amount),
        tx.kind == TxKind::Resolve ==> add_defined(
            v.accounts[tx.client_id.0].available,
            v.transactions[tx.tx_id.0].amount,
        ) && sub_defined(v.accounts[tx.client_id.0].held, v.transactions[tx.tx_id.0].amount),
        tx.kind == TxKind::Chargeback ==> sub_defined(
            v.accounts[tx.client_id.0].held,
            v.transactions[tx.tx_id.0].amount,
        ),
    ensures
        validate_spec(v, tx) is Ok,
        process_spec(v, tx).1 is Ok,
        process_spec(v, tx).0.transactions[tx.tx_id.0].state == (if tx.kind == TxKind::Dispute {
            TxState::Disputed
        } else if tx.kind == TxKind::Resolve {
            TxState::Resolved
        } else {
            TxState::ChargedBack
        }),
        process_spec(v, tx).0.transactions[tx.tx_id.0].amount == v.transactions[tx.tx_id.0].amount,
        process_spec(v, tx).0.accounts[tx.client_id.0].locked == (tx.kind == TxKind::Chargeback),
{
}

/// A deposit or withdrawal without an amount is rejected with `MissingAmount`, and one whose
/// amount is zero or negative with `InvalidAmount`; neither changes anything.
pub proof fn law_amount_must_be_positive(v: LedgerView, tx: Transaction)
    requires
        tx.kind == TxKind::Deposit || tx.kind == TxKind::Withdrawal,
    ensures
        tx.amount is None ==> process_spec(v, tx).1 == Err::<(), LedgerError>(
            LedgerError::MissingAmount(tx.tx_id),
        ),
        (tx.amount matches Some(x) && units(x@) <= 0) ==> process_spec(v, tx).1 == Err::<
            (),
            LedgerError,
        >(LedgerError::InvalidAmount),
        !(tx.amount matches Some(x) && units(x@) > 0) ==> process_spec(v, tx).0 == v,
{
}

/// Parsing gives a kind only for a text whose trimmed, lower-cased form is that kind's name;
/// any other text is refused and the refusal carries that trimmed, lower-cased form.
pub proof fn law_kind_parse_only_names(s: Seq<char>)
    ensures
        TxKind::parse_spec(s) matches Ok(k) ==> lowercase(str_trim(s)) == k.text(),
        TxKind::parse_spec(s) matches Err(t) ==> t == lowercase(str_trim(s)) && forall|k: TxKind|
            #[trigger] k.text() != t,
{
}

} // verus!
