//! Monetary amounts.
//!
//! An [`Amount`] holds the two plain values that make up a `rust_decimal::Decimal`:
//! a signed mantissa of at most 96 bits and a scale (number of fractional digits)
//! of at most 28. Its value is `mantissa / 10^scale`. All arithmetic, comparison,
//! rounding and formatting is performed by `rust_decimal` itself, through the
//! trusted wrappers of this module.
use vstd::prelude::*;
use rust_decimal::Decimal;
use std::str::FromStr;
use crate::text::{decimal_text, padded_text, push_char};

verus! {

/// Largest magnitude of a mantissa: 2^96 - 1.
pub const MAX_MANTISSA: i128 = 79228162514264337593543950335;

/// Largest number of fractional digits.
pub const MAX_SCALE: u32 = 28;

pub open spec fn pow10(n: nat) -> nat
    decreases n,
{
    if n == 0 {
        1
    } else {
        10 * pow10((n - 1) as nat)
    }
}

pub proof fn lemma_pow10_positive(n: nat)
    ensures
        pow10(n) > 0,
    decreases n,
{
    if n > 0 {
        lemma_pow10_positive((n - 1) as nat);
    }
}

/// The sign of a value is the sign of its mantissa.
pub broadcast proof fn lemma_units_sign(p: (i128, u32))
    ensures
        (#[trigger] units(p) > 0) == (p.0 > 0),
        (units(p) == 0) == (p.0 == 0),
        (units(p) < 0) == (p.0 < 0),
{
    let k = pow10((MAX_SCALE - p.1) as nat);
    lemma_pow10_positive((MAX_SCALE - p.1) as nat);
    let m = p.0 as int;
    assert(m > 0 ==> m * k > 0) by (nonlinear_arith)
        requires
            k > 0,
    ;
    assert(m < 0 ==> m * k < 0) by (nonlinear_arith)
        requires
            k > 0,
    ;
    assert(m == 0 ==> m * k == 0);
}

/// The parts (mantissa, scale) describe a representable decimal.
pub open spec fn parts_wf(p: (i128, u32)) -> bool {
    &&& -MAX_MANTISSA <= p.0 <= MAX_MANTISSA
    &&& p.1 <= MAX_SCALE
}

/// The value of the parts, counted in units of 10^-28.
pub open spec fn units(p: (i128, u32)) -> int {
    p.0 * pow10((MAX_SCALE - p.1) as nat)
}

pub open spec fn abs(x: int) -> nat {
    if x < 0 {
        (-x) as nat
    } else {
        x as nat
    }
}

pub open spec fn max_scale(a: (i128, u32), b: (i128, u32)) -> u32 {
    if a.1 <= b.1 {
        b.1
    } else {
        a.1
    }
}

/// Mantissa of `a + b` written at the larger of the two scales.
pub open spec fn aligned_sum(a: (i128, u32), b: (i128, u32)) -> int {
    let s = max_scale(a, b);
    a.0 * pow10((s - a.1) as nat) + b.0 * pow10((s - b.1) as nat)
}

/// Mantissa of `a - b` written at the larger of the two scales.
pub open spec fn aligned_diff(a: (i128, u32), b: (i128, u32)) -> int {
    let s = max_scale(a, b);
    a.0 * pow10((s - a.1) as nat) - b.0 * pow10((s - b.1) as nat)
}

/// Rounding of the parts to `dp` fractional digits, ties to the even neighbour.
/// Parts that already have at most `dp` fractional digits are left as they are.
pub open spec fn round_half_even(p: (i128, u32), dp: u32) -> (i128, u32) {
    if p.1 <= dp {
        p
    } else {
        let d = pow10((p.1 - dp) as nat);
        let q = abs(p.0 as int) / d;
        let r = abs(p.0 as int) % d;
        let q2 = if 2 * r > d || (2 * r == d && q % 2 == 1) {
            q + 1
        } else {
            q
        };
        (if p.0 < 0 {
            (-q2) as i128
        } else {
            q2 as i128
        }, dp)
    }
}

pub open spec fn digit_char(d: nat) -> char {
    ((d % 10) + 48) as char
}

/// Rounding keeps parts representable, and keeps a nonnegative mantissa nonnegative.
pub proof fn lemma_round_wf(p: (i128, u32), dp: u32)
    requires
        parts_wf(p),
    ensures
        parts_wf(round_half_even(p, dp)),
        p.0 >= 0 ==> round_half_even(p, dp).0 >= 0,
{
    if p.1 > dp {
        let d = pow10((p.1 - dp) as nat);
        lemma_pow10_at_least_ten((p.1 - dp) as nat);
        let x = abs(p.0 as int);
        let q = x / d;
        assert(q * d <= x) by (nonlinear_arith)
            requires
                d > 0,
                x >= 0,
                q == x / d,
        ;
        assert(q * 10 <= q * d) by (nonlinear_arith)
            requires
                d >= 10,
                q >= 0,
        ;
        assert(q + 1 <= MAX_MANTISSA);
    }
}

/// Decimal digits of `n`, without leading zeros ("0" for zero).
pub open spec fn nat_digits(n: nat) -> Seq<char>
    decreases n,
{
    if n < 10 {
        seq![digit_char(n)]
    } else {
        nat_digits(n / 10).push(digit_char(n % 10))
    }
}

/// The last `width` decimal digits of `n`, padded with leading zeros.
pub open spec fn padded_digits(n: nat, width: nat) -> Seq<char>
    decreases width,
{
    if width == 0 {
        Seq::empty()
    } else {
        padded_digits(n / 10, (width - 1) as nat).push(digit_char(n % 10))
    }
}

/// Fixed-point text of the parts with exactly `prec` fractional digits; digits beyond
/// `prec` are cut off, not rounded. A negative mantissa gives a leading minus sign.
pub open spec fn fixed_text(p: (i128, u32), prec: nat) -> Seq<char> {
    let t = (abs(p.0 as int) * pow10(prec)) / pow10(p.1 as nat);
    let sign = if p.0 < 0 {
        seq!['-']
    } else {
        Seq::<char>::empty()
    };
    sign + nat_digits(t / pow10(prec)) + seq!['.'] + padded_digits(t % pow10(prec), prec)
}

/// `Display` with precision `prec` lays the text out in a buffer of 32 characters: the
/// integer digits (at least one), the point and `prec` fractional digits must fit in it.
pub open spec fn fixed_text_fits(p: (i128, u32), prec: nat) -> bool {
    nat_digits(abs(p.0 as int) / pow10(p.1 as nat)).len() + 1 + prec <= 32
}

pub proof fn lemma_pow10_at_least_ten(k: nat)
    requires
        k >= 1,
    ensures
        pow10(k) >= 10,
    decreases k,
{
    assert(pow10(0) == 1);
    if k > 1 {
        lemma_pow10_at_least_ten((k - 1) as nat);
    }
}

pub proof fn lemma_pow10_38()
    ensures
        pow10(38) == 100000000000000000000000000000000000000,
{
    reveal_with_fuel(pow10, 40);
}

/// `n` has at most `k` digits exactly when it is below 10^k.
pub proof fn lemma_digits_len_bound(n: nat, k: nat)
    requires
        k >= 1,
    ensures
        (nat_digits(n).len() <= k) == (n < pow10(k)),
    decreases n,
{
    lemma_pow10_at_least_ten(k);
    if n >= 10 {
        if k == 1 {
            assert(pow10(1) == 10) by {
                assert(pow10(0) == 1);
            }
            lemma_digits_len_bound(n / 10, 1);
        } else {
            lemma_digits_len_bound(n / 10, (k - 1) as nat);
            let p = pow10((k - 1) as nat);
            assert((n / 10 < p) == (n < 10 * p)) by (nonlinear_arith)
                requires
                    n >= 0,
                    p > 0,
            ;
        }
    }
}

/// 10^n, computed.
pub fn pow10_u128(n: u32) -> (r: u128)
    requires
        n <= 38,
    ensures
        r == pow10(n as nat),
        r >= 1,
{
    proof {
        lemma_pow10_positive(n as nat);
        lemma_pow10_38();
    }
    let mut r: u128 = 1;
    let mut i: u32 = 0;
    while i < n
        invariant
            i <= n <= 38,
            r == pow10(i as nat),
            pow10(38) == 100000000000000000000000000000000000000,
        decreases n - i,
    {
        assert(pow10((i + 1) as nat) == 10 * pow10(i as nat));
        proof {
            lemma_pow10_monotone(i as nat + 1, 38);
        }
        r = r * 10;
        i = i + 1;
    }
    r
}

pub proof fn lemma_pow10_monotone(a: nat, b: nat)
    requires
        a <= b,
    ensures
        pow10(a) <= pow10(b),
    decreases b,
{
    if a < b {
        lemma_pow10_monotone(a, (b - 1) as nat);
    }
}

/// Whether `format_fixed(a, prec)` can lay out the amount.
pub fn fixed_text_fits_exec(a: Amount, prec: usize) -> (r: bool)
    requires
        1 <= prec <= 28,
    ensures
        r == fixed_text_fits(a@, prec as nat),
{
    a.establish_wf();
    let m = a.mantissa();
    let magnitude: u128 = if m < 0 {
        (-m) as u128
    } else {
        m as u128
    };
    let q = magnitude / pow10_u128(a.scale());
    let k: u32 = (31 - prec) as u32;
    proof {
        lemma_digits_len_bound(q as nat, k as nat);
    }
    q < pow10_u128(k)
}

/// The fixed-point text of an amount with `prec` fractional digits, laid out as `Decimal`'s
/// `Display` lays it out (`fixed_text`). `Display` writes into a buffer of 32 characters and
/// panics when the text is longer; such a text is built here from the amount's parts instead.
pub fn fixed_string(a: Amount, prec: usize) -> (r: String)
    requires
        1 <= prec <= 9,
    ensures
        r@ == fixed_text(a@, prec as nat),
{
    if fixed_text_fits_exec(a, prec) {
        format_fixed(a, prec)
    } else {
        layout_fixed(a, prec)
    }
}

/// The fixed-point text of the amount's parts: sign, integer digits, point, and the first
/// `prec` fractional digits (cut, not rounded).
fn layout_fixed(a: Amount, prec: usize) -> (r: String)
    requires
        1 <= prec <= 9,
    ensures
        r@ == fixed_text(a@, prec as nat),
{
    a.establish_wf();
    let m = a.mantissa();
    let mag: u128 = if m < 0 {
        (-m) as u128
    } else {
        m as u128
    };
    let pp = pow10_u128(prec as u32);
    let ps = pow10_u128(a.scale());
    proof {
        lemma_pow10_monotone(prec as nat, 9);
        reveal_with_fuel(pow10, 10);
        assert(mag * pp <= MAX_MANTISSA * 1000000000) by (nonlinear_arith)
            requires
                mag <= MAX_MANTISSA,
                pp <= 1000000000,
        ;
    }
    let t = (mag * pp) / ps;
    let mut s = String::new();
    if m < 0 {
        push_char(&mut s, '-');
    }
    s.append(decimal_text(t / pp).as_str());
    push_char(&mut s, '.');
    s.append(padded_text(t % pp, prec).as_str());
    s
}

/// A decimal amount: `mantissa / 10^scale`.
#[derive(Clone, Copy, Debug)]
pub struct Amount {
    mantissa: i128,
    scale: u32,
}

impl View for Amount {
    type V = (i128, u32);

    closed spec fn view(&self) -> (i128, u32) {
        (self.mantissa, self.scale)
    }
}

/// An aligned mantissa fits in 96 bits.
pub open spec fn fits(m: int) -> bool {
    -MAX_MANTISSA <= m <= MAX_MANTISSA
}

/// Parts of `a + b` as `Decimal::checked_add` returns them: an operand of zero gives the
/// other operand unchanged; a sum whose mantissa fits in 96 bits at the larger of the two
/// scales is exact at that scale; otherwise the result is the rounded one that rust_decimal
/// computes, named by `decimal_checked_add`.
pub open spec fn add_parts(a: (i128, u32), b: (i128, u32)) -> Option<(i128, u32)> {
    if a.0 == 0 {
        Some(b)
    } else if b.0 == 0 {
        Some(a)
    } else if fits(aligned_sum(a, b)) {
        Some((aligned_sum(a, b) as i128, max_scale(a, b)))
    } else {
        decimal_checked_add(a, b)
    }
}

/// Parts of `a - b` as `Decimal::checked_sub` returns them: `0 - b` is `b` with its sign
/// flipped, `a - 0` is `a`; a difference whose mantissa fits in 96 bits at the larger scale
/// is exact; otherwise the result is named by `decimal_checked_sub`.
pub open spec fn sub_parts(a: (i128, u32), b: (i128, u32)) -> Option<(i128, u32)> {
    if a.0 == 0 {
        Some(((-b.0) as i128, b.1))
    } else if b.0 == 0 {
        Some(a)
    } else if fits(aligned_diff(a, b)) {
        Some((aligned_diff(a, b) as i128, max_scale(a, b)))
    } else {
        decimal_checked_sub(a, b)
    }
}

/// `a + b` is computed without rounding.
pub open spec fn exact_add(a: (i128, u32), b: (i128, u32)) -> bool {
    a.0 == 0 || b.0 == 0 || fits(aligned_sum(a, b))
}

/// `a - b` is computed without rounding.
pub open spec fn exact_sub(a: (i128, u32), b: (i128, u32)) -> bool {
    a.0 == 0 || b.0 == 0 || fits(aligned_diff(a, b))
}

/// The largest value a decimal can hold, 2^96 - 1, in units of 10^-28.
pub open spec fn max_units() -> int {
    MAX_MANTISSA * pow10(MAX_SCALE as nat)
}

/// A value, in units of 10^-28, whose magnitude is at least 2^96: no decimal can hold it, at
/// any scale.
pub open spec fn beyond_range(x: int) -> bool {
    abs(x) >= max_units() + pow10(MAX_SCALE as nat)
}

/// A representable decimal lies within the range.
pub proof fn lemma_units_bound(p: (i128, u32))
    requires
        parts_wf(p),
    ensures
        abs(units(p)) <= max_units(),
{
    lemma_pow10_monotone((MAX_SCALE - p.1) as nat, MAX_SCALE as nat);
    let k = pow10((MAX_SCALE - p.1) as nat);
    let big = pow10(MAX_SCALE as nat);
    let m = abs(p.0 as int);
    assert(m * k <= MAX_MANTISSA * big) by (nonlinear_arith)
        requires
            0 <= m <= MAX_MANTISSA,
            0 <= k <= big,
    ;
    assert(abs(units(p)) == m * k) by (nonlinear_arith)
        requires
            units(p) == p.0 * k,
            m == abs(p.0 as int),
            k >= 0,
    ;
}

/// A sum or difference beyond the range is not computed exactly, so the result is the named one.
pub proof fn lemma_beyond_range_inexact(a: (i128, u32), b: (i128, u32))
    requires
        parts_wf(a),
        parts_wf(b),
    ensures
        beyond_range(units(a) + units(b)) ==> !exact_add(a, b),
        beyond_range(units(a) - units(b)) ==> !exact_sub(a, b),
{
    lemma_pow10_positive(MAX_SCALE as nat);
    if exact_add(a, b) {
        lemma_add_exact(a, b);
        lemma_units_bound(add_parts(a, b)->0);
    }
    if exact_sub(a, b) {
        lemma_sub_exact(a, b);
        lemma_units_bound(sub_parts(a, b)->0);
    }
}

/// The sum of two amounts as `Decimal::checked_add` computes it (meaningful where it is defined).
pub open spec fn add_spec(a: Amount, b: Amount) -> Amount {
    match add_parts(a@, b@) {
        Some(p) => Amount::from_parts_spec(p),
        None => a,
    }
}

/// The difference of two amounts as `Decimal::checked_sub` computes it (meaningful where it is
/// defined).
pub open spec fn sub_spec(a: Amount, b: Amount) -> Amount {
    match sub_parts(a@, b@) {
        Some(p) => Amount::from_parts_spec(p),
        None => a,
    }
}

pub open spec fn add_defined(a: Amount, b: Amount) -> bool {
    add_parts(a@, b@) is Some
}

pub open spec fn sub_defined(a: Amount, b: Amount) -> bool {
    sub_parts(a@, b@) is Some
}

pub proof fn lemma_pow10_add(x: nat, y: nat)
    ensures
        pow10(x + y) == pow10(x) * pow10(y),
    decreases x,
{
    if x > 0 {
        lemma_pow10_add((x - 1) as nat, y);
        let p = pow10((x - 1) as nat);
        let q = pow10(y);
        assert(pow10(x + y) == 10 * pow10((x - 1 + y) as nat));
        assert(pow10(x) == 10 * p);
        assert(10 * (p * q) == (10 * p) * q) by (nonlinear_arith);
    } else {
        assert(pow10(x) == 1);
    }
}

/// A mantissa written at a larger scale `s` keeps its value.
proof fn lemma_rescale_units(m: int, e: u32, s: u32)
    requires
        e <= s <= MAX_SCALE,
    ensures
        m * pow10((s - e) as nat) * pow10((MAX_SCALE - s) as nat) == m * pow10(
            (MAX_SCALE - e) as nat,
        ),
{
    lemma_pow10_add((s - e) as nat, (MAX_SCALE - s) as nat);
    let x = pow10((s - e) as nat);
    let y = pow10((MAX_SCALE - s) as nat);
    assert(m * x * y == m * (x * y)) by (nonlinear_arith);
}

pub proof fn lemma_pow10_28()
    ensures
        pow10(28) == 10000000000000000000000000000,
{
    reveal_with_fuel(pow10, 30);
}

/// A value below 3 * 10^24 in magnitude, written at a scale of at most 4, has a mantissa
/// below 3 * 10^28.
proof fn lemma_small_aligned(p: (i128, u32), s: u32)
    requires
        p.1 <= s <= 4,
        abs(units(p)) < 3 * pow10(52),
    ensures
        abs(p.0 * pow10((s - p.1) as nat)) < 3 * pow10(28),
{
    let x = p.0 * pow10((s - p.1) as nat);
    let k = pow10((MAX_SCALE - s) as nat);
    lemma_rescale_units(p.0 as int, p.1, s);
    lemma_pow10_monotone(24, (MAX_SCALE - s) as nat);
    lemma_pow10_add(28, 24);
    let big = pow10(28);
    let small = pow10(24);
    lemma_pow10_positive(24);
    assert(abs(x) * k == abs(x * k)) by (nonlinear_arith)
        requires
            k > 0,
    ;
    assert(abs(x) < 3 * big) by (nonlinear_arith)
        requires
            abs(x) * k < 3 * (big * small),
            k >= small,
            small > 0,
    ;
}

/// Amounts with at most four fractional digits whose values are below 3 * 10^24 in magnitude
/// add and subtract without rounding.
pub proof fn lemma_small_exact(a: (i128, u32), b: (i128, u32))
    requires
        a.1 <= 4,
        b.1 <= 4,
        abs(units(a)) < 3 * pow10(52),
        abs(units(b)) < 3 * pow10(52),
    ensures
        exact_add(a, b),
        exact_sub(a, b),
{
    let s = max_scale(a, b);
    lemma_small_aligned(a, s);
    lemma_small_aligned(b, s);
    lemma_pow10_28();
}

/// Where no rounding takes place, a sum is defined and has the value of the exact sum.
pub proof fn lemma_add_exact(a: (i128, u32), b: (i128, u32))
    requires
        parts_wf(a),
        parts_wf(b),
        exact_add(a, b),
    ensures
        add_parts(a, b) matches Some(p) && parts_wf(p) && units(p) == units(a) + units(b),
{
    lemma_units_sign(a);
    lemma_units_sign(b);
    if a.0 != 0 && b.0 != 0 {
        let s = max_scale(a, b);
        let x = a.0 * pow10((s - a.1) as nat);
        let y = b.0 * pow10((s - b.1) as nat);
        lemma_rescale_units(a.0 as int, a.1, s);
        lemma_rescale_units(b.0 as int, b.1, s);
        let k = pow10((MAX_SCALE - s) as nat);
        assert((x + y) * k == x * k + y * k) by (nonlinear_arith);
    }
}

/// Where no rounding takes place, a difference is defined and has the value of the exact
/// difference.
pub proof fn lemma_sub_exact(a: (i128, u32), b: (i128, u32))
    requires
        parts_wf(a),
        parts_wf(b),
        exact_sub(a, b),
    ensures
        sub_parts(a, b) matches Some(p) && parts_wf(p) && units(p) == units(a) - units(b),
{
    lemma_units_sign(a);
    lemma_units_sign(b);
    if a.0 == 0 {
        let k = pow10((MAX_SCALE - b.1) as nat);
        assert((-b.0) * k == -(b.0 * k)) by (nonlinear_arith);
    } else if b.0 != 0 {
        let s = max_scale(a, b);
        let x = a.0 * pow10((s - a.1) as nat);
        let y = b.0 * pow10((s - b.1) as nat);
        lemma_rescale_units(a.0 as int, a.1, s);
        lemma_rescale_units(b.0 as int, b.1, s);
        let k = pow10((MAX_SCALE - s) as nat);
        assert((x - y) * k == x * k - y * k) by (nonlinear_arith);
    }
}

pub open spec fn opt_parts(r: Option<Amount>) -> Option<(i128, u32)> {
    match r {
        Some(x) => Some(x@),
        None => None,
    }
}

/// An amount is determined by its parts.
pub broadcast proof fn lemma_parts_determine(a: Amount)
    ensures
        #[trigger] Amount::from_parts_spec(a@) == a,
{
}

/// The amount with the given parts, in specifications.
pub broadcast proof fn lemma_from_parts_view(p: (i128, u32))
    ensures
        #[trigger] Amount::from_parts_spec(p)@ == p,
{
}

/// Parts of the zero amount.
pub broadcast proof fn lemma_zero_parts()
    ensures
        #[trigger] Amount::zero_spec()@ == (0i128, 0u32),
{
}

pub broadcast group group_amount_parts {
    lemma_zero_parts,
    lemma_units_sign,
    lemma_parts_determine,
    lemma_from_parts_view,
}

impl Amount {
    #[verifier::type_invariant]
    spec fn inv(self) -> bool {
        parts_wf((self.mantissa, self.scale))
    }

    /// Every amount is representable.
    pub fn establish_wf(&self)
        ensures
            parts_wf(self@),
    {
        proof {
            use_type_invariant(self);
        }
    }

    /// `num / 10^scale`, as `Decimal::new` builds it.
    pub fn new(num: i64, scale: u32) -> (r: Amount)
        requires
            scale <= MAX_SCALE,
        ensures
            r@ == (num as i128, scale),
    {
        Amount { mantissa: num as i128, scale }
    }

    /// The amount with the given parts, if they are representable.
    pub fn try_from_parts(mantissa: i128, scale: u32) -> (r: Option<Amount>)
        ensures
            r is Some <==> parts_wf((mantissa, scale)),
            r matches Some(a) ==> a@ == (mantissa, scale),
    {
        if -MAX_MANTISSA <= mantissa && mantissa <= MAX_MANTISSA && scale <= MAX_SCALE {
            Some(Amount { mantissa, scale })
        } else {
            None
        }
    }

    /// The amount whose parts are `p`.
    pub closed spec fn from_parts_spec(p: (i128, u32)) -> Amount {
        Amount { mantissa: p.0, scale: p.1 }
    }

    /// The amount zero, with scale zero.
    pub closed spec fn zero_spec() -> Amount {
        Amount { mantissa: 0, scale: 0 }
    }

    pub fn zero() -> (r: Amount)
        ensures
            r@ == (0i128, 0u32),
            r == Amount::zero_spec(),
    {
        Amount { mantissa: 0, scale: 0 }
    }

    pub fn one() -> (r: Amount)
        ensures
            r@ == (1i128, 0u32),
    {
        Amount { mantissa: 1, scale: 0 }
    }

    /// The largest decimal, 2^96 - 1.
    pub fn max() -> (r: Amount)
        ensures
            r@ == (MAX_MANTISSA, 0u32),
    {
        Amount { mantissa: MAX_MANTISSA, scale: 0 }
    }

    /// The smallest decimal, -(2^96 - 1).
    pub fn min() -> (r: Amount)
        ensures
            r@ == ((-MAX_MANTISSA) as i128, 0u32),
    {
        Amount { mantissa: -MAX_MANTISSA, scale: 0 }
    }

    pub fn mantissa(&self) -> (r: i128)
        ensures
            r == self@.0,
    {
        self.mantissa
    }

    pub fn scale(&self) -> (r: u32)
        ensures
            r == self@.1,
    {
        self.scale
    }
}

/// What `Decimal::checked_add` returns for two decimals, as parts.
pub uninterp spec fn decimal_checked_add(a: (i128, u32), b: (i128, u32)) -> Option<(i128, u32)>;

/// What `Decimal::checked_sub` returns for two decimals, as parts.
pub uninterp spec fn decimal_checked_sub(a: (i128, u32), b: (i128, u32)) -> Option<(i128, u32)>;

/// What `Decimal::from_str` returns for a text, as parts.
pub uninterp spec fn decimal_from_str(s: Seq<char>) -> Option<(i128, u32)>;

/// Calls `Decimal::checked_add` (`ops/add.rs`, `add_sub_internal`). A zero operand gives the
/// other operand unchanged; two nonzero operands whose sum fits in 96 bits at the larger of
/// their scales give that sum at that scale; otherwise the sum is rounded to a smaller scale,
/// a result named by `decimal_checked_add`. `None` comes exactly when even at scale zero the
/// rounded sum exceeds 2^96 - 1: never when the exact sum is within 2^96 - 1, always when it is
/// 2^96 or more.
#[verifier::external_body]
pub(crate) fn checked_add(a: Amount, b: Amount) -> (r: Option<Amount>)
    ensures
        a@.0 == 0 ==> opt_parts(r) == Some(b@),
        a@.0 != 0 && b@.0 == 0 ==> opt_parts(r) == Some(a@),
        a@.0 != 0 && b@.0 != 0 && fits(aligned_sum(a@, b@)) ==> opt_parts(r) == Some(
            (aligned_sum(a@, b@) as i128, max_scale(a@, b@)),
        ),
        !exact_add(a@, b@) ==> opt_parts(r) == decimal_checked_add(a@, b@),
        r is None ==> abs(units(a@) + units(b@)) > max_units(),
        abs(units(a@) + units(b@)) >= max_units() + pow10(MAX_SCALE as nat) ==> r is None,
{
    let x = Decimal::from_i128_with_scale(a.mantissa, a.scale);
    let y = Decimal::from_i128_with_scale(b.mantissa, b.scale);
    match x.checked_add(y) {
        Some(z) => Some(Amount { mantissa: z.mantissa(), scale: z.scale() }),
        None => None,
    }
}

/// Calls `Decimal::checked_sub` (`ops/add.rs`, `add_sub_internal` with `subtract`). `0 - b`
/// is `b` with its sign flipped, `a - 0` is `a`; two nonzero operands whose difference fits in
/// 96 bits at the larger scale give it at that scale; otherwise the rounded difference is named
/// by `decimal_checked_sub`. `None` comes never when the exact difference is within 2^96 - 1,
/// and always when it is 2^96 or more.
#[verifier::external_body]
pub(crate) fn checked_sub(a: Amount, b: Amount) -> (r: Option<Amount>)
    ensures
        a@.0 == 0 ==> opt_parts(r) == Some(((-b@.0) as i128, b@.1)),
        a@.0 != 0 && b@.0 == 0 ==> opt_parts(r) == Some(a@),
        a@.0 != 0 && b@.0 != 0 && fits(aligned_diff(a@, b@)) ==> opt_parts(r) == Some(
            (aligned_diff(a@, b@) as i128, max_scale(a@, b@)),
        ),
        !exact_sub(a@, b@) ==> opt_parts(r) == decimal_checked_sub(a@, b@),
        r is None ==> abs(units(a@) - units(b@)) > max_units(),
        abs(units(a@) - units(b@)) >= max_units() + pow10(MAX_SCALE as nat) ==> r is None,
{
    let x = Decimal::from_i128_with_scale(a.mantissa, a.scale);
    let y = Decimal::from_i128_with_scale(b.mantissa, b.scale);
    match x.checked_sub(y) {
        Some(z) => Some(Amount { mantissa: z.mantissa(), scale: z.scale() }),
        None => None,
    }
}

/// Calls `Decimal::round_dp`, which rounds to `dp` fractional digits with ties to even
/// (`round_dp_with_strategy` with `MidpointNearestEven`), and leaves a decimal with at most
/// `dp` fractional digits unchanged.
#[verifier::external_body]
pub(crate) fn round_dp(a: Amount, dp: u32) -> (r: Amount)
    ensures
        r@ == round_half_even(a@, dp),
{
    let z = Decimal::from_i128_with_scale(a.mantissa, a.scale).round_dp(dp);
    Amount { mantissa: z.mantissa(), scale: z.scale() }
}

/// Calls `<Decimal as PartialOrd>::lt`, which orders decimals by value.
#[verifier::external_body]
pub(crate) fn less_than(a: Amount, b: Amount) -> (r: bool)
    ensures
        r == (units(a@) < units(b@)),
{
    Decimal::from_i128_with_scale(a.mantissa, a.scale) < Decimal::from_i128_with_scale(
        b.mantissa,
        b.scale,
    )
}

/// Calls `<Decimal as PartialOrd>::le`, which orders decimals by value.
#[verifier::external_body]
pub(crate) fn less_or_equal(a: Amount, b: Amount) -> (r: bool)
    ensures
        r == (units(a@) <= units(b@)),
{
    Decimal::from_i128_with_scale(a.mantissa, a.scale) <= Decimal::from_i128_with_scale(
        b.mantissa,
        b.scale,
    )
}

/// Calls `<Decimal as PartialEq>::eq`, which compares decimals by value.
#[verifier::external_body]
pub(crate) fn equal_value(a: Amount, b: Amount) -> (r: bool)
    ensures
        r == (units(a@) == units(b@)),
{
    Decimal::from_i128_with_scale(a.mantissa, a.scale) == Decimal::from_i128_with_scale(
        b.mantissa,
        b.scale,
    )
}

/// Formats with `{:.prec}` through `Decimal`'s `Display`: the digits of the mantissa with the
/// point placed by the scale, cut (not rounded) after `prec` fractional digits, padded with
/// zeros, and a minus sign for a negative mantissa (`str::to_str_internal`, `pad_integral`).
#[verifier::external_body]
pub(crate) fn format_fixed(a: Amount, prec: usize) -> (r: String)
    requires
        1 <= prec <= 28,
        fixed_text_fits(a@, prec as nat),
    ensures
        r@ == fixed_text(a@, prec as nat),
{
    format!("{:.*}", prec, Decimal::from_i128_with_scale(a.mantissa, a.scale))
}

/// Calls `Decimal::from_str`; the parsed value is named by `decimal_from_str`.
#[verifier::external_body]
pub(crate) fn parse_decimal(s: &str) -> (r: Result<Amount, rust_decimal::Error>)
    ensures
        (match r {
            Ok(x) => decimal_from_str(s@) == Some(x@),
            Err(_) => decimal_from_str(s@) is None,
        }),
{
    match Decimal::from_str(s) {
        Ok(z) => Ok(Amount { mantissa: z.mantissa(), scale: z.scale() }),
        Err(e) => Err(e),
    }
}

#[verifier::external_type_specification]
#[verifier::external_body]
pub struct ExDecimalError(rust_decimal::Error);

impl PartialEq for Amount {
    fn eq(&self, other: &Self) -> (r: bool) {
        equal_value(*self, *other)
    }
}

impl vstd::std_specs::cmp::PartialEqSpecImpl for Amount {
    open spec fn obeys_eq_spec() -> bool {
        true
    }

    open spec fn eq_spec(&self, other: &Self) -> bool {
        units(self@) == units(other@)
    }
}

} // verus!
