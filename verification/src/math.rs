//! Exact integer arithmetic on amounts: percentages and pro-rata shares,
//! both rounded down, computed without a product that could leave `u128`.

use vstd::prelude::*;
use vstd::arithmetic::div_mod::lemma_fundamental_div_mod_converse;
use crate::types::Balance;

verus! {

/// `pct` percent of `amount`, rounded down.
pub open spec fn percentage(amount: int, pct: int) -> int {
    amount * pct / 100
}

/// The part of `total` that falls to `amount` out of `whole`, rounded down.
pub open spec fn pro_rata(amount: int, total: int, whole: int) -> int {
    amount * total / whole
}

/// A percentage is the percentage of the hundreds plus that of the rest.
pub proof fn lemma_percentage_split(amount: int, pct: int)
    requires
        0 <= amount,
        0 <= pct,
    ensures
        percentage(amount, pct) == (amount / 100) * pct + ((amount % 100) * pct) / 100,
        0 <= (amount / 100) * pct <= percentage(amount, pct),
{
    let q = amount / 100;
    let r = amount % 100;
    let hi = q * pct;
    let lo = r * pct;
    assert(amount * pct == 100 * hi + lo && 0 <= hi && 0 <= lo) by (nonlinear_arith)
        requires
            amount == 100 * q + r,
            hi == q * pct,
            lo == r * pct,
            0 <= q,
            0 <= r,
            0 <= pct,
    ;
    lemma_fundamental_div_mod_converse(amount * pct, 100, hi + lo / 100, lo % 100);
}

/// A percentage below one hundred takes less than the whole of a positive amount.
pub proof fn lemma_percentage_below(amount: int, pct: int)
    requires
        0 < amount,
        0 <= pct < 100,
    ensures
        0 <= percentage(amount, pct) < amount,
{
    assert(0 <= amount * pct <= amount * 99) by (nonlinear_arith)
        requires
            0 < amount,
            0 <= pct <= 99,
    ;
}

/// A percentage of an amount is never negative.
pub proof fn lemma_percentage_nonnegative(amount: int, pct: int)
    requires
        0 <= amount,
        0 <= pct,
    ensures
        0 <= percentage(amount, pct),
{
    assert(0 <= amount * pct) by (nonlinear_arith)
        requires
            0 <= amount,
            0 <= pct,
    ;
}

/// `pct` percent of `amount`, rounded down, or nothing where that is more
/// than a `Balance` can hold.
pub fn checked_percent_of(amount: Balance, pct: u8) -> (r: Option<Balance>)
    ensures
        r == if percentage(amount as int, pct as int) <= Balance::MAX {
            Some(percentage(amount as int, pct as int) as Balance)
        } else {
            None
        },
{
    let q: u128 = amount / 100;
    let rest: u128 = amount % 100;
    proof {
        lemma_percentage_split(amount as int, pct as int);
        assert(0 <= rest * pct <= 99 * 255) by (nonlinear_arith)
            requires
                0 <= rest <= 99,
                0 <= pct <= 255,
        ;
    }
    match q.checked_mul(pct as u128) {
        Some(hi) => hi.checked_add((rest * (pct as u128)) / 100),
        None => None,
    }
}

/// `pct` percent of `amount`, rounded down. Only the result has to fit.
pub fn percent_of(amount: Balance, pct: u8) -> (r: Balance)
    requires
        percentage(amount as int, pct as int) <= Balance::MAX,
    ensures
        r == percentage(amount as int, pct as int),
{
    checked_percent_of(amount, pct).unwrap()
}

/// A quotient of `a * b` by `c` is at most `b` when `a` is at most `c`.
proof fn lemma_quotient_bound(q: int, r: int, a: int, b: int, c: int)
    by (nonlinear_arith)
    requires
        0 < c,
        0 <= a <= c,
        0 <= b,
        0 <= r,
        q * c + r == a * b,
    ensures
        q <= b,
{
    assert(a * b <= c * b);
    assert(q * c <= b * c);
}

/// Quotient and remainder of `a * b` by `c`, by halving `b`.
fn mul_div_rem(a: u128, b: u128, c: u128) -> (qr: (u128, u128))
    requires
        0 < c,
        a <= c,
    ensures
        a * b == qr.0 * c + qr.1,
        qr.1 < c,
    decreases b,
{
    if b == 0 {
        return (0, 0);
    }
    let half: u128 = b / 2;
    let (q0, r0) = mul_div_rem(a, half, c);
    let carry: bool = r0 >= c - r0;
    let ghost q1_int: int = if carry { 2 * q0 + 1 } else { 2 * q0 };
    let ghost r1_int: int = if carry { r0 - (c - r0) } else { 2 * r0 };
    proof {
        assert(q1_int * c + r1_int == a * (2 * half)) by (nonlinear_arith)
            requires
                a * half == q0 * c + r0,
                q1_int == (if carry { 2 * q0 + 1 } else { 2 * q0 }),
                r1_int == (if carry { r0 - (c - r0) } else { 2 * r0 }),
        ;
        lemma_quotient_bound(q1_int, r1_int, a as int, 2 * half, c as int);
    }
    let q1: u128 = if carry { 2 * q0 + 1 } else { 2 * q0 };
    let r1: u128 = if carry { r0 - (c - r0) } else { 2 * r0 };
    if b % 2 == 0 {
        return (q1, r1);
    }
    let wraps: bool = a == c || r1 >= c - a;
    let ghost q2_int: int = if wraps { q1 + 1 } else { q1 as int };
    let ghost r2_int: int = if wraps { r1 + a - c } else { r1 + a };
    proof {
        assert(q2_int * c + r2_int == a * b) by (nonlinear_arith)
            requires
                q1 * c + r1 == a * (2 * half),
                b == 2 * half + 1,
                q2_int == (if wraps { q1 + 1 } else { q1 as int }),
                r2_int == (if wraps { r1 + a - c } else { r1 + a }),
        ;
        lemma_quotient_bound(q2_int, r2_int, a as int, b as int, c as int);
    }
    if a == c {
        (q1 + 1, r1)
    } else if r1 >= c - a {
        (q1 + 1, r1 - (c - a))
    } else {
        (q1, r1 + a)
    }
}

/// `a * b / c`, rounded down, or nothing where that is more than a
/// `Balance` can hold. The product may be far beyond `u128`.
pub fn checked_mul_div(a: Balance, b: Balance, c: Balance) -> (r: Option<Balance>)
    requires
        0 < c,
    ensures
        r == if pro_rata(a as int, b as int, c as int) <= Balance::MAX {
            Some(pro_rata(a as int, b as int, c as int) as Balance)
        } else {
            None
        },
{
    let whole: u128 = a / c;
    let rest: u128 = a % c;
    let (q, r) = mul_div_rem(rest, b, c);
    proof {
        let hi = whole * b;
        vstd::arithmetic::div_mod::lemma_fundamental_div_mod(a as int, c as int);
        assert(a * b == (hi + q) * c + r && 0 <= hi) by (nonlinear_arith)
            requires
                a == c * whole + rest,
                rest * b == q * c + r,
                hi == whole * b,
                0 <= whole,
                0 <= b,
        ;
        lemma_fundamental_div_mod_converse(a * b, c as int, hi + q, r as int);
    }
    match whole.checked_mul(b) {
        Some(hi) => hi.checked_add(q),
        None => None,
    }
}

/// `a * b / c`, rounded down. The product may be far beyond `u128`; only
/// the quotient has to fit.
pub fn mul_div(a: Balance, b: Balance, c: Balance) -> (q: Balance)
    requires
        0 < c,
        pro_rata(a as int, b as int, c as int) <= Balance::MAX,
    ensures
        q == pro_rata(a as int, b as int, c as int),
{
    checked_mul_div(a, b, c).unwrap()
}

/// A pro-rata share of a part is never more than the total shared out.
pub proof fn lemma_pro_rata_bounds(amount: int, total: int, whole: int)
    requires
        0 <= amount <= whole,
        0 < whole,
        0 <= total,
    ensures
        0 <= pro_rata(amount, total, whole) <= total,
        pro_rata(amount, total, whole) * whole <= amount * total,
{
    let x = amount * total;
    assert(0 <= x <= total * whole) by (nonlinear_arith)
        requires
            x == amount * total,
            0 <= amount <= whole,
            0 <= total,
    ;
    vstd::arithmetic::div_mod::lemma_fundamental_div_mod(x, whole);
    vstd::arithmetic::div_mod::lemma_mod_bound(x, whole);
    let q = x / whole;
    assert(0 <= q <= total && q * whole <= x) by (nonlinear_arith)
        requires
            x == whole * q + x % whole,
            0 <= x % whole < whole,
            0 <= x <= total * whole,
            0 < whole,
    ;
}

} // verus!
