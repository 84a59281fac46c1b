//! Integer arithmetic of the solver: rounding a quotient to the nearest integer,
//! and dividing a length among weights without losing a cell.

use vstd::prelude::*;
use vstd::arithmetic::div_mod::{
    lemma_div_is_ordered, lemma_div_multiples_vanish, lemma_fundamental_div_mod,
    lemma_mod_bound,
};

verus! {

/// The quotient `num / den` rounded to the nearest integer; a quotient that lies
/// halfway between two integers goes to the even one.
pub open spec fn round_half_even(num: int, den: int) -> int
    recommends
        num >= 0,
        den > 0,
{
    let q = num / den;
    let r = num % den;
    if 2 * r < den {
        q
    } else if 2 * r > den {
        q + 1
    } else if q % 2 == 0 {
        q
    } else {
        q + 1
    }
}

/// How much of `spend` has been handed out once weights adding up to `prefix`
/// have been served, out of `total`: the exact share, rounded down.
pub open spec fn portion(spend: int, prefix: int, total: int) -> int {
    if total <= 0 {
        0
    } else {
        (spend * prefix) / total
    }
}

/// What a weight receives when it is served after weights adding up to `prefix`:
/// the step between two consecutive portions. The steps of all weights add up
/// to `spend`, whatever was lost by rounding one is made up in a later one.
pub open spec fn share(spend: int, prefix: int, weight: int, total: int) -> int {
    portion(spend, prefix + weight, total) - portion(spend, prefix, total)
}

/// `round_half_even` yields an integer nearest to the quotient, and on a tie the
/// even one.
pub proof fn lemma_round_half_even_nearest(num: int, den: int)
    requires
        num >= 0,
        den > 0,
    ensures
        0 <= round_half_even(num, den) <= num,
        2 * (round_half_even(num, den) * den - num) <= den,
        2 * (num - round_half_even(num, den) * den) <= den,
        2 * (round_half_even(num, den) * den - num) == den || 2 * (num - round_half_even(
            num,
            den,
        ) * den) == den ==> round_half_even(num, den) % 2 == 0,
{
    let q = num / den;
    let r = num % den;
    lemma_fundamental_div_mod(num, den);
    lemma_mod_bound(num, den);
    assert(num == den * q + r);
    assert(q >= 0) by (nonlinear_arith)
        requires
            num == den * q + r,
            0 <= r < den,
            num >= 0,
            den > 0,
    ;
    assert(den * (q + 1) == den * q + den) by (nonlinear_arith);
    assert(q * den == den * q) by (nonlinear_arith);
    assert((q + 1) * den == den * (q + 1)) by (nonlinear_arith);
    if round_half_even(num, den) == q + 1 {
        assert(q + 1 <= num) by (nonlinear_arith)
            requires
                num == den * q + r,
                2 * r >= den,
                0 <= r < den,
                q >= 0,
                den > 0,
        ;
    } else {
        assert(q <= num) by (nonlinear_arith)
            requires
                num == den * q + r,
                0 <= r,
                q >= 0,
                den > 0,
        ;
    }
}

/// Portions grow with the weights served.
pub proof fn lemma_portion_monotone(spend: int, low: int, high: int, total: int)
    requires
        spend >= 0,
        0 <= low <= high,
    ensures
        0 <= portion(spend, low, total) <= portion(spend, high, total),
{
    if total > 0 {
        assert(0 <= spend * low <= spend * high) by (nonlinear_arith)
            requires
                spend >= 0,
                0 <= low <= high,
        ;
        lemma_div_is_ordered(spend * low, spend * high, total);
        lemma_div_is_ordered(0, spend * low, total);
    }
}

/// Once every weight has been served, the whole of `spend` is handed out.
pub proof fn lemma_portion_ends(spend: int, total: int)
    requires
        total > 0,
    ensures
        portion(spend, 0, total) == 0,
        portion(spend, total, total) == spend,
{
    assert(spend * 0 == 0) by (nonlinear_arith);
    lemma_div_multiples_vanish(spend, total);
    assert(spend * total == total * spend) by (nonlinear_arith);
}

/// No weight receives a negative share, nor more than `spend`.
pub proof fn lemma_share_bounds(spend: int, prefix: int, weight: int, total: int)
    requires
        spend >= 0,
        prefix >= 0,
        weight >= 0,
        prefix + weight <= total,
    ensures
        0 <= share(spend, prefix, weight, total) <= spend,
        portion(spend, prefix + weight, total) <= spend,
{
    lemma_portion_monotone(spend, prefix, prefix + weight, total);
    if total > 0 {
        lemma_portion_monotone(spend, prefix + weight, total, total);
        lemma_portion_ends(spend, total);
    }
}

/// A weight of zero receives nothing.
pub proof fn lemma_share_of_nothing(spend: int, prefix: int, total: int)
    ensures
        share(spend, prefix, 0, total) == 0,
{
}

/// Where no more is spent than the weights add up to, no weight receives more
/// than itself.
pub proof fn lemma_share_at_most_weight(spend: int, prefix: int, weight: int, total: int)
    requires
        0 <= spend <= total,
        prefix >= 0,
        weight >= 0,
    ensures
        share(spend, prefix, weight, total) <= weight,
{
    if total > 0 {
        let a = spend * prefix;
        assert(spend * (prefix + weight) <= a + weight * total) by (nonlinear_arith)
            requires
                a == spend * prefix,
                0 <= spend <= total,
                weight >= 0,
        ;
        lemma_div_is_ordered(spend * (prefix + weight), a + weight * total, total);
        lemma_add_multiple(a, weight, total);
    }
}

/// Where exactly the sum of the weights is spent, every weight receives itself.
pub proof fn lemma_share_in_full(prefix: int, weight: int, total: int)
    requires
        total > 0,
    ensures
        share(total, prefix, weight, total) == weight,
{
    lemma_div_multiples_vanish(prefix, total);
    lemma_div_multiples_vanish(prefix + weight, total);
}

/// A share differs from the exact proportional share, `spend * weight / total`,
/// by less than one.
pub proof fn lemma_share_is_proportional(spend: int, prefix: int, weight: int, total: int)
    requires
        total > 0,
    ensures
        -total < share(spend, prefix, weight, total) * total - spend * weight < total,
{
    let a = spend * prefix;
    let b = spend * (prefix + weight);
    lemma_fundamental_div_mod(a, total);
    lemma_fundamental_div_mod(b, total);
    lemma_mod_bound(a, total);
    lemma_mod_bound(b, total);
    let qa = a / total;
    let qb = b / total;
    assert(b - a == spend * weight) by (nonlinear_arith)
        requires
            a == spend * prefix,
            b == spend * (prefix + weight),
    ;
    assert((qb - qa) * total == total * qb - total * qa) by (nonlinear_arith);
}

/// Adding a multiple of the divisor adds the multiplier to the quotient.
proof fn lemma_add_multiple(a: int, k: int, d: int)
    requires
        d > 0,
    ensures
        (a + k * d) / d == a / d + k,
{
    lemma_fundamental_div_mod(a, d);
    lemma_mod_bound(a, d);
    let q = a / d;
    let r = a % d;
    assert(a + k * d == d * (q + k) + r) by (nonlinear_arith)
        requires
            a == d * q + r,
    ;
    vstd::arithmetic::div_mod::lemma_fundamental_div_mod_converse(a + k * d, d, q + k, r);
}

/// `round_half_even` for a numerator of either sign: the rounding of the
/// opposite number is the opposite of the rounding.
pub open spec fn round_half_even_signed(num: int, den: int) -> int
    recommends
        den > 0,
{
    if num >= 0 {
        round_half_even(num, den)
    } else {
        -round_half_even(-num, den)
    }
}

/// Rounds `num / den` to the nearest integer, a tie to the even one, for wide
/// numbers.
pub fn round_half_even_wide(num: u128, den: u128) -> (r: u128)
    requires
        den > 0,
    ensures
        r == round_half_even(num as int, den as int),
{
    let q: u128 = num / den;
    let rem: u128 = num % den;
    proof {
        lemma_round_half_even_nearest(num as int, den as int);
    }
    if rem < den - rem {
        q
    } else if rem > den - rem {
        q + 1
    } else if q % 2 == 0 {
        q
    } else {
        q + 1
    }
}

/// Rounds `num / den` to the nearest integer, a tie to the even one.
pub fn round_half_even_div(num: u64, den: u64) -> (r: u64)
    requires
        den > 0,
    ensures
        r == round_half_even(num as int, den as int),
{
    let q: u64 = num / den;
    let rem: u64 = num % den;
    proof {
        lemma_round_half_even_nearest(num as int, den as int);
    }
    if rem < den - rem {
        q
    } else if rem > den - rem {
        q + 1
    } else if q % 2 == 0 {
        q
    } else {
        q + 1
    }
}

} // verus!
