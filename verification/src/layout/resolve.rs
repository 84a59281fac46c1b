//! Resolution of a list of constraints into segment lengths.
//!
//! The length to divide is handed out in six tiers, the least negotiable first:
//!
//! | tier | served | weight of a constraint |
//! |------|--------|------------------------|
//! | 0 | the bound of `Min(n)` | `n` |
//! | 1 | `Length(n)` | `n` |
//! | 2 | `Percentage`, `Ratio` | its part of the whole length, rounded half to even |
//! | 3 | `Max(n)` | `n` |
//! | 4 | growth of `Min` | 1 for each `Min` |
//! | 5 | `Fill(w)` | `w` |
//!
//! Tiers 0 to 3 ask for the sum of their weights. A tier that finds as much in
//! the budget gives every constraint its weight. A tier that finds less divides
//! what it finds in proportion to the weights, so the tiers below it get nothing:
//! an over-constrained list shrinks `Fill` first, then `Max`, then `Percentage`
//! and `Ratio`, then `Length`, and the bounds of `Min` last. Tiers 4 and 5 take
//! all that is
//! left and divide it by weight; where neither has a weight, what is left stays
//! free at the far end of the axis.
//!
//! Rounding each part of tier 2 by itself lets the parts drift from their sum:
//! three thirds of 100 cells would come to 99. So the errors of the roundings
//! are added up, and the last `Percentage` or `Ratio` of the list (a `Ratio`
//! with a denominator of zero does not count) takes their sum, rounded half to
//! even, on itself: the three thirds come to 33, 33 and 34.
//! An error is kept in parts of a cell so small that the error of a
//! `Percentage` is kept exactly: percentages that add up to 100 cover all there
//! is to divide.

use vstd::prelude::*;
use crate::layout::arith::{
    lemma_portion_ends, lemma_round_half_even_nearest, lemma_share_at_most_weight,
    lemma_share_bounds, lemma_share_in_full, lemma_share_is_proportional, portion,
    round_half_even, round_half_even_div, round_half_even_signed, round_half_even_wide, share,
};
use crate::layout::constraint::Constraint;
use crate::layout::rect::{max_int, min_int};

verus! {

/// The number of tiers.
pub open spec fn tier_count() -> int {
    6
}

/// The weight that a constraint has in a tier by itself, when `available` cells
/// are to be divided.
pub open spec fn weight(c: Constraint, tier: int, available: int) -> int {
    match c {
        Constraint::Length(n) => if tier == 1 {
            n as int
        } else {
            0
        },
        Constraint::Min(n) => if tier == 0 {
            n as int
        } else if tier == 4 {
            1
        } else {
            0
        },
        Constraint::Percentage(p) => if tier == 2 {
            round_half_even(p * available, 100)
        } else {
            0
        },
        Constraint::Ratio(num, den) => if tier == 2 && den != 0 {
            round_half_even(num * available, den as int)
        } else {
            0
        },
        Constraint::Max(n) => if tier == 3 {
            n as int
        } else {
            0
        },
        Constraint::Fill(w) => if tier == 5 {
            w as int
        } else {
            0
        },
    }
}

/// Whether a constraint asks for a part of the whole length: a `Percentage`,
/// or a `Ratio` whose denominator is not zero.
pub open spec fn is_relative(c: Constraint) -> bool {
    match c {
        Constraint::Percentage(_) => true,
        Constraint::Ratio(_, den) => den != 0,
        _ => false,
    }
}

/// The part of `available` that a `Percentage` or a `Ratio` asks for, before
/// rounding: a numerator and its denominator.
pub open spec fn part_of(c: Constraint, available: int) -> (int, int) {
    match c {
        Constraint::Percentage(p) => (p * available, 100),
        Constraint::Ratio(num, den) => if den != 0 {
            (num * available, den as int)
        } else {
            (0, 1)
        },
        _ => (0, 1),
    }
}

/// The number of equal parts into which a cell is cut to keep a rounding error:
/// 100 times 2^25, so that hundredths are kept exactly.
pub open spec fn fraction() -> int {
    0xc800_0000
}

/// By how much the rounded part of a constraint is above its exact part, in
/// cells cut into `fraction()` parts; below zero where it is below.
pub open spec fn rounding_error(c: Constraint, available: int) -> int {
    let (num, den) = part_of(c, available);
    round_half_even_signed((round_half_even(num, den) * den - num) * fraction(), den)
}

/// The sum of the rounding errors of the first `k` constraints.
pub open spec fn error_upto(cs: Seq<Constraint>, available: int, k: int) -> int
    decreases k,
{
    if k <= 0 {
        0
    } else {
        error_upto(cs, available, k - 1) + rounding_error(cs[k - 1], available)
    }
}

/// What makes up for the rounding errors of all constraints: their sum in whole
/// cells, taken the other way.
pub open spec fn correction(cs: Seq<Constraint>, available: int) -> int {
    -round_half_even_signed(error_upto(cs, available, cs.len() as int), fraction())
}

/// The place of the last `Percentage` or `Ratio` among the first `k`
/// constraints; -1 where there is none.
pub open spec fn last_relative_upto(cs: Seq<Constraint>, k: int) -> int
    decreases k,
{
    if k <= 0 {
        -1
    } else if is_relative(cs[k - 1]) {
        k - 1
    } else {
        last_relative_upto(cs, k - 1)
    }
}

/// The place of the last `Percentage` or `Ratio` of the list; -1 where there is
/// none.
pub open spec fn last_relative(cs: Seq<Constraint>) -> int {
    last_relative_upto(cs, cs.len() as int)
}

/// The weight with which constraint `i` takes part in a tier: its own weight,
/// but for the last `Percentage` or `Ratio`, whose weight in tier 2 also makes up
/// for the rounding errors, as far as this leaves it above zero.
pub open spec fn weight_at(cs: Seq<Constraint>, tier: int, available: int, i: int) -> int {
    if tier == 2 && i == last_relative(cs) {
        max_int(0, weight(cs[i], tier, available) + correction(cs, available))
    } else {
        weight(cs[i], tier, available)
    }
}

/// The sum of the weights that the first `i` constraints have in a tier.
pub open spec fn prefix_weight(cs: Seq<Constraint>, tier: int, available: int, i: int) -> int
    decreases i,
{
    if i <= 0 {
        0
    } else {
        prefix_weight(cs, tier, available, i - 1) + weight_at(cs, tier, available, i - 1)
    }
}

/// The sum of the weights that all constraints have in a tier.
pub open spec fn total_weight(cs: Seq<Constraint>, tier: int, available: int) -> int {
    prefix_weight(cs, tier, available, cs.len() as int)
}

/// What a tier takes out of a budget, given the sum of its weights.
pub open spec fn spend_of(tier: int, budget: int, total: int) -> int {
    if tier >= 4 {
        if total > 0 {
            budget
        } else {
            0
        }
    } else {
        min_int(budget, total)
    }
}

/// What is left of `available` when a tier is reached.
pub open spec fn budget(cs: Seq<Constraint>, tier: int, available: int) -> int
    decreases tier,
{
    if tier <= 0 {
        available
    } else {
        let before = budget(cs, tier - 1, available);
        before - spend_of(tier - 1, before, total_weight(cs, tier - 1, available))
    }
}

/// What a tier takes out of its budget.
pub open spec fn spend(cs: Seq<Constraint>, tier: int, available: int) -> int {
    spend_of(tier, budget(cs, tier, available), total_weight(cs, tier, available))
}

/// What constraint `i` receives in a tier.
pub open spec fn grant(cs: Seq<Constraint>, tier: int, available: int, i: int) -> int {
    share(
        spend(cs, tier, available),
        prefix_weight(cs, tier, available, i),
        weight_at(cs, tier, available, i),
        total_weight(cs, tier, available),
    )
}

/// What constraint `i` receives in the tiers before `tier`.
pub open spec fn granted_below(cs: Seq<Constraint>, tier: int, available: int, i: int) -> int
    decreases tier,
{
    if tier <= 0 {
        0
    } else {
        granted_below(cs, tier - 1, available, i) + grant(cs, tier - 1, available, i)
    }
}

/// The length of segment `i`: what its constraint receives in all tiers.
pub open spec fn resolved_length(cs: Seq<Constraint>, available: int, i: int) -> int {
    granted_below(cs, tier_count(), available, i)
}

/// The lengths of all segments, in the order of their constraints.
pub open spec fn resolved_lengths(cs: Seq<Constraint>, available: int) -> Seq<int> {
    Seq::new(cs.len(), |i: int| resolved_length(cs, available, i))
}

/// No weight is negative, and none reaches 2^48.
pub proof fn lemma_weight_bounds(c: Constraint, tier: int, available: int)
    requires
        0 <= available <= u16::MAX,
    ensures
        0 <= weight(c, tier, available) < 0x1_0000_0000_0000,
{
    match c {
        Constraint::Percentage(p) => {
            assert(0 <= p * available <= 0xffff * 0xffff) by (nonlinear_arith)
                requires
                    0 <= p <= 0xffff,
                    0 <= available <= 0xffff,
            ;
            lemma_round_half_even_nearest(p * available, 100);
        },
        Constraint::Ratio(num, den) => {
            assert(0 <= num * available <= 0xffff_ffff * 0xffff) by (nonlinear_arith)
                requires
                    0 <= num <= 0xffff_ffff,
                    0 <= available <= 0xffff,
            ;
            if den != 0 {
                lemma_round_half_even_nearest(num * available, den as int);
            }
        },
        _ => {},
    }
}

/// No rounding error is more than half a cell.
pub proof fn lemma_rounding_error_bounds(c: Constraint, available: int)
    requires
        0 <= available <= u16::MAX,
    ensures
        -0x6400_0000 <= rounding_error(c, available) <= 0x6400_0000,
        !is_relative(c) ==> rounding_error(c, available) == 0,
{
    let (num, den) = part_of(c, available);
    assert(num >= 0 && den > 0) by {
        match c {
            Constraint::Percentage(p) => {
                assert(0 <= p * available) by (nonlinear_arith)
                    requires
                        0 <= p,
                        0 <= available,
                ;
            },
            Constraint::Ratio(n, d) => {
                assert(0 <= n * available) by (nonlinear_arith)
                    requires
                        0 <= n,
                        0 <= available,
                ;
            },
            _ => {},
        }
    }
    lemma_round_half_even_nearest(num, den);
    let off = round_half_even(num, den) * den - num;
    let scaled = if off >= 0 {
        off * fraction()
    } else {
        (-off) * fraction()
    };
    assert(0 <= scaled && 2 * scaled <= den * fraction()) by (nonlinear_arith)
        requires
            scaled == if off >= 0 {
                off * fraction()
            } else {
                (-off) * fraction()
            },
            2 * off <= den,
            2 * (-off) <= den,
            fraction() == 0xc800_0000,
    ;
    lemma_round_half_even_nearest(scaled, den);
    let rounded = round_half_even(scaled, den);
    assert(rounded <= 0x6400_0000) by (nonlinear_arith)
        requires
            2 * (rounded * den - scaled) <= den,
            2 * scaled <= den * 0xc800_0000,
            den > 0,
    ;
    assert((-off) * fraction() == -(off * fraction())) by (nonlinear_arith);
    if !is_relative(c) {
        assert(off == 0);
        assert(0 * fraction() == 0) by (nonlinear_arith);
        assert(scaled == 0);
    }
}

/// The rounding errors of the first `k` constraints add up to no more than half
/// a cell for each.
pub proof fn lemma_error_upto_bounds(cs: Seq<Constraint>, available: int, k: int)
    requires
        0 <= available <= u16::MAX,
        0 <= k,
    ensures
        -k * 0x6400_0000 <= error_upto(cs, available, k) <= k * 0x6400_0000,
    decreases k,
{
    if k > 0 {
        lemma_error_upto_bounds(cs, available, k - 1);
        lemma_rounding_error_bounds(cs[k - 1], available);
    }
}

/// What makes up for the rounding errors is no more than half a cell for each
/// constraint, rounded: less than one cell for each.
pub proof fn lemma_correction_bounds(cs: Seq<Constraint>, available: int)
    requires
        0 <= available <= u16::MAX,
    ensures
        -cs.len() <= correction(cs, available) <= cs.len(),
{
    let n = cs.len() as int;
    let e = error_upto(cs, available, n);
    lemma_error_upto_bounds(cs, available, n);
    let size = if e >= 0 {
        e
    } else {
        -e
    };
    lemma_round_half_even_nearest(size, fraction());
    let r = round_half_even(size, fraction());
    assert(2 * r <= n + 1) by (nonlinear_arith)
        requires
            2 * (r * 0xc800_0000 - size) <= 0xc800_0000,
            size <= n * 0x6400_0000,
    ;
}

/// The last `Percentage` or `Ratio` among the first `k` constraints is one, and
/// none follows it there.
pub proof fn lemma_last_relative(cs: Seq<Constraint>, k: int)
    requires
        0 <= k,
    ensures
        -1 <= last_relative_upto(cs, k) < k,
        last_relative_upto(cs, k) >= 0 ==> is_relative(cs[last_relative_upto(cs, k)]),
        forall|j: int| last_relative_upto(cs, k) < j < k ==> !is_relative(#[trigger] cs[j]),
    decreases k,
{
    if k > 0 {
        lemma_last_relative(cs, k - 1);
    }
}

/// No weight is negative. Every weight is below 2^48, but that of the last
/// `Percentage` or `Ratio`, which may be above it by up to the number of
/// constraints. A constraint has no weight in a tier that is not its own.
pub proof fn lemma_weight_at_bounds(cs: Seq<Constraint>, tier: int, available: int, i: int)
    requires
        0 <= available <= u16::MAX,
    ensures
        0 <= weight_at(cs, tier, available, i),
        weight_at(cs, tier, available, i) <= 0xffff_ffff_ffff + if tier == 2 && i
            == last_relative(cs) {
            cs.len() as int
        } else {
            0
        },
        0 <= i < cs.len() && weight(cs[i], tier, available) == 0 && !(tier == 2 && is_relative(
            cs[i],
        )) ==> weight_at(cs, tier, available, i) == 0,
{
    lemma_weight_bounds(cs[i], tier, available);
    lemma_correction_bounds(cs, available);
    lemma_last_relative(cs, cs.len() as int);
}

/// The sum of the first `i` weights is not negative and grows with `i`, by less
/// than 2^48 for each constraint, and once by up to the number of constraints.
pub proof fn lemma_prefix_weight_bounds(
    cs: Seq<Constraint>,
    tier: int,
    available: int,
    i: int,
    j: int,
)
    requires
        0 <= available <= u16::MAX,
        0 <= i <= j,
    ensures
        0 <= prefix_weight(cs, tier, available, i) <= prefix_weight(cs, tier, available, j),
        prefix_weight(cs, tier, available, j) <= j * 0xffff_ffff_ffff + cs.len(),
        prefix_weight(cs, tier, available, j) <= j * 0xffff_ffff_ffff + if tier == 2 && j
            > last_relative(cs) {
            cs.len() as int
        } else {
            0
        },
    decreases j,
{
    if j > 0 {
        lemma_weight_at_bounds(cs, tier, available, j - 1);
        if i < j {
            lemma_prefix_weight_bounds(cs, tier, available, i, j - 1);
        } else {
            lemma_prefix_weight_bounds(cs, tier, available, j - 1, j - 1);
        }
    }
}

/// Every budget lies between zero and the length to divide, and no tier finds
/// more than the tier before it.
pub proof fn lemma_budget_bounds(cs: Seq<Constraint>, tier: int, available: int)
    requires
        0 <= available <= u16::MAX,
    ensures
        0 <= budget(cs, tier, available) <= available,
        0 <= spend(cs, tier, available) <= budget(cs, tier, available),
        budget(cs, tier + 1, available) == budget(cs, tier, available) - spend(
            cs,
            tier,
            available,
        ) || tier < 0,
    decreases tier,
{
    lemma_prefix_weight_bounds(cs, tier, available, 0, cs.len() as int);
    if tier > 0 {
        lemma_budget_bounds(cs, tier - 1, available);
    }
}

/// The sum of the first `k` entries of a sequence.
pub open spec fn sum_upto(lens: Seq<int>, k: int) -> int
    decreases k,
{
    if k <= 0 {
        0
    } else {
        sum_upto(lens, k - 1) + lens[k - 1]
    }
}

/// What the tiers before `tier` have handed to the first `k` constraints.
pub open spec fn handed_out(cs: Seq<Constraint>, tier: int, available: int, k: int) -> int
    decreases tier,
{
    if tier <= 0 {
        0
    } else {
        handed_out(cs, tier - 1, available, k) + portion(
            spend(cs, tier - 1, available),
            prefix_weight(cs, tier - 1, available, k),
            total_weight(cs, tier - 1, available),
        )
    }
}

/// What the tiers of fixed size ask for: every bound of a `Min`, every
/// `Length`, every `Percentage` and `Ratio` of `available`, and every bound of a
/// `Max`.
pub open spec fn demand(cs: Seq<Constraint>, available: int) -> int {
    total_weight(cs, 0, available) + total_weight(cs, 1, available) + total_weight(
        cs,
        2,
        available,
    ) + total_weight(cs, 3, available)
}

/// Whether some constraint takes up whatever is left: a `Min`, or a `Fill` with a
/// weight above zero.
pub open spec fn takes_the_rest(cs: Seq<Constraint>) -> bool {
    exists|i: int|
        0 <= i < cs.len() && (#[trigger] cs[i] is Min || (cs[i] matches Constraint::Fill(w) && w
            > 0))
}

/// No segment has a negative length, and none is longer than what is there to
/// divide.
pub proof fn lemma_length_bounds(cs: Seq<Constraint>, available: int, i: int)
    requires
        0 <= available <= u16::MAX,
        0 <= i < cs.len(),
    ensures
        0 <= resolved_length(cs, available, i) <= available,
{
    lemma_granted_below_bounds(cs, tier_count(), available, i);
    lemma_budget_bounds(cs, tier_count(), available);
}

proof fn lemma_granted_below_bounds(cs: Seq<Constraint>, tier: int, available: int, i: int)
    requires
        0 <= available <= u16::MAX,
        0 <= i < cs.len(),
        0 <= tier,
    ensures
        0 <= granted_below(cs, tier, available, i) <= available - budget(cs, tier, available),
    decreases tier,
{
    if tier > 0 {
        lemma_granted_below_bounds(cs, tier - 1, available, i);
        lemma_grant_bounds(cs, tier - 1, available, i);
        lemma_budget_bounds(cs, tier - 1, available);
    }
}

/// In no tier does a constraint receive a negative length, nor more than the
/// tier spends.
pub proof fn lemma_grant_bounds(cs: Seq<Constraint>, tier: int, available: int, i: int)
    requires
        0 <= available <= u16::MAX,
        0 <= i < cs.len(),
    ensures
        0 <= grant(cs, tier, available, i) <= spend(cs, tier, available),
{
    lemma_budget_bounds(cs, tier, available);
    lemma_prefix_weight_bounds(cs, tier, available, 0, i);
    lemma_prefix_weight_bounds(cs, tier, available, i + 1, cs.len() as int);
    lemma_weight_at_bounds(cs, tier, available, i);
    lemma_share_bounds(
        spend(cs, tier, available),
        prefix_weight(cs, tier, available, i),
        weight_at(cs, tier, available, i),
        total_weight(cs, tier, available),
    );
}

proof fn lemma_handed_out_step(cs: Seq<Constraint>, tier: int, available: int, k: int)
    requires
        0 <= tier,
        0 < k <= cs.len(),
    ensures
        handed_out(cs, tier, available, k) == handed_out(cs, tier, available, k - 1)
            + granted_below(cs, tier, available, k - 1),
    decreases tier,
{
    if tier > 0 {
        lemma_handed_out_step(cs, tier - 1, available, k);
    }
}

proof fn lemma_handed_out_nothing(cs: Seq<Constraint>, tier: int, available: int)
    ensures
        handed_out(cs, tier, available, 0) == 0,
    decreases tier,
{
    if tier > 0 {
        lemma_handed_out_nothing(cs, tier - 1, available);
        assert(spend(cs, tier - 1, available) * 0 == 0) by (nonlinear_arith);
    }
}

proof fn lemma_handed_out_all(cs: Seq<Constraint>, tier: int, available: int)
    requires
        0 <= available <= u16::MAX,
        0 <= tier,
    ensures
        handed_out(cs, tier, available, cs.len() as int) == available - budget(
            cs,
            tier,
            available,
        ),
    decreases tier,
{
    if tier > 0 {
        lemma_handed_out_all(cs, tier - 1, available);
        lemma_budget_bounds(cs, tier - 1, available);
        lemma_prefix_weight_bounds(cs, tier - 1, available, 0, cs.len() as int);
        let total = total_weight(cs, tier - 1, available);
        if total > 0 {
            lemma_portion_ends(spend(cs, tier - 1, available), total);
        }
    }
}

/// The first `k` lengths add up to what the tiers have handed to the first `k`
/// constraints.
pub proof fn lemma_sum_is_handed_out(cs: Seq<Constraint>, available: int, k: int)
    requires
        0 <= k <= cs.len(),
    ensures
        sum_upto(resolved_lengths(cs, available), k) == handed_out(
            cs,
            tier_count(),
            available,
            k,
        ),
    decreases k,
{
    if k <= 0 {
        lemma_handed_out_nothing(cs, tier_count(), available);
    } else {
        lemma_sum_is_handed_out(cs, available, k - 1);
        lemma_handed_out_step(cs, tier_count(), available, k);
    }
}

/// The lengths of any first segments add up to no more than is there to divide,
/// and the sums grow with the number of segments.
pub proof fn lemma_sum_bounds(cs: Seq<Constraint>, available: int, j: int, k: int)
    requires
        0 <= available <= u16::MAX,
        0 <= j <= k <= cs.len(),
    ensures
        0 <= sum_upto(resolved_lengths(cs, available), j) <= sum_upto(
            resolved_lengths(cs, available),
            k,
        ) <= available,
{
    lemma_sum_grows(cs, available, 0, j);
    lemma_sum_grows(cs, available, j, k);
    lemma_sum_grows(cs, available, k, cs.len() as int);
    lemma_total_length(cs, available);
}

proof fn lemma_sum_grows(cs: Seq<Constraint>, available: int, j: int, k: int)
    requires
        0 <= available <= u16::MAX,
        0 <= j <= k <= cs.len(),
    ensures
        sum_upto(resolved_lengths(cs, available), j) <= sum_upto(
            resolved_lengths(cs, available),
            k,
        ),
    decreases k - j,
{
    if j < k {
        lemma_sum_grows(cs, available, j, k - 1);
        lemma_length_bounds(cs, available, k - 1);
    }
}

/// All lengths together add up to what was there to divide, less what the last
/// tier left over.
pub proof fn lemma_total_length(cs: Seq<Constraint>, available: int)
    requires
        0 <= available <= u16::MAX,
    ensures
        sum_upto(resolved_lengths(cs, available), cs.len() as int) == available - budget(
            cs,
            tier_count(),
            available,
        ),
        0 <= budget(cs, tier_count(), available) <= available,
{
    lemma_sum_is_handed_out(cs, available, cs.len() as int);
    lemma_handed_out_all(cs, tier_count(), available);
    lemma_budget_bounds(cs, tier_count(), available);
}

/// A tier other than tier 2 has a weight above zero exactly where one of its
/// constraints has.
pub proof fn lemma_total_weight_positive(cs: Seq<Constraint>, tier: int, available: int, k: int)
    requires
        0 <= available <= u16::MAX,
        0 <= k <= cs.len(),
        tier != 2,
    ensures
        prefix_weight(cs, tier, available, k) > 0 <==> exists|i: int|
            0 <= i < k && weight(#[trigger] cs[i], tier, available) > 0,
    decreases k,
{
    if k > 0 {
        lemma_total_weight_positive(cs, tier, available, k - 1);
        lemma_prefix_weight_bounds(cs, tier, available, k - 1, k);
        lemma_weight_bounds(cs[k - 1], tier, available);
        if weight(cs[k - 1], tier, available) > 0 {
        } else if prefix_weight(cs, tier, available, k - 1) > 0 {
            let i = choose|i: int| 0 <= i < k - 1 && weight(#[trigger] cs[i], tier, available) > 0;
            assert(0 <= i < k && weight(cs[i], tier, available) > 0);
        } else {
            assert forall|i: int| 0 <= i < k implies !(weight(#[trigger] cs[i], tier, available)
                > 0) by {
                if i < k - 1 {
                }
            }
        }
    }
}

/// How much the segments cover: all of `available` where a constraint takes the
/// rest or the tiers of fixed size ask for as much, and else what those tiers
/// ask for.
pub proof fn lemma_covered_length(cs: Seq<Constraint>, available: int)
    requires
        0 <= available <= u16::MAX,
    ensures
        sum_upto(resolved_lengths(cs, available), cs.len() as int) == if takes_the_rest(cs) {
            available
        } else {
            min_int(available, demand(cs, available))
        },
{
    lemma_total_length(cs, available);
    lemma_total_weight_positive(cs, 4, available, cs.len() as int);
    lemma_total_weight_positive(cs, 5, available, cs.len() as int);
    lemma_prefix_weight_bounds(cs, 0, available, 0, cs.len() as int);
    lemma_prefix_weight_bounds(cs, 1, available, 0, cs.len() as int);
    lemma_prefix_weight_bounds(cs, 2, available, 0, cs.len() as int);
    lemma_prefix_weight_bounds(cs, 3, available, 0, cs.len() as int);
    lemma_prefix_weight_bounds(cs, 4, available, 0, cs.len() as int);
    lemma_prefix_weight_bounds(cs, 5, available, 0, cs.len() as int);
    reveal_with_fuel(budget, 7);
    let grows = total_weight(cs, 4, available) > 0 || total_weight(cs, 5, available) > 0;
    if takes_the_rest(cs) {
        let i = choose|i: int|
            0 <= i < cs.len() && (#[trigger] cs[i] is Min || (cs[i] matches Constraint::Fill(w)
                && w > 0));
        assert(weight(cs[i], 4, available) > 0 || weight(cs[i], 5, available) > 0);
        assert(grows);
    } else {
        assert forall|i: int| 0 <= i < cs.len() implies !(weight(#[trigger] cs[i], 4, available)
            > 0) && !(weight(cs[i], 5, available) > 0) by {
            if weight(cs[i], 4, available) > 0 || weight(cs[i], 5, available) > 0 {
                assert(cs[i] is Min || (cs[i] matches Constraint::Fill(w) && w > 0));
            }
        }
        assert(!grows);
    }
}

/// A `Max(n)` segment is never longer than `n`.
pub proof fn lemma_max_respected(cs: Seq<Constraint>, available: int, i: int, n: u16)
    requires
        0 <= available <= u16::MAX,
        0 <= i < cs.len(),
        cs[i] == Constraint::Max(n),
    ensures
        0 <= resolved_length(cs, available, i) <= n,
{
    reveal_with_fuel(granted_below, 7);
    lemma_weight_at_bounds(cs, 2, available, i);
    lemma_budget_bounds(cs, 3, available);
    lemma_prefix_weight_bounds(cs, 3, available, 0, i);
    lemma_prefix_weight_bounds(cs, 3, available, 0, cs.len() as int);
    lemma_share_at_most_weight(
        spend(cs, 3, available),
        prefix_weight(cs, 3, available, i),
        n as int,
        total_weight(cs, 3, available),
    );
    lemma_length_bounds(cs, available, i);
}

/// A `Length(n)` segment is exactly `n` long wherever the bounds of the `Min`
/// constraints and the `Length` constraints together ask for no more than is
/// there to divide.
pub proof fn lemma_length_honoured(cs: Seq<Constraint>, available: int, i: int, n: u16)
    requires
        0 <= available <= u16::MAX,
        0 <= i < cs.len(),
        cs[i] == Constraint::Length(n),
        total_weight(cs, 0, available) + total_weight(cs, 1, available) <= available,
    ensures
        resolved_length(cs, available, i) == n,
{
    reveal_with_fuel(granted_below, 7);
    reveal_with_fuel(budget, 3);
    lemma_weight_at_bounds(cs, 2, available, i);
    lemma_prefix_weight_bounds(cs, 0, available, 0, cs.len() as int);
    lemma_prefix_weight_bounds(cs, 1, available, i, i + 1);
    lemma_prefix_weight_bounds(cs, 1, available, i + 1, cs.len() as int);
    let total = total_weight(cs, 1, available);
    if total > 0 {
        lemma_share_in_full(prefix_weight(cs, 1, available, i), n as int, total);
    }
}

/// A `Percentage` or `Ratio` segment is as long as its part of the whole,
/// rounded half to even, wherever the constraints `Min`, `Length`,
/// `Percentage` and `Ratio` together ask for no more than is there to divide;
/// the last of them is longer or shorter by what makes up for the rounding
/// errors.
pub proof fn lemma_part_honoured(cs: Seq<Constraint>, available: int, i: int)
    requires
        0 <= available <= u16::MAX,
        0 <= i < cs.len(),
        is_relative(cs[i]),
        total_weight(cs, 0, available) + total_weight(cs, 1, available) + total_weight(
            cs,
            2,
            available,
        ) <= available,
    ensures
        resolved_length(cs, available, i) == weight_at(cs, 2, available, i),
        i != last_relative(cs) ==> resolved_length(cs, available, i) == round_half_even(
            part_of(cs[i], available).0,
            part_of(cs[i], available).1,
        ),
        i == last_relative(cs) ==> resolved_length(cs, available, i) == max_int(
            0,
            round_half_even(part_of(cs[i], available).0, part_of(cs[i], available).1)
                + correction(cs, available),
        ),
{
    reveal_with_fuel(granted_below, 7);
    reveal_with_fuel(budget, 4);
    lemma_prefix_weight_bounds(cs, 0, available, 0, cs.len() as int);
    lemma_prefix_weight_bounds(cs, 1, available, 0, cs.len() as int);
    lemma_prefix_weight_bounds(cs, 2, available, i, i + 1);
    lemma_prefix_weight_bounds(cs, 2, available, i + 1, cs.len() as int);
    let total = total_weight(cs, 2, available);
    if total > 0 {
        lemma_share_in_full(
            prefix_weight(cs, 2, available, i),
            weight_at(cs, 2, available, i),
            total,
        );
    }
}

/// A `Min(n)` segment is at least `n` long wherever the bounds of the `Min`
/// constraints together fit what is there to divide: for a single `Min(n)`,
/// wherever `n` cells are there.
pub proof fn lemma_min_respected(cs: Seq<Constraint>, available: int, i: int, n: u16)
    requires
        0 <= available <= u16::MAX,
        0 <= i < cs.len(),
        cs[i] == Constraint::Min(n),
        total_weight(cs, 0, available) <= available,
    ensures
        n <= resolved_length(cs, available, i) <= available,
{
    reveal_with_fuel(granted_below, 7);
    reveal_with_fuel(budget, 2);
    lemma_weight_at_bounds(cs, 2, available, i);
    lemma_prefix_weight_bounds(cs, 0, available, i, i + 1);
    lemma_prefix_weight_bounds(cs, 0, available, i + 1, cs.len() as int);
    let total = total_weight(cs, 0, available);
    if total > 0 {
        lemma_share_in_full(prefix_weight(cs, 0, available, i), n as int, total);
    }
    lemma_grant_bounds(cs, 4, available, i);
    lemma_length_bounds(cs, available, i);
}

/// A `Fill(w)` segment differs by less than one cell from its exact part of what
/// the `Fill` tier finds: that part being `w` out of the sum of the weights.
pub proof fn lemma_fill_is_proportional(cs: Seq<Constraint>, available: int, i: int, w: u16)
    requires
        0 <= available <= u16::MAX,
        0 <= i < cs.len(),
        cs[i] == Constraint::Fill(w),
        total_weight(cs, 5, available) > 0,
    ensures
        ({
            let total = total_weight(cs, 5, available);
            let rest = budget(cs, 5, available);
            -total < resolved_length(cs, available, i) * total - rest * w < total
        }),
{
    reveal_with_fuel(granted_below, 7);
    lemma_weight_at_bounds(cs, 2, available, i);
    lemma_share_is_proportional(
        spend(cs, 5, available),
        prefix_weight(cs, 5, available, i),
        w as int,
        total_weight(cs, 5, available),
    );
}

/// Two `Fill` segments alone divide all of `available` between them, each within
/// less than one cell of its exact part by weight.
pub proof fn lemma_two_fills(w1: u16, w2: u16, available: int)
    requires
        0 <= available <= u16::MAX,
        w1 + w2 > 0,
    ensures
        ({
            let cs = seq![Constraint::Fill(w1), Constraint::Fill(w2)];
            let len1 = resolved_length(cs, available, 0);
            let len2 = resolved_length(cs, available, 1);
            &&& len1 + len2 == available
            &&& -(w1 + w2) < len1 * (w1 + w2) - available * w1 < w1 + w2
            &&& -(w1 + w2) < len2 * (w1 + w2) - available * w2 < w1 + w2
        }),
{
    let cs = seq![Constraint::Fill(w1), Constraint::Fill(w2)];
    reveal_with_fuel(prefix_weight, 3);
    reveal_with_fuel(budget, 7);
    reveal_with_fuel(sum_upto, 3);
    lemma_weight_at_bounds(cs, 2, available, 0);
    lemma_weight_at_bounds(cs, 2, available, 1);
    assert(total_weight(cs, 5, available) == w1 + w2);
    assert(budget(cs, 5, available) == available);
    lemma_fill_is_proportional(cs, available, 0, w1);
    lemma_fill_is_proportional(cs, available, 1, w2);
    lemma_total_length(cs, available);
}

/// The sum of the hundredths that the `Percentage` constraints among the first
/// `k` ask for.
pub open spec fn percent_upto(cs: Seq<Constraint>, k: int) -> int
    decreases k,
{
    if k <= 0 {
        0
    } else {
        percent_upto(cs, k - 1) + match cs[k - 1] {
            Constraint::Percentage(p) => p as int,
            _ => 0,
        }
    }
}

/// The sum of the rounded parts of the first `k` constraints.
pub open spec fn rounded_upto(cs: Seq<Constraint>, available: int, k: int) -> int
    decreases k,
{
    if k <= 0 {
        0
    } else {
        rounded_upto(cs, available, k - 1) + weight(cs[k - 1], 2, available)
    }
}

/// Where no `Ratio` is among them, the rounding errors of the first `k`
/// constraints are kept exactly: they add up to the rounded parts less the
/// exact parts.
proof fn lemma_percent_errors(cs: Seq<Constraint>, available: int, k: int)
    requires
        0 <= available <= u16::MAX,
        0 <= k <= cs.len(),
        forall|i: int| 0 <= i < k ==> !(#[trigger] cs[i] is Ratio),
    ensures
        error_upto(cs, available, k) == 0x200_0000 * (100 * rounded_upto(cs, available, k)
            - available * percent_upto(cs, k)),
    decreases k,
{
    if k > 0 {
        lemma_percent_errors(cs, available, k - 1);
        let c = cs[k - 1];
        let before_r = rounded_upto(cs, available, k - 1);
        let before_p = percent_upto(cs, k - 1);
        lemma_rounding_error_bounds(c, available);
        match c {
            Constraint::Percentage(p) => {
                let r = round_half_even(p * available, 100);
                let off = r * 100 - p * available;
                assert(off * fraction() == 100 * (off * 0x200_0000)) by (nonlinear_arith)
                    requires
                        fraction() == 0xc800_0000,
                ;
                assert((-off) * fraction() == 100 * ((-off) * 0x200_0000)) by (nonlinear_arith)
                    requires
                        fraction() == 0xc800_0000,
                ;
                assert(rounding_error(c, available) == off * 0x200_0000);
                assert(0x200_0000 * (100 * (before_r + r) - available * (before_p + p))
                    == 0x200_0000 * (100 * before_r - available * before_p) + off * 0x200_0000)
                    by (nonlinear_arith)
                    requires
                        off == r * 100 - p * available,
                ;
            },
            _ => {
                assert(is_relative(c) == false);
            },
        }
    }
}

/// The weights of tier 2 add up to no less than the rounded parts and what
/// makes up for their errors.
proof fn lemma_relative_total(cs: Seq<Constraint>, available: int, k: int)
    requires
        0 <= available <= u16::MAX,
        0 <= k <= cs.len(),
    ensures
        prefix_weight(cs, 2, available, k) >= rounded_upto(cs, available, k) + if 0
            <= last_relative(cs) < k {
            correction(cs, available)
        } else {
            0
        },
    decreases k,
{
    if k > 0 {
        lemma_relative_total(cs, available, k - 1);
    }
}

/// Percentages that add up to 100, with no `Ratio` beside them, ask for all
/// that is there to divide: the segments cover it with nothing left free.
pub proof fn lemma_percentages_make_a_whole(cs: Seq<Constraint>, available: int)
    requires
        0 <= available <= u16::MAX,
        forall|i: int| 0 <= i < cs.len() ==> !(#[trigger] cs[i] is Ratio),
        percent_upto(cs, cs.len() as int) == 100,
    ensures
        demand(cs, available) >= available,
        sum_upto(resolved_lengths(cs, available), cs.len() as int) == available,
{
    let n = cs.len() as int;
    lemma_percent_errors(cs, available, n);
    lemma_relative_total(cs, available, n);
    lemma_last_relative(cs, n);
    lemma_has_percentage(cs, n);
    let sum = rounded_upto(cs, available, n);
    let e = error_upto(cs, available, n);
    assert(e == fraction() * (sum - available)) by (nonlinear_arith)
        requires
            e == 0x200_0000 * (100 * sum - available * 100),
            fraction() == 0xc800_0000,
    ;
    assert(round_half_even_signed(e, fraction()) == sum - available) by {
        let m = sum - available;
        if m >= 0 {
            assert(0xc800_0000 * m / 0xc800_0000 == m);
            assert(0xc800_0000 * m % 0xc800_0000 == 0);
        } else {
            assert(-(0xc800_0000 * m) == 0xc800_0000 * (-m));
            assert(0xc800_0000 * (-m) / 0xc800_0000 == -m);
            assert(0xc800_0000 * (-m) % 0xc800_0000 == 0);
        }
    }
    lemma_prefix_weight_bounds(cs, 0, available, 0, n);
    lemma_prefix_weight_bounds(cs, 1, available, 0, n);
    lemma_prefix_weight_bounds(cs, 3, available, 0, n);
    lemma_covered_length(cs, available);
}

/// Where the first `k` constraints ask for hundredths, one of them is a
/// `Percentage`.
proof fn lemma_has_percentage(cs: Seq<Constraint>, k: int)
    requires
        0 <= k <= cs.len(),
        percent_upto(cs, k) > 0,
    ensures
        last_relative_upto(cs, k) >= 0,
    decreases k,
{
    if k > 0 {
        if cs[k - 1] is Percentage {
        } else {
            lemma_has_percentage(cs, k - 1);
        }
    }
}

/// The weight that a constraint has in a tier by itself.
fn tier_weight(c: Constraint, tier: u8, available: u16) -> (w: u64)
    ensures
        w == weight(c, tier as int, available as int),
        w <= 0xffff_ffff_ffff,
{
    proof {
        lemma_weight_bounds(c, tier as int, available as int);
    }
    match c {
        Constraint::Length(n) => if tier == 1 {
            n as u64
        } else {
            0
        },
        Constraint::Min(n) => if tier == 0 {
            n as u64
        } else if tier == 4 {
            1
        } else {
            0
        },
        Constraint::Percentage(p) => if tier == 2 {
            assert(p * available <= 0xffff * 0xffff) by (nonlinear_arith)
                requires
                    p <= 0xffff,
                    available <= 0xffff,
            ;
            round_half_even_div((p as u64) * (available as u64), 100)
        } else {
            0
        },
        Constraint::Ratio(num, den) => if tier == 2 && den != 0 {
            assert(num * available <= 0xffff_ffff * 0xffff) by (nonlinear_arith)
                requires
                    num <= 0xffff_ffff,
                    available <= 0xffff,
            ;
            round_half_even_div((num as u64) * (available as u64), den as u64)
        } else {
            0
        },
        Constraint::Max(n) => if tier == 3 {
            n as u64
        } else {
            0
        },
        Constraint::Fill(w) => if tier == 5 {
            w as u64
        } else {
            0
        },
    }
}

/// The part of `available` that a constraint asks for, before rounding.
fn exact_part(c: Constraint, available: u16) -> (part: (u64, u64))
    ensures
        part.0 == part_of(c, available as int).0,
        part.1 == part_of(c, available as int).1,
        part.0 <= 0xffff_ffff * 0xffff,
        0 < part.1 <= 0xffff_ffff,
{
    match c {
        Constraint::Percentage(p) => {
            assert(p * available <= 0xffff * 0xffff) by (nonlinear_arith)
                requires
                    p <= 0xffff,
                    available <= 0xffff,
            ;
            ((p as u64) * (available as u64), 100)
        },
        Constraint::Ratio(num, den) => if den != 0 {
            assert(num * available <= 0xffff_ffff * 0xffff) by (nonlinear_arith)
                requires
                    num <= 0xffff_ffff,
                    available <= 0xffff,
            ;
            ((num as u64) * (available as u64), den as u64)
        } else {
            (0, 1)
        },
        _ => (0, 1),
    }
}

/// The rounding error of a constraint.
fn error_of(c: Constraint, available: u16) -> (e: i64)
    ensures
        e == rounding_error(c, available as int),
        -0x6400_0000 <= e <= 0x6400_0000,
{
    let (num, den) = exact_part(c, available);
    let rounded = round_half_even_div(num, den);
    proof {
        lemma_round_half_even_nearest(num as int, den as int);
        lemma_rounding_error_bounds(c, available as int);
    }
    assert(rounded * den <= num + den) by (nonlinear_arith)
        requires
            2 * (rounded * den - num) <= den,
            den > 0,
    ;
    let back: u64 = rounded * den;
    if back >= num {
        let off: u64 = back - num;
        assert(off * 0xc800_0000 <= 0x7fff_ffff * 0xc800_0000) by (nonlinear_arith)
            requires
                2 * off <= den,
                den <= 0xffff_ffff,
        ;
        let size = round_half_even_div(off * 0xc800_0000, den);
        size as i64
    } else {
        let off: u64 = num - back;
        assert(off * 0xc800_0000 <= 0x7fff_ffff * 0xc800_0000) by (nonlinear_arith)
            requires
                2 * off <= den,
                den <= 0xffff_ffff,
        ;
        assert((back - num) * 0xc800_0000 == -(off * 0xc800_0000)) by (nonlinear_arith)
            requires
                off == num - back,
        ;
        let size = round_half_even_div(off * 0xc800_0000, den);
        -(size as i64)
    }
}

/// What makes up for the rounding errors of all constraints.
fn correction_of(constraints: &Vec<Constraint>, available: u16) -> (c: i128)
    ensures
        c == correction(constraints@, available as int),
        -constraints@.len() <= c <= constraints@.len(),
{
    let n = constraints.len();
    let mut sum: i128 = 0;
    let mut i: usize = 0;
    while i < n
        invariant
            n == constraints@.len(),
            0 <= i <= n,
            sum == error_upto(constraints@, available as int, i as int),
            -i * 0x6400_0000 <= sum <= i * 0x6400_0000,
        decreases n - i,
    {
        let e = error_of(constraints[i], available);
        sum = sum + e as i128;
        i = i + 1;
    }
    proof {
        lemma_correction_bounds(constraints@, available as int);
    }
    if sum >= 0 {
        let size = round_half_even_wide(sum as u128, 0xc800_0000);
        -(size as i128)
    } else {
        let size = round_half_even_wide((-sum) as u128, 0xc800_0000);
        size as i128
    }
}

/// The place of the last `Percentage` or `Ratio`; the number of constraints
/// where there is none.
fn last_relative_of(constraints: &Vec<Constraint>) -> (last: usize)
    ensures
        last_relative(constraints@) == if last < constraints@.len() {
            last as int
        } else {
            -1
        },
        last <= constraints@.len(),
{
    let n = constraints.len();
    let mut last: usize = n;
    let mut i: usize = 0;
    while i < n
        invariant
            n == constraints@.len(),
            0 <= i <= n,
            last == n || last < i,
            last_relative_upto(constraints@, i as int) == if last < n {
                last as int
            } else {
                -1
            },
        decreases n - i,
    {
        match constraints[i] {
            Constraint::Percentage(_) => {
                last = i;
            },
            Constraint::Ratio(_, den) => {
                if den != 0 {
                    last = i;
                }
            },
            _ => {},
        }
        i = i + 1;
    }
    last
}

/// What the weights of a tier depend on beside the constraint itself: the place
/// of the last `Percentage` or `Ratio`, and what it takes on itself.
struct Rounding {
    last: usize,
    correction: i128,
}

impl Rounding {
    spec fn of(self, cs: Seq<Constraint>, available: int) -> bool {
        &&& self.last <= cs.len()
        &&& last_relative(cs) == if self.last < cs.len() {
            self.last as int
        } else {
            -1
        }
        &&& self.correction == correction(cs, available)
    }
}

/// The weight with which constraint `i` takes part in a tier.
fn weight_of(
    constraints: &Vec<Constraint>,
    i: usize,
    tier: u8,
    available: u16,
    rounding: &Rounding,
) -> (w: u128)
    requires
        i < constraints@.len(),
        rounding.of(constraints@, available as int),
    ensures
        w == weight_at(constraints@, tier as int, available as int, i as int),
{
    let n = constraints.len();
    let own = tier_weight(constraints[i], tier, available);
    proof {
        lemma_correction_bounds(constraints@, available as int);
    }
    assert(-n <= rounding.correction <= n);
    if tier == 2 && i == rounding.last {
        let corrected: i128 = own as i128 + rounding.correction;
        if corrected < 0 {
            0
        } else {
            corrected as u128
        }
    } else {
        own as u128
    }
}

/// The sum of the weights that the constraints have in a tier.
fn tier_total(
    constraints: &Vec<Constraint>,
    tier: u8,
    available: u16,
    rounding: &Rounding,
) -> (total: u128)
    requires
        rounding.of(constraints@, available as int),
    ensures
        total == total_weight(constraints@, tier as int, available as int),
        total <= constraints@.len() * 0x1_0000_0000_0000,
{
    let n = constraints.len();
    let mut total: u128 = 0;
    let mut i: usize = 0;
    while i < n
        invariant
            n == constraints@.len(),
            0 <= i <= n,
            rounding.of(constraints@, available as int),
            total == prefix_weight(constraints@, tier as int, available as int, i as int),
            total <= i * 0xffff_ffff_ffff + n,
        decreases n - i,
    {
        let w = weight_of(constraints, i, tier, available, rounding);
        proof {
            lemma_prefix_weight_bounds(
                constraints@,
                tier as int,
                available as int,
                i as int + 1,
                i as int + 1,
            );
        }
        total = total + w;
        i = i + 1;
    }
    total
}

/// Hands out one tier: adds to every length what its constraint receives in the
/// tier, and returns what the tier took out of the budget.
fn grant_tier(
    constraints: &Vec<Constraint>,
    tier: u8,
    available: u16,
    remaining: u16,
    rounding: &Rounding,
    lengths: &mut Vec<u16>,
) -> (spent: u16)
    requires
        tier < 6,
        rounding.of(constraints@, available as int),
        old(lengths)@.len() == constraints@.len(),
        remaining == budget(constraints@, tier as int, available as int),
        forall|i: int|
            0 <= i < constraints@.len() ==> #[trigger] old(lengths)@[i] == granted_below(
                constraints@,
                tier as int,
                available as int,
                i,
            ),
        forall|i: int|
            0 <= i < constraints@.len() ==> #[trigger] old(lengths)@[i] + remaining <= available,
    ensures
        final(lengths)@.len() == constraints@.len(),
        spent == spend(constraints@, tier as int, available as int),
        spent <= remaining,
        forall|i: int|
            0 <= i < constraints@.len() ==> #[trigger] final(lengths)@[i] == granted_below(
                constraints@,
                tier + 1,
                available as int,
                i,
            ),
        forall|i: int|
            0 <= i < constraints@.len() ==> #[trigger] final(lengths)@[i] + (remaining - spent)
                <= available,
{
    let n = constraints.len();
    let total = tier_total(constraints, tier, available, rounding);
    let spent: u16 = if tier >= 4 {
        if total > 0 {
            remaining
        } else {
            0
        }
    } else if total < remaining as u128 {
        total as u16
    } else {
        remaining
    };
    let ghost cs = constraints@;
    let ghost t = tier as int;
    let ghost a = available as int;
    proof {
        lemma_prefix_weight_bounds(cs, t, a, 0, n as int);
        lemma_budget_bounds(cs, t, a);
    }
    let mut prefix: u128 = 0;
    let mut boundary: u128 = 0;
    let mut i: usize = 0;
    while i < n
        invariant
            tier < 6,
            cs == constraints@,
            t == tier as int,
            a == available as int,
            n == cs.len(),
            rounding.of(cs, a),
            lengths@.len() == n,
            0 <= i <= n,
            spent <= remaining,
            remaining <= available,
            spent == spend(cs, t, a),
            total == total_weight(cs, t, a),
            total <= n * 0x1_0000_0000_0000,
            prefix == prefix_weight(cs, t, a, i as int),
            boundary == portion(spent as int, prefix as int, total as int),
            boundary <= spent,
            forall|j: int|
                0 <= j < i ==> #[trigger] lengths@[j] == granted_below(cs, t + 1, a, j),
            forall|j: int| i <= j < n ==> #[trigger] lengths@[j] == granted_below(cs, t, a, j),
            forall|j: int| 0 <= j < i ==> #[trigger] lengths@[j] + (remaining - spent) <= a,
            forall|j: int| i <= j < n ==> #[trigger] lengths@[j] + remaining <= a,
        decreases n - i,
    {
        let w = weight_of(constraints, i, tier, available, rounding);
        proof {
            lemma_prefix_weight_bounds(cs, t, a, i as int + 1, n as int);
            lemma_share_bounds(spent as int, prefix as int, w as int, total as int);
        }
        let next_prefix: u128 = prefix + w;
        assert(spent * next_prefix <= 0xffff * (0xffff_ffff_ffff_ffff * 0x1_0000_0000_0000))
            by (nonlinear_arith)
            requires
                spent <= 0xffff,
                next_prefix <= n * 0x1_0000_0000_0000,
                n <= 0xffff_ffff_ffff_ffff,
        ;
        let next_boundary: u128 = if total == 0 {
            0
        } else {
            (spent as u128 * next_prefix) / total
        };
        let step: u128 = next_boundary - boundary;
        let length: u16 = lengths[i] + step as u16;
        lengths.set(i, length);
        prefix = next_prefix;
        boundary = next_boundary;
        i = i + 1;
    }
    spent
}

/// Resolves the constraints into the lengths of their segments, `available`
/// cells being there to divide. No more than `available` is handed out.
pub fn resolve(constraints: &Vec<Constraint>, available: u16) -> (lengths: Vec<u16>)
    ensures
        lengths@.len() == constraints@.len(),
        forall|i: int|
            0 <= i < lengths@.len() ==> #[trigger] lengths@[i] == resolved_length(
                constraints@,
                available as int,
                i,
            ),
{
    let n = constraints.len();
    let rounding = Rounding {
        last: last_relative_of(constraints),
        correction: correction_of(constraints, available),
    };
    let mut lengths: Vec<u16> = Vec::new();
    let mut i: usize = 0;
    while i < n
        invariant
            0 <= i <= n,
            lengths@.len() == i,
            forall|j: int| 0 <= j < i ==> #[trigger] lengths@[j] == 0,
        decreases n - i,
    {
        lengths.push(0);
        i = i + 1;
    }
    let mut remaining: u16 = available;
    let mut tier: u8 = 0;
    while tier < 6
        invariant
            0 <= tier <= 6,
            n == constraints@.len(),
            lengths@.len() == n,
            rounding.of(constraints@, available as int),
            remaining == budget(constraints@, tier as int, available as int),
            forall|j: int|
                0 <= j < n ==> #[trigger] lengths@[j] == granted_below(
                    constraints@,
                    tier as int,
                    available as int,
                    j,
                ),
            forall|j: int| 0 <= j < n ==> #[trigger] lengths@[j] + remaining <= available,
        decreases 6 - tier,
    {
        let spent = grant_tier(constraints, tier, available, remaining, &rounding, &mut lengths);
        remaining = remaining - spent;
        tier = tier + 1;
    }
    lengths
}

} // verus!
