//! Split arithmetic: dividing a total across weighted recipients in basis
//! points, with an explicit overflow check instead of wrapping, and the
//! rounding-loss bound that settlement relies on.

use vstd::prelude::*;
use vstd::arithmetic::div_mod::{
    lemma_div_by_multiple, lemma_div_nonincreasing, lemma_fundamental_div_mod, lemma_mod_bound,
};
use vstd::arithmetic::mul::{
    lemma_mul_is_distributive_add, lemma_mul_nonnegative, lemma_mul_upper_bound,
};

use crate::errors::UnikError;
use crate::records::Split;

verus! {

/// Basis points in a whole: 10000 = 100%.
pub const BPS_DENOMINATOR: u64 = 10000;

/// The share of `total` that `weight_bps` basis points select, rounded down.
pub open spec fn spec_split(total: u64, weight_bps: u16) -> int {
    (total * weight_bps) / (BPS_DENOMINATOR as int)
}

/// `floor(total * weight_bps / 10000)`, computed with a 128-bit
/// intermediate so the multiply itself never wraps.
///
/// Rejects with `Overflow`, rather than truncating, exactly when the
/// product `total * weight_bps` cannot be held losslessly in 64 bits
/// before the division.
pub fn compute_split(total: u64, weight_bps: u16) -> (r: Result<u64, UnikError>)
    ensures
        match r {
            Ok(v) => total * weight_bps <= u64::MAX && v == spec_split(total, weight_bps),
            Err(e) => e == UnikError::Overflow && total * weight_bps > u64::MAX,
        },
{
    proof {
        lemma_mul_upper_bound(total as int, u64::MAX as int, weight_bps as int, u16::MAX as int);
    }
    let product: u128 = (total as u128) * (weight_bps as u128);
    if product > u64::MAX as u128 {
        Err(UnikError::Overflow)
    } else {
        proof {
            lemma_div_nonincreasing(product as int, BPS_DENOMINATOR as int);
        }
        Ok((product / (BPS_DENOMINATOR as u128)) as u64)
    }
}

/// The sum of a split list's weights, in basis points.
pub open spec fn sum_weights(splits: Seq<Split>) -> int
    decreases splits.len(),
{
    if splits.len() == 0 {
        0
    } else {
        splits[0].percentage + sum_weights(splits.drop_first())
    }
}

/// The sum of the shares that `spec_split` assigns each split of `total`.
pub open spec fn sum_split_amounts(total: u64, splits: Seq<Split>) -> int
    decreases splits.len(),
{
    if splits.len() == 0 {
        0
    } else {
        spec_split(total, splits[0].percentage) + sum_split_amounts(total, splits.drop_first())
    }
}

/// Floor division almost distributes over addition: splitting a numerator
/// in two loses at most one unit.
proof fn lemma_div_add_pair(a: int, b: int, d: int)
    requires
        0 <= a,
        0 <= b,
        0 < d,
    ensures
        a / d + b / d <= (a + b) / d,
        (a + b) / d <= a / d + b / d + 1,
{
    let qa = a / d;
    let qb = b / d;
    let qab = (a + b) / d;
    let ra = a % d;
    let rb = b % d;
    let rab = (a + b) % d;
    lemma_fundamental_div_mod(a, d);
    lemma_fundamental_div_mod(b, d);
    lemma_fundamental_div_mod(a + b, d);
    lemma_mod_bound(a, d);
    lemma_mod_bound(b, d);
    lemma_mod_bound(a + b, d);
    assert(0 <= qab - qa - qb <= 1) by (nonlinear_arith)
        requires
            0 < d,
            a == d * qa + ra,
            b == d * qb + rb,
            a + b == d * qab + rab,
            0 <= ra < d,
            0 <= rb < d,
            0 <= rab < d,
    ;
}

/// Summing weights from position `i` on takes one step of the head
/// recursion.
pub proof fn lemma_sum_weights_skip(splits: Seq<Split>, i: int)
    requires
        0 <= i < splits.len(),
    ensures
        sum_weights(splits.skip(i)) == splits[i].percentage + sum_weights(splits.skip(i + 1)),
{
    assert(splits.skip(i).drop_first() =~= splits.skip(i + 1));
    assert(splits.skip(i)[0] == splits[i]);
}

/// Weight sums are never negative.
proof fn lemma_sum_weights_nonneg(splits: Seq<Split>)
    ensures
        sum_weights(splits) >= 0,
    decreases splits.len(),
{
    if splits.len() > 0 {
        lemma_sum_weights_nonneg(splits.drop_first());
    }
}

/// The summed shares stay within the share the summed weights select, and
/// fall short of it by less than one unit per split.
proof fn lemma_split_sum_general(total: u64, splits: Seq<Split>)
    ensures
        sum_split_amounts(total, splits) <= (total * sum_weights(splits)) / (
        BPS_DENOMINATOR as int),
        (total * sum_weights(splits)) / (BPS_DENOMINATOR as int) - sum_split_amounts(
            total,
            splits,
        ) <= if splits.len() == 0 {
            0int
        } else {
            splits.len() - 1
        },
    decreases splits.len(),
{
    if splits.len() == 0 {
        assert((total * 0) / (BPS_DENOMINATOR as int) == 0);
    } else {
        let rest = splits.drop_first();
        let w0 = splits[0].percentage as int;
        lemma_split_sum_general(total, rest);
        lemma_sum_weights_nonneg(rest);
        lemma_mul_is_distributive_add(total as int, w0, sum_weights(rest));
        lemma_mul_nonnegative(total as int, w0);
        lemma_mul_nonnegative(total as int, sum_weights(rest));
        lemma_div_add_pair(total * w0, total * sum_weights(rest), BPS_DENOMINATOR as int);
    }
}

/// For every total and every weight list summing to exactly 10000 basis
/// points, the computed shares sum to at most the total, and floor
/// rounding loses at most `len - 1` units; the remainder stays with the
/// payer.
pub proof fn lemma_split_sum_within_total(total: u64, splits: Seq<Split>)
    requires
        sum_weights(splits) == 10000,
    ensures
        sum_split_amounts(total, splits) <= total,
        total - sum_split_amounts(total, splits) <= splits.len() - 1,
{
    lemma_split_sum_general(total, splits);
    lemma_div_by_multiple(total as int, BPS_DENOMINATOR as int);
    assert(total * sum_weights(splits) == total * (BPS_DENOMINATOR as int));
}

} // verus!
