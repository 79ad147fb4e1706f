//! Byte lanes: a number cut into 8-bit pieces, and the ways of adding up what
//! each piece contributes. The total does not depend on the order or the
//! grouping of the additions.

use crate::bits::{lemma_popcount_split, popcount};
use vstd::arithmetic::div_mod::{lemma_div_denominator, lemma_fundamental_div_mod};
use vstd::arithmetic::power2::{lemma2_to64, lemma_pow2_adds, lemma_pow2_pos, pow2};
use vstd::prelude::*;

verus! {

/// Lane `j` of `value`: its bits `8j` to `8j + 7`, as a number below 256.
pub open spec fn lane(value: nat, j: nat) -> nat {
    (value / pow2(8 * j)) % 256
}

/// The lowest `count` lanes of `value`, lowest lane first.
pub open spec fn lanes_le(value: nat, count: nat) -> Seq<u8> {
    Seq::new(count, |j: int| lane(value, j as nat) as u8)
}

/// The set-bit count of each lane.
pub open spec fn lane_counts(lanes: Seq<u8>) -> Seq<nat> {
    Seq::new(lanes.len(), |j: int| popcount(lanes[j] as nat))
}

/// The terms added from left to right: `((t0 + t1) + t2) + ...`.
pub open spec fn sum_left(terms: Seq<nat>) -> nat
    decreases terms.len(),
{
    if terms.len() == 0 {
        0
    } else {
        sum_left(terms.drop_last()) + terms.last()
    }
}

/// The terms added from right to left: `t0 + (t1 + (t2 + ...))`.
pub open spec fn sum_right(terms: Seq<nat>) -> nat
    decreases terms.len(),
{
    if terms.len() == 0 {
        0
    } else {
        terms.first() + sum_right(terms.drop_first())
    }
}

/// The terms added pairwise, as a balanced tree: each half is added up by
/// itself, and the two totals are added.
pub open spec fn sum_pairwise(terms: Seq<nat>) -> nat
    decreases terms.len(),
{
    if terms.len() == 0 {
        0
    } else if terms.len() == 1 {
        terms[0]
    } else {
        let half = terms.len() as int / 2;
        sum_pairwise(terms.take(half)) + sum_pairwise(terms.skip(half))
    }
}

/// Adding up a concatenation from the left is adding up its two parts.
pub proof fn lemma_sum_left_concat(front: Seq<nat>, back: Seq<nat>)
    ensures
        sum_left(front + back) == sum_left(front) + sum_left(back),
    decreases back.len(),
{
    if back.len() == 0 {
        assert(front + back =~= front);
    } else {
        assert((front + back).drop_last() =~= front + back.drop_last());
        lemma_sum_left_concat(front, back.drop_last());
    }
}

/// A single term is its own total, whichever way it is added up.
pub proof fn lemma_sum_single(terms: Seq<nat>)
    requires
        terms.len() == 1,
    ensures
        sum_left(terms) == terms[0],
        sum_right(terms) == terms[0],
        sum_pairwise(terms) == terms[0],
{
    reveal_with_fuel(sum_left, 2);
    reveal_with_fuel(sum_right, 2);
    assert(terms.drop_last().len() == 0);
    assert(terms.drop_first().len() == 0);
}

/// Summing the lanes from left to right, from right to left, or pairwise
/// gives the same total.
pub proof fn lemma_sums_agree(terms: Seq<nat>)
    ensures
        sum_right(terms) == sum_left(terms),
        sum_pairwise(terms) == sum_left(terms),
    decreases terms.len(),
{
    if terms.len() == 0 {
    } else if terms.len() == 1 {
        lemma_sum_single(terms);
    } else {
        let half = terms.len() as int / 2;
        lemma_sums_agree(terms.take(half));
        lemma_sums_agree(terms.skip(half));
        lemma_sum_left_concat(terms.take(half), terms.skip(half));
        assert(terms.take(half) + terms.skip(half) =~= terms);

        let head = seq![terms.first()];
        lemma_sums_agree(terms.drop_first());
        lemma_sum_left_concat(head, terms.drop_first());
        assert(head + terms.drop_first() =~= terms);
        lemma_sum_single(head);
    }
}

/// Reversing the order of the lanes does not change the total.
pub proof fn lemma_sum_reverse(terms: Seq<nat>)
    ensures
        sum_left(terms.reverse()) == sum_left(terms),
    decreases terms.len(),
{
    if terms.len() > 0 {
        let rest = terms.drop_first();
        assert(terms.reverse().drop_last() =~= rest.reverse());
        assert(terms.reverse().last() == terms.first());
        lemma_sum_reverse(rest);
        lemma_sums_agree(terms);
        lemma_sums_agree(rest);
    }
}

/// The lanes of a number, counted one by one, account for every set bit of
/// it: the counts of the lowest `count` lanes of a number below `2^(8 count)`
/// add up to the count of the number.
pub proof fn lemma_lanes_count(value: nat, count: nat)
    requires
        value < pow2(8 * count),
    ensures
        sum_left(lane_counts(lanes_le(value, count))) == popcount(value),
    decreases count,
{
    lemma2_to64();
    let terms = lane_counts(lanes_le(value, count));
    lemma_sums_agree(terms);
    if count == 0 {
    } else {
        let rest = (count - 1) as nat;
        let upper = value / 256;
        lemma_pow2_adds(8, 8 * rest);
        lemma_pow2_pos(8 * rest);
        assert(upper < pow2(8 * rest)) by (nonlinear_arith)
            requires
                value < 256 * pow2(8 * rest),
                upper == value / 256,
        ;
        assert forall|j: int| 0 <= j < rest implies lane(value, (j + 1) as nat) == #[trigger] lane(
            upper,
            j as nat,
        ) by {
            lemma_pow2_adds(8, 8 * (j as nat));
            lemma_pow2_pos(8 * (j as nat));
            lemma_div_denominator(value as int, 256, pow2(8 * (j as nat)) as int);
        }
        assert(terms.drop_first() =~= lane_counts(lanes_le(upper, rest)));
        lemma_lanes_count(upper, rest);
        lemma_sums_agree(terms.drop_first());
        lemma_fundamental_div_mod(value as int, 256);
        lemma_popcount_split(value % 256, upper, 8);
        assert(terms.first() == popcount(value % 256)) by {
            let unit = pow2(8 * 0);
            assert(value / unit == value) by (nonlinear_arith)
                requires
                    unit == 1,
            ;
            assert(lane(value, 0) == value % 256);
            assert(lanes_le(value, count)[0] == lane(value, 0) as u8);
        }
    }
}

} // verus!
