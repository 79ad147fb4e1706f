//! Counting strategies that consult a table: one lookup in the table over the
//! whole domain, or one lookup per byte lane in the small table.

use crate::bits::{lemma_popcount_bound, popcount};
use crate::lanes::{
    lane_counts, lanes_le, lemma_lanes_count, lemma_sum_reverse, lemma_sums_agree, sum_left,
    sum_pairwise,
};
use crate::platform::{is_native_order, ne_bytes_u16, ne_bytes_u32, ne_bytes_u64};
use crate::sample::Sample;
use crate::table::{FullTable, SmallTable};
use vstd::arithmetic::power2::{lemma2_to64, lemma2_to64_rest, pow2};
use vstd::prelude::*;

verus! {

/// Direct full-table lookup: the sample's value is the index. The table
/// must have been built for the width of the sample.
pub fn count_ones_memo_0(table: &FullTable, num: Sample) -> (count: u8)
    requires
        table.spec_width() == num.spec_width(),
    ensures
        count == popcount(num@),
        count == table@[num@ as int],
{
    table.get(num.value())
}

/// The small table's entry for one byte lane.
pub fn count_ones_memo_small(table: &SmallTable, num: u8) -> (count: u8)
    ensures
        count == popcount(num as nat),
        count == table@[num as int],
{
    table.get(num)
}

/// The counts of byte lanes in machine order, whichever order that is, add
/// up to the count of the number they were cut from.
pub proof fn lemma_native_lanes(bytes: Seq<u8>, value: nat, count: nat)
    requires
        is_native_order(bytes, value, count),
        value < pow2(8 * count),
    ensures
        sum_left(lane_counts(bytes)) == popcount(value),
        sum_pairwise(lane_counts(bytes)) == popcount(value),
{
    let ordered = lanes_le(value, count);
    lemma_lanes_count(value, count);
    if bytes != ordered {
        assert(lane_counts(bytes) =~= lane_counts(ordered).reverse());
        lemma_sum_reverse(lane_counts(ordered));
    }
    lemma_sums_agree(lane_counts(bytes));
}

/// Adds up the small-table entries of the given byte lanes, left to right.
fn sum_lanes(table: &SmallTable, bytes: &[u8]) -> (total: u8)
    requires
        bytes@.len() <= 8,
    ensures
        total == sum_left(lane_counts(bytes@)),
{
    let mut total: u8 = 0;
    let mut j: usize = 0;
    while j < bytes.len()
        invariant
            j <= bytes@.len() <= 8,
            total == sum_left(lane_counts(bytes@).take(j as int)),
            total <= 8 * j,
        decreases bytes@.len() - j,
    {
        proof {
            let terms = lane_counts(bytes@);
            assert(terms.take(j + 1).drop_last() =~= terms.take(j as int));
            assert(terms.take(j + 1).last() == terms[j as int]);
            lemma2_to64();
            lemma_popcount_bound(bytes@[j as int] as nat, 8);
        }
        total += count_ones_memo_small(table, bytes[j]);
        j += 1;
    }
    proof {
        assert(lane_counts(bytes@).take(j as int) =~= lane_counts(bytes@));
    }
    total
}

/// Byte-decomposed lookup: the sample is split into the byte lanes of its
/// width, each lane is looked up in the small table, and the entries are
/// added up from left to right.
pub fn count_ones_memo_1(table: &SmallTable, num: Sample) -> (count: u8)
    ensures
        count == popcount(num@),
        count == sum_left(lane_counts(lanes_le(num@, num.spec_width().spec_lanes() as nat))),
{
    proof {
        lemma2_to64();
        lemma_lanes_count(num@, num.spec_width().spec_lanes() as nat);
    }
    match num {
        Sample::W16(value) => {
            let bytes: [u8; 2] = ne_bytes_u16(value);
            proof {
                lemma_native_lanes(bytes@, value as nat, 2);
            }
            sum_lanes(table, bytes.as_slice())
        },
        Sample::W32(value) => {
            let bytes: [u8; 4] = ne_bytes_u32(value);
            proof {
                lemma_native_lanes(bytes@, value as nat, 4);
            }
            sum_lanes(table, bytes.as_slice())
        },
    }
}

/// Byte-decomposed lookup, unrolled: the sample is widened to 64 bits, its
/// eight lanes are looked up in the small table, and the entries are added in
/// a fixed tree: neighbours first, then pairs of pairs.
pub fn count_ones_memo_2(table: &SmallTable, num: Sample) -> (count: u8)
    ensures
        count == popcount(num@),
        count == sum_pairwise(lane_counts(lanes_le(num@, 8))),
{
    let value: u32 = num.value();
    let lanes: [u8; 8] = ne_bytes_u64(value as u64);
    proof {
        lemma2_to64();
        lemma2_to64_rest();
        lemma_native_lanes(lanes@, value as nat, 8);
        lemma_lanes_count(value as nat, 8);
        lemma_sums_agree(lane_counts(lanes_le(value as nat, 8)));
        lemma_pairwise_of_eight(lane_counts(lanes@));
        assert forall|j: int| 0 <= j < 8 implies #[trigger] lane_counts(lanes@)[j] == popcount(
            lanes@[j] as nat,
        ) && lane_counts(lanes@)[j] <= 8 by {
            lemma_popcount_bound(lanes@[j] as nat, 8);
        }
    }
    let a: u8 = count_ones_memo_small(table, lanes[0]) + count_ones_memo_small(table, lanes[1]);
    let b: u8 = count_ones_memo_small(table, lanes[2]) + count_ones_memo_small(table, lanes[3]);
    let c: u8 = count_ones_memo_small(table, lanes[4]) + count_ones_memo_small(table, lanes[5]);
    let d: u8 = count_ones_memo_small(table, lanes[6]) + count_ones_memo_small(table, lanes[7]);
    (a + b) + (c + d)
}

/// The pairwise sum of eight terms, written out.
proof fn lemma_pairwise_of_eight(terms: Seq<nat>)
    requires
        terms.len() == 8,
    ensures
        sum_pairwise(terms) == ((terms[0] + terms[1]) + (terms[2] + terms[3])) + ((terms[4]
            + terms[5]) + (terms[6] + terms[7])),
{
    let low = terms.take(4);
    let high = terms.skip(4);
    lemma_pairwise_of_two(low.take(2));
    lemma_pairwise_of_two(low.skip(2));
    lemma_pairwise_of_two(high.take(2));
    lemma_pairwise_of_two(high.skip(2));
    assert(sum_pairwise(low) == sum_pairwise(low.take(2)) + sum_pairwise(low.skip(2)));
    assert(sum_pairwise(high) == sum_pairwise(high.take(2)) + sum_pairwise(high.skip(2)));
}

/// The pairwise sum of two terms is their sum.
proof fn lemma_pairwise_of_two(terms: Seq<nat>)
    requires
        terms.len() == 2,
    ensures
        sum_pairwise(terms) == terms[0] + terms[1],
{
    assert(sum_pairwise(terms.take(1)) == terms[0]);
    assert(sum_pairwise(terms.skip(1)) == terms[1]);
}

} // verus!
