//! What holds of the strategies taken together. Each law speaks of the
//! functions themselves: `call_ensures(f, args, r)` says that `r` is a result
//! that a call of `f` on `args` can return.

use crate::algorithm::{count_ones_by, AlgorithmId, Tables};
use crate::bits::{lemma_popcount_all_ones, lemma_popcount_pow2, popcount};
use crate::inplace::{
    count_ones_inplace_0, count_ones_inplace_1, count_ones_inplace_2, count_ones_inplace_3,
    count_ones_inplace_4, count_ones_inplace_5, count_ones_inplace_naive, inbuilt_count_ones,
};
use crate::lanes::{
    lane_counts, lanes_le, lemma_lanes_count, lemma_sum_reverse, lemma_sums_agree, sum_left,
    sum_pairwise, sum_right,
};
use crate::lookup::{count_ones_memo_0, count_ones_memo_1, count_ones_memo_2};
use crate::sample::{Sample, Width};
use crate::table::{
    is_popcount_table, lemma_popcount_table_unique, FullTable, SmallTable, SMALL_TABLE_BITS,
};
use vstd::arithmetic::power2::lemma2_to64;
use vstd::prelude::*;

verus! {

/// Agreement with the reference: whatever a strategy returns for a sample
/// is what the processor's population count returns for it.
pub proof fn lemma_strategy_agrees_with_primitive(
    id: AlgorithmId,
    tables: &Tables,
    num: Sample,
    count: u8,
    primitive: u8,
)
    requires
        call_ensures(count_ones_by, (id, tables, num), Some(count)),
        call_ensures(inbuilt_count_ones, (num,), primitive),
    ensures
        count == primitive,
        count == popcount(num@),
{
}

/// Agreement with the reference, function by function: on one sample, with
/// a full table of the sample's width, the ten strategies of the library and
/// the processor's population count all return the same number.
pub proof fn lemma_every_strategy_agrees(
    num: Sample,
    small: &SmallTable,
    full: &FullTable,
    naive: u8,
    scan: u8,
    early: u8,
    kernighan: u8,
    closed: u8,
    subtract: u8,
    mask: u8,
    direct: u8,
    bytewise: u8,
    unrolled: u8,
    primitive: u8,
)
    requires
        full.spec_width() == num.spec_width(),
        call_ensures(count_ones_inplace_naive, (num,), naive),
        call_ensures(count_ones_inplace_0, (num,), scan),
        call_ensures(count_ones_inplace_1, (num,), early),
        call_ensures(count_ones_inplace_2, (num,), kernighan),
        call_ensures(count_ones_inplace_3, (num,), closed),
        call_ensures(count_ones_inplace_4, (num,), subtract),
        call_ensures(count_ones_inplace_5, (num,), mask),
        call_ensures(count_ones_memo_0, (full, num), direct),
        call_ensures(count_ones_memo_1, (small, num), bytewise),
        call_ensures(count_ones_memo_2, (small, num), unrolled),
        call_ensures(inbuilt_count_ones, (num,), primitive),
    ensures
        naive == primitive,
        scan == primitive,
        early == primitive,
        kernighan == primitive,
        closed == primitive,
        subtract == primitive,
        mask == primitive,
        direct == primitive,
        bytewise == primitive,
        unrolled == primitive,
{
}

/// Idempotence: counting the same sample twice by the same strategy, with
/// the same tables, gives the same answer both times.
pub proof fn lemma_counting_twice(
    id: AlgorithmId,
    tables: &Tables,
    num: Sample,
    first: Option<u8>,
    second: Option<u8>,
)
    requires
        call_ensures(count_ones_by, (id, tables, num), first),
        call_ensures(count_ones_by, (id, tables, num), second),
    ensures
        first == second,
{
}

/// The boundary cases of a width: no bit set, every bit set, and only the
/// highest bit set.
pub open spec fn is_boundary_count(num: Sample, count: nat) -> bool {
    &&& num@ == 0 ==> count == 0
    &&& num@ == num.spec_width().spec_max_value() ==> count == num.spec_width().spec_bits()
    &&& num@ == (num.spec_width().spec_max_value() + 1) / 2 ==> count == 1
}

/// Boundary cases: by every strategy the sample 0 counts 0, the sample with
/// all bits of its width set counts the width, and the sample with only the
/// highest bit set counts 1.
pub proof fn lemma_boundary_counts(id: AlgorithmId, tables: &Tables, num: Sample, count: u8)
    requires
        call_ensures(count_ones_by, (id, tables, num), Some(count)),
    ensures
        is_boundary_count(num, count as nat),
{
    lemma_boundary_popcounts(num.spec_width());
}

/// The counts of the three boundary values of a width.
pub proof fn lemma_boundary_popcounts(width: Width)
    ensures
        popcount(0) == 0,
        popcount(width.spec_max_value() as nat) == width.spec_bits(),
        popcount(((width.spec_max_value() + 1) / 2) as nat) == 1,
{
    lemma2_to64();
    match width {
        Width::W16 => {
            lemma_popcount_all_ones(16);
            lemma_popcount_pow2(15);
        },
        Width::W32 => {
            lemma_popcount_all_ones(32);
            lemma_popcount_pow2(31);
        },
    }
}

/// Associativity of the byte-decomposed lookup: the lane counts of a sample
/// add up to the same total from left to right, from right to left, pairwise,
/// and with the lanes in the opposite order; and that total is the count of
/// the sample.
pub proof fn lemma_lane_sums_agree(num: Sample)
    ensures
        ({
            let counts = lane_counts(lanes_le(num@, num.spec_width().spec_lanes() as nat));
            &&& sum_left(counts) == popcount(num@)
            &&& sum_right(counts) == popcount(num@)
            &&& sum_pairwise(counts) == popcount(num@)
            &&& sum_left(counts.reverse()) == popcount(num@)
        }),
{
    let counts = lane_counts(lanes_le(num@, num.spec_width().spec_lanes() as nat));
    lemma2_to64();
    lemma_lanes_count(num@, num.spec_width().spec_lanes() as nat);
    lemma_sums_agree(counts);
    lemma_sum_reverse(counts);
}

/// One finished small table: whoever reads the entries of a small table,
/// whichever table it is, reads the same 256 entries, and every one of them
/// is filled in.
pub proof fn lemma_one_small_table(
    first: &SmallTable,
    second: &SmallTable,
    seen: &Vec<u8>,
    seen_again: &Vec<u8>,
)
    requires
        call_ensures(SmallTable::entries, (first,), seen),
        call_ensures(SmallTable::entries, (second,), seen_again),
    ensures
        is_popcount_table(seen@, SMALL_TABLE_BITS as nat),
        seen@ == seen_again@,
{
    lemma_popcount_table_unique(seen@, seen_again@, SMALL_TABLE_BITS as nat);
}

/// One finished full table for each width: whoever reads the entries of two
/// full tables of one width reads the same entries, and every one of them is
/// filled in.
pub proof fn lemma_one_full_table(
    first: &FullTable,
    second: &FullTable,
    seen: &Vec<u8>,
    seen_again: &Vec<u8>,
)
    requires
        first.spec_width() == second.spec_width(),
        call_ensures(FullTable::entries, (first,), seen),
        call_ensures(FullTable::entries, (second,), seen_again),
    ensures
        is_popcount_table(seen@, first.spec_width().spec_bits() as nat),
        seen@ == seen_again@,
{
    lemma_popcount_table_unique(seen@, seen_again@, first.spec_width().spec_bits() as nat);
}

} // verus!
