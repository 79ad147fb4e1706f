//! The strategies by name: an identifier for each, the tables that some of
//! them consult, and one entry point that runs whichever is asked for.

use crate::bits::popcount;
use crate::inplace::{
    count_ones_inplace_0, count_ones_inplace_1, count_ones_inplace_2, count_ones_inplace_3,
    count_ones_inplace_4, count_ones_inplace_5, count_ones_inplace_naive, inbuilt_count_ones,
};
use crate::lookup::{count_ones_memo_0, count_ones_memo_1, count_ones_memo_2};
use crate::sample::{Sample, Width};
use crate::table::{is_popcount_table, FullTable, SmallTable, MAX_TABLE_BITS, SMALL_TABLE_BITS};
use vstd::prelude::*;

verus! {

/// One identifier for each counting strategy.
#[derive(Clone, Copy, Debug, PartialEq, Eq, Structural)]
pub enum AlgorithmId {
    /// Halving and counting odd remainders.
    NaiveDivision,
    /// A scan over every bit position.
    BitScan,
    /// A scan that stops above the highest set bit.
    BitScanEarlyExit,
    /// Clearing the lowest set bit until none is left.
    Kernighan,
    /// The multiply, mask and reduce-modulo-31 formula.
    ClosedForm,
    /// SWAR lane sums, subtract-then-mask-add.
    SwarSubtract,
    /// SWAR lane sums, mask-then-shift-add.
    SwarMask,
    /// One lookup in the table over the whole domain.
    FullTable,
    /// One small-table lookup per byte lane, added left to right.
    ByteLanes,
    /// One small-table lookup per byte lane, added pairwise.
    ByteLanesUnrolled,
    /// The processor's population count.
    Primitive,
}

impl AlgorithmId {
    /// Every strategy, in the order in which reports list them.
    pub open spec fn spec_all() -> Seq<AlgorithmId> {
        seq![
            AlgorithmId::NaiveDivision,
            AlgorithmId::BitScan,
            AlgorithmId::BitScanEarlyExit,
            AlgorithmId::Kernighan,
            AlgorithmId::ClosedForm,
            AlgorithmId::SwarSubtract,
            AlgorithmId::SwarMask,
            AlgorithmId::FullTable,
            AlgorithmId::ByteLanes,
            AlgorithmId::ByteLanesUnrolled,
            AlgorithmId::Primitive,
        ]
    }

    /// Every strategy, in the order in which reports list them.
    pub fn all() -> (ids: [AlgorithmId; 11])
        ensures
            ids@ == Self::spec_all(),
    {
        let ids = [
            AlgorithmId::NaiveDivision,
            AlgorithmId::BitScan,
            AlgorithmId::BitScanEarlyExit,
            AlgorithmId::Kernighan,
            AlgorithmId::ClosedForm,
            AlgorithmId::SwarSubtract,
            AlgorithmId::SwarMask,
            AlgorithmId::FullTable,
            AlgorithmId::ByteLanes,
            AlgorithmId::ByteLanesUnrolled,
            AlgorithmId::Primitive,
        ];
        assert(ids@ =~= Self::spec_all());
        ids
    }

    /// The name under which reports list the strategy.
    pub open spec fn spec_name(self) -> Seq<char> {
        match self {
            AlgorithmId::NaiveDivision => "Inplace Naive"@,
            AlgorithmId::BitScan => "Inplace 0"@,
            AlgorithmId::BitScanEarlyExit => "Inplace 1"@,
            AlgorithmId::Kernighan => "Inplace 2"@,
            AlgorithmId::ClosedForm => "Inplace 3"@,
            AlgorithmId::SwarSubtract => "Inplace 4"@,
            AlgorithmId::SwarMask => "Inplace 5"@,
            AlgorithmId::FullTable => "Memoization"@,
            AlgorithmId::ByteLanes => "Memoization 1"@,
            AlgorithmId::ByteLanesUnrolled => "Memoization 2"@,
            AlgorithmId::Primitive => "Inbuilt Function"@,
        }
    }

    /// The name under which reports list the strategy.
    pub fn name(self) -> (name: &'static str)
        ensures
            name@ == self.spec_name(),
    {
        match self {
            AlgorithmId::NaiveDivision => "Inplace Naive",
            AlgorithmId::BitScan => "Inplace 0",
            AlgorithmId::BitScanEarlyExit => "Inplace 1",
            AlgorithmId::Kernighan => "Inplace 2",
            AlgorithmId::ClosedForm => "Inplace 3",
            AlgorithmId::SwarSubtract => "Inplace 4",
            AlgorithmId::SwarMask => "Inplace 5",
            AlgorithmId::FullTable => "Memoization",
            AlgorithmId::ByteLanes => "Memoization 1",
            AlgorithmId::ByteLanesUnrolled => "Memoization 2",
            AlgorithmId::Primitive => "Inbuilt Function",
        }
    }
}

/// The tables that the lookup strategies consult: built once, then lent to
/// whoever counts with them.
pub struct Tables {
    /// The table over one byte lane.
    pub small: SmallTable,
    /// The table over the whole domain of one width, where that is feasible.
    pub full: Option<FullTable>,
}

impl Tables {
    /// Builds the small table, and the full table for samples of the given
    /// width unless its domain is too large to allocate.
    pub fn build(width: Width) -> (tables: Tables)
        ensures
            is_popcount_table(tables.small@, SMALL_TABLE_BITS as nat),
            width.spec_bits() <= MAX_TABLE_BITS ==> tables.full is Some
                && tables.full->Some_0.spec_width() == width && is_popcount_table(
                tables.full->Some_0@,
                width.spec_bits() as nat,
            ),
            width.spec_bits() > MAX_TABLE_BITS ==> tables.full is None,
    {
        let full = match FullTable::build(width) {
            Ok(table) => Some(table),
            Err(_) => None,
        };
        Tables { small: SmallTable::build(), full }
    }

    /// Whether the full table is there and covers the width of `num`.
    pub open spec fn covers(&self, num: Sample) -> bool {
        self.full matches Some(table) && table.spec_width() == num.spec_width()
    }

    /// Whether the strategy `id` can count `num` with these tables: every
    /// strategy can, but for the full-table lookup where the table is missing
    /// or was built for another width.
    pub open spec fn supports(&self, id: AlgorithmId, num: Sample) -> bool {
        id == AlgorithmId::FullTable ==> self.covers(num)
    }

    /// Whether the strategy `id` can count a whole batch with these tables:
    /// the full-table lookup needs the full table, and every sample of the
    /// batch to be of the table's width.
    pub open spec fn supports_all(&self, id: AlgorithmId, nums: Seq<Sample>) -> bool {
        id == AlgorithmId::FullTable ==> self.full is Some && forall|i: int|
            0 <= i < nums.len() ==> self.covers(#[trigger] nums[i])
    }

    /// Whether the strategy `id` can count a whole batch with these tables.
    pub fn supports_batch(&self, id: AlgorithmId, nums: &[Sample]) -> (supported: bool)
        ensures
            supported == self.supports_all(id, nums@),
    {
        match id {
            AlgorithmId::FullTable => match &self.full {
                Some(table) => {
                    let mut i: usize = 0;
                    while i < nums.len()
                        invariant
                            i <= nums@.len(),
                            id == AlgorithmId::FullTable,
                            self.full == Some(*table),
                            forall|j: int| 0 <= j < i ==> self.covers(#[trigger] nums@[j]),
                        decreases nums@.len() - i,
                    {
                        if nums[i].width() != table.width() {
                            assert(!self.covers(nums@[i as int]));
                            return false;
                        }
                        i += 1;
                    }
                    true
                },
                None => false,
            },
            _ => true,
        }
    }
}

/// Counts the set bits of `num` by the strategy `id`. Every strategy gives
/// the same count; the full-table lookup gives none where the tables hold no
/// full table for the width of `num`.
pub fn count_ones_by(id: AlgorithmId, tables: &Tables, num: Sample) -> (count: Option<u8>)
    ensures
        tables.supports(id, num) ==> count == Some(popcount(num@) as u8) && popcount(num@) <= 32,
        !tables.supports(id, num) ==> count is None,
{
    proof {
        crate::bits::lemma_popcount_u32(num@ as u32);
    }
    match id {
        AlgorithmId::NaiveDivision => Some(count_ones_inplace_naive(num)),
        AlgorithmId::BitScan => Some(count_ones_inplace_0(num)),
        AlgorithmId::BitScanEarlyExit => Some(count_ones_inplace_1(num)),
        AlgorithmId::Kernighan => Some(count_ones_inplace_2(num)),
        AlgorithmId::ClosedForm => Some(count_ones_inplace_3(num)),
        AlgorithmId::SwarSubtract => Some(count_ones_inplace_4(num)),
        AlgorithmId::SwarMask => Some(count_ones_inplace_5(num)),
        AlgorithmId::FullTable => match &tables.full {
            Some(table) => {
                if table.width() == num.width() {
                    Some(count_ones_memo_0(table, num))
                } else {
                    None
                }
            },
            None => None,
        },
        AlgorithmId::ByteLanes => Some(count_ones_memo_1(&tables.small, num)),
        AlgorithmId::ByteLanesUnrolled => Some(count_ones_memo_2(&tables.small, num)),
        AlgorithmId::Primitive => Some(inbuilt_count_ones(num)),
    }
}

} // verus!
