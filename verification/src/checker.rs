//! The correctness checker: every candidate count is held, position by
//! position, against the processor's own count. One disagreement is an error.

use crate::algorithm::{AlgorithmId, Tables};
use crate::bits::popcount;
use crate::inplace::{
    count_ones_inplace_0, count_ones_inplace_1, count_ones_inplace_2, count_ones_inplace_3,
    count_ones_inplace_4, count_ones_inplace_5, count_ones_inplace_naive, inbuilt_count_ones,
};
use crate::lookup::{count_ones_memo_0, count_ones_memo_1, count_ones_memo_2};
use crate::sample::Sample;
use vstd::prelude::*;

verus! {

/// Where a candidate first disagreed with the reference.
#[derive(Clone, Copy, Debug, PartialEq, Eq, Structural)]
pub struct Mismatch {
    /// The position in the batch of the first sample that was miscounted.
    pub index: usize,
    /// That sample.
    pub sample: Sample,
    /// The reference count of the sample.
    pub expected: u8,
    /// What the candidate returned for it.
    pub actual: u8,
}

/// A strategy's count disagreed with the reference.
#[derive(Clone, Copy, Debug, PartialEq, Eq, Structural)]
pub struct MismatchError {
    /// The strategy that the candidate stands for.
    pub algorithm: AlgorithmId,
    /// The position in the batch of the first sample that it miscounted.
    pub index: usize,
    /// That sample.
    pub sample: Sample,
    /// The reference count of the sample.
    pub expected: u8,
    /// What the candidate returned for it.
    pub actual: u8,
}

/// The reference count of a sample, as the strategies return it.
pub open spec fn reference(num: Sample) -> u8 {
    popcount(num@) as u8
}

/// The reference count of every sample of the batch, in order.
pub fn reference_counts(nums: &[Sample]) -> (counts: Vec<u8>)
    ensures
        counts@.len() == nums@.len(),
        forall|i: int| 0 <= i < nums@.len() ==> counts@[i] == popcount(nums@[i]@),
{
    let mut counts: Vec<u8> = Vec::with_capacity(nums.len());
    let mut i: usize = 0;
    while i < nums.len()
        invariant
            i <= nums@.len(),
            counts@.len() == i,
            forall|j: int| 0 <= j < i ==> counts@[j] == popcount(nums@[j]@),
        decreases nums@.len() - i,
    {
        counts.push(inbuilt_count_ones(nums[i]));
        i += 1;
    }
    counts
}

/// The candidate can return the reference count for each of the first `end`
/// samples of the batch.
pub open spec fn agrees_up_to<F: Fn(Sample) -> u8>(count_fn: F, nums: Seq<Sample>, end: int)
    -> bool {
    forall|i: int| 0 <= i < end ==> call_ensures(count_fn, (#[trigger] nums[i],), reference(nums[i]))
}

/// The candidate returned `found.actual` for the sample at `found.index`,
/// which is not the reference count of that sample, after agreeing with the
/// reference on every sample before it.
pub open spec fn is_first_mismatch<F: Fn(Sample) -> u8>(
    count_fn: F,
    nums: Seq<Sample>,
    found: Mismatch,
) -> bool {
    &&& found.index < nums.len()
    &&& found.sample == nums[found.index as int]
    &&& found.expected == popcount(found.sample@)
    &&& found.actual != found.expected
    &&& call_ensures(count_fn, (found.sample,), found.actual)
    &&& agrees_up_to(count_fn, nums, found.index as int)
}

/// Runs the candidate `count_fn` on every sample of the batch, in order, and
/// holds each count against the reference. The first disagreement is handed
/// back; the samples after it are not looked at. Nothing is handed back
/// where the candidate agrees with the reference throughout.
pub fn find_mismatch<F: Fn(Sample) -> u8>(nums: &[Sample], count_fn: F) -> (found: Option<
    Mismatch,
>)
    requires
        forall|i: int| 0 <= i < nums@.len() ==> call_requires(count_fn, (#[trigger] nums@[i],)),
    ensures
        found is None ==> agrees_up_to(count_fn, nums@, nums@.len() as int),
        found matches Some(mismatch) ==> is_first_mismatch(count_fn, nums@, mismatch),
{
    let mut i: usize = 0;
    while i < nums.len()
        invariant
            i <= nums@.len(),
            forall|j: int| 0 <= j < nums@.len() ==> call_requires(count_fn, (#[trigger] nums@[j],)),
            agrees_up_to(count_fn, nums@, i as int),
        decreases nums@.len() - i,
    {
        let sample: Sample = nums[i];
        let expected: u8 = inbuilt_count_ones(sample);
        let actual: u8 = count_fn(sample);
        if actual != expected {
            return Some(Mismatch { index: i, sample, expected, actual });
        }
        i += 1;
    }
    None
}

/// Holds the candidate `count_fn`, which stands for the strategy `algorithm`,
/// against the reference on every sample of the batch. The error names the
/// strategy and the first sample that the candidate miscounted.
pub fn check_candidate<F: Fn(Sample) -> u8>(
    algorithm: AlgorithmId,
    nums: &[Sample],
    count_fn: F,
) -> (checked: Result<(), MismatchError>)
    requires
        forall|i: int| 0 <= i < nums@.len() ==> call_requires(count_fn, (#[trigger] nums@[i],)),
    ensures
        checked is Ok ==> agrees_up_to(count_fn, nums@, nums@.len() as int),
        checked matches Err(e) ==> e.algorithm == algorithm && is_first_mismatch(
            count_fn,
            nums@,
            (Mismatch {
                index: e.index,
                sample: e.sample,
                expected: e.expected,
                actual: e.actual,
            }),
        ),
{
    match find_mismatch(nums, count_fn) {
        None => Ok(()),
        Some(found) => Err(
            MismatchError {
                algorithm,
                index: found.index,
                sample: found.sample,
                expected: found.expected,
                actual: found.actual,
            },
        ),
    }
}

/// Whether the candidate `count_fn` agrees with the reference on every
/// sample of the batch.
pub fn check_correct<F: Fn(Sample) -> u8>(nums: &[Sample], count_fn: F) -> (agrees: bool)
    requires
        forall|i: int| 0 <= i < nums@.len() ==> call_requires(count_fn, (#[trigger] nums@[i],)),
    ensures
        agrees ==> agrees_up_to(count_fn, nums@, nums@.len() as int),
        !agrees ==> exists|found: Mismatch| is_first_mismatch(count_fn, nums@, found),
{
    find_mismatch(nums, count_fn).is_none()
}

/// Holds the strategy `id` against the reference on every sample of the
/// batch. Each strategy is proved to return the reference count, so no
/// mismatch can come back; the comparison is made all the same, before any
/// timing is trusted.
pub fn check_algorithm(id: AlgorithmId, tables: &Tables, nums: &[Sample]) -> (checked: Result<
    (),
    MismatchError,
>)
    requires
        tables.supports_all(id, nums@),
    ensures
        checked is Ok,
{
    proof {
        assert forall|i: int| 0 <= i < nums@.len() implies popcount((#[trigger] nums@[i])@)
            <= 32 by {
            crate::bits::lemma_popcount_u32(nums@[i]@ as u32);
        }
    }
    let small = &tables.small;
    let checked = match id {
        AlgorithmId::NaiveDivision => check_candidate(id, nums, count_ones_inplace_naive),
        AlgorithmId::BitScan => check_candidate(id, nums, count_ones_inplace_0),
        AlgorithmId::BitScanEarlyExit => check_candidate(id, nums, count_ones_inplace_1),
        AlgorithmId::Kernighan => check_candidate(id, nums, count_ones_inplace_2),
        AlgorithmId::ClosedForm => check_candidate(id, nums, count_ones_inplace_3),
        AlgorithmId::SwarSubtract => check_candidate(id, nums, count_ones_inplace_4),
        AlgorithmId::SwarMask => check_candidate(id, nums, count_ones_inplace_5),
        AlgorithmId::FullTable => match &tables.full {
            Some(table) => {
                let lookup = |num: Sample| -> (count: u8)
                    requires
                        table.spec_width() == num.spec_width(),
                    ensures
                        count == popcount(num@),
                    { count_ones_memo_0(table, num) };
                assert forall|i: int| 0 <= i < nums@.len() implies call_requires(
                    lookup,
                    (#[trigger] nums@[i],),
                ) by {
                    assert(tables.covers(nums@[i]));
                }
                check_candidate(id, nums, lookup)
            },
            None => unreached(),
        },
        AlgorithmId::ByteLanes => {
            let lookup = |num: Sample| -> (count: u8)
                ensures
                    count == popcount(num@),
                { count_ones_memo_1(small, num) };
            check_candidate(id, nums, lookup)
        },
        AlgorithmId::ByteLanesUnrolled => {
            let lookup = |num: Sample| -> (count: u8)
                ensures
                    count == popcount(num@),
                { count_ones_memo_2(small, num) };
            check_candidate(id, nums, lookup)
        },
        AlgorithmId::Primitive => check_candidate(id, nums, inbuilt_count_ones),
    };
    checked
}

/// Holds every strategy that these tables support on this batch against the
/// reference, one strategy after the other. Each strategy is proved to
/// return the reference count, so the answer is always `Ok`.
pub fn check_correctness(nums: &[Sample], tables: &Tables) -> (checked: Result<(), MismatchError>)
    ensures
        checked is Ok,
{
    let ids = AlgorithmId::all();
    let mut k: usize = 0;
    while k < ids.len()
        invariant
            k <= ids@.len(),
        decreases ids@.len() - k,
    {
        let id: AlgorithmId = ids[k];
        if tables.supports_batch(id, nums) {
            match check_algorithm(id, tables, nums) {
                Ok(_) => {},
                Err(e) => {
                    return Err(e);
                },
            }
        }
        k += 1;
    }
    Ok(())
}

} // verus!
