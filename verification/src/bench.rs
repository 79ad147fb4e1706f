//! The benchmark harness: one timed pass of a strategy over a batch, with
//! every result forced to be computed, and the records that a run produces.

use crate::algorithm::{AlgorithmId, Tables};
use crate::checker::check_algorithm;
use crate::inplace::{
    count_ones_inplace_0, count_ones_inplace_1, count_ones_inplace_2, count_ones_inplace_3,
    count_ones_inplace_4, count_ones_inplace_5, count_ones_inplace_naive, inbuilt_count_ones,
};
use crate::lookup::{count_ones_memo_0, count_ones_memo_1, count_ones_memo_2};
use crate::sample::{Sample, Width};
use crate::table::{is_popcount_table, AllocationInfeasible, FullTable, MAX_TABLE_BITS};
use std::hint::black_box;
use std::time::{Duration, Instant};
use vstd::prelude::*;

verus! {

/// What one timed pass of one strategy over one batch gave.
#[derive(Debug)]
pub struct BenchmarkRecord {
    /// The strategy that was timed; its name is [`AlgorithmId::name`].
    pub algorithm: AlgorithmId,
    /// The wall-clock time that the pass took.
    pub elapsed: Duration,
    /// Whether the strategy agreed with the reference on the whole batch.
    pub passed: bool,
}

/// Times one pass of `count_fn` over the batch: the clock is read, the
/// function is applied to every sample in order, each result being handed to
/// `black_box` so that none is optimised away, and the clock is read again.
/// Of the time itself nothing can be promised.
pub fn measure_execution_time<F: Fn(Sample) -> u8>(nums: &[Sample], count_fn: F) -> (elapsed:
    Duration)
    requires
        forall|i: int| 0 <= i < nums@.len() ==> call_requires(count_fn, (#[trigger] nums@[i],)),
{
    let start = Instant::now();
    let mut i: usize = 0;
    while i < nums.len()
        invariant
            i <= nums@.len(),
            forall|j: int| 0 <= j < nums@.len() ==> call_requires(count_fn, (#[trigger] nums@[j],)),
        decreases nums@.len() - i,
    {
        black_box(count_fn(nums[i]));
        i += 1;
    }
    start.elapsed()
}

/// Times one pass of the strategy `id` over the batch. The strategy is
/// chosen before the clock starts, so that the timed loop calls it directly.
pub fn measure_algorithm(id: AlgorithmId, tables: &Tables, nums: &[Sample]) -> (elapsed: Duration)
    requires
        tables.supports_all(id, nums@),
{
    let small = &tables.small;
    match id {
        AlgorithmId::NaiveDivision => measure_execution_time(nums, count_ones_inplace_naive),
        AlgorithmId::BitScan => measure_execution_time(nums, count_ones_inplace_0),
        AlgorithmId::BitScanEarlyExit => measure_execution_time(nums, count_ones_inplace_1),
        AlgorithmId::Kernighan => measure_execution_time(nums, count_ones_inplace_2),
        AlgorithmId::ClosedForm => measure_execution_time(nums, count_ones_inplace_3),
        AlgorithmId::SwarSubtract => measure_execution_time(nums, count_ones_inplace_4),
        AlgorithmId::SwarMask => measure_execution_time(nums, count_ones_inplace_5),
        AlgorithmId::FullTable => match &tables.full {
            Some(table) => {
                let lookup = |num: Sample| -> (count: u8)
                    requires
                        table.spec_width() == num.spec_width(),
                    { count_ones_memo_0(table, num) };
                assert forall|i: int| 0 <= i < nums@.len() implies call_requires(
                    lookup,
                    (#[trigger] nums@[i],),
                ) by {
                    assert(tables.covers(nums@[i]));
                }
                measure_execution_time(nums, lookup)
            },
            None => unreached(),
        },
        AlgorithmId::ByteLanes => {
            let lookup = |num: Sample| -> (count: u8) { count_ones_memo_1(small, num) };
            measure_execution_time(nums, lookup)
        },
        AlgorithmId::ByteLanesUnrolled => {
            let lookup = |num: Sample| -> (count: u8) { count_ones_memo_2(small, num) };
            measure_execution_time(nums, lookup)
        },
        AlgorithmId::Primitive => measure_execution_time(nums, inbuilt_count_ones),
    }
}

/// One benchmark: a single timed pass of the strategy `id` over the batch,
/// and the check of the strategy against the reference on the same batch.
/// There is no record where the tables do not support the strategy on this
/// batch; where there is one, the strategy has passed.
pub fn run_benchmark(nums: &[Sample], id: AlgorithmId, tables: &Tables) -> (record: Option<
    BenchmarkRecord,
>)
    ensures
        tables.supports_all(id, nums@) ==> record is Some && record->Some_0.algorithm == id
            && record->Some_0.passed,
        !tables.supports_all(id, nums@) ==> record is None,
{
    if !tables.supports_batch(id, nums) {
        return None;
    }
    let elapsed = measure_algorithm(id, tables, nums);
    let passed = check_algorithm(id, tables, nums).is_ok();
    Some(BenchmarkRecord { algorithm: id, elapsed, passed })
}

/// The strategies that a run over this batch reports: all of them, in the
/// order of [`AlgorithmId::spec_all`], but for those that the tables do not
/// support on the batch.
pub open spec fn reported(tables: &Tables, nums: Seq<Sample>) -> Seq<AlgorithmId> {
    AlgorithmId::spec_all().filter(|id: AlgorithmId| tables.supports_all(id, nums))
}

/// The strategies that run without the full table, in the order of
/// [`AlgorithmId::spec_all`].
pub open spec fn without_full_table() -> Seq<AlgorithmId> {
    seq![
        AlgorithmId::NaiveDivision,
        AlgorithmId::BitScan,
        AlgorithmId::BitScanEarlyExit,
        AlgorithmId::Kernighan,
        AlgorithmId::ClosedForm,
        AlgorithmId::SwarSubtract,
        AlgorithmId::SwarMask,
        AlgorithmId::ByteLanes,
        AlgorithmId::ByteLanesUnrolled,
        AlgorithmId::Primitive,
    ]
}

/// A run reports all eleven strategies where the full-table lookup is
/// supported on the batch, and the ten others where it is not.
pub proof fn lemma_reported(tables: &Tables, nums: Seq<Sample>)
    ensures
        tables.supports_all(AlgorithmId::FullTable, nums) ==> reported(tables, nums)
            == AlgorithmId::spec_all(),
        !tables.supports_all(AlgorithmId::FullTable, nums) ==> reported(tables, nums)
            == without_full_table(),
{
    let ids = AlgorithmId::spec_all();
    let wanted = |id: AlgorithmId| tables.supports_all(id, nums);
    assert(ids.take(0).filter(wanted) =~= Seq::<AlgorithmId>::empty()) by {
        reveal(Seq::filter);
    }
    lemma_filter_next(ids, wanted, 0);
    lemma_filter_next(ids, wanted, 1);
    lemma_filter_next(ids, wanted, 2);
    lemma_filter_next(ids, wanted, 3);
    lemma_filter_next(ids, wanted, 4);
    lemma_filter_next(ids, wanted, 5);
    lemma_filter_next(ids, wanted, 6);
    lemma_filter_next(ids, wanted, 7);
    lemma_filter_next(ids, wanted, 8);
    lemma_filter_next(ids, wanted, 9);
    lemma_filter_next(ids, wanted, 10);
    assert(ids.take(11) =~= ids);
    if tables.supports_all(AlgorithmId::FullTable, nums) {
        assert(ids.filter(wanted) =~= ids);
    } else {
        assert(ids.filter(wanted) =~= without_full_table());
    }
}

/// The strategies that the records are about, in order.
pub open spec fn algorithms_of(records: Seq<BenchmarkRecord>) -> Seq<AlgorithmId> {
    Seq::new(records.len(), |k: int| records[k].algorithm)
}

/// A whole run over one batch. Every supported strategy is timed, one after
/// the other and each in a single pass; only then is each held against the
/// reference. The records come in the order of [`AlgorithmId::spec_all`],
/// and every strategy in them has passed.
pub fn run_vec(nums: &[Sample], tables: &Tables) -> (records: Vec<BenchmarkRecord>)
    ensures
        algorithms_of(records@) == reported(tables, nums@),
        forall|k: int| 0 <= k < records@.len() ==> (#[trigger] records@[k]).passed,
{
    let ids = AlgorithmId::all();
    let ghost supported = |id: AlgorithmId| tables.supports_all(id, nums@);
    let mut timed: Vec<(AlgorithmId, Duration)> = Vec::new();
    let mut k: usize = 0;
    while k < ids.len()
        invariant
            k <= ids@.len(),
            ids@ == AlgorithmId::spec_all(),
            supported == |id: AlgorithmId| tables.supports_all(id, nums@),
            Seq::new(timed@.len(), |j: int| timed@[j].0) == ids@.take(k as int).filter(supported),
            forall|i: int|
                0 <= i < timed@.len() ==> tables.supports_all((#[trigger] timed@[i]).0, nums@),
        decreases ids@.len() - k,
    {
        let id: AlgorithmId = ids[k];
        proof {
            lemma_filter_next(ids@, supported, k as int);
        }
        if tables.supports_batch(id, nums) {
            let elapsed = measure_algorithm(id, tables, nums);
            let ghost before = Seq::new(timed@.len(), |j: int| timed@[j].0);
            timed.push((id, elapsed));
            assert(Seq::new(timed@.len(), |j: int| timed@[j].0) =~= before.push(id));
        }
        k += 1;
    }
    assert(ids@.take(k as int) =~= ids@);
    let mut records: Vec<BenchmarkRecord> = Vec::with_capacity(timed.len());
    let mut j: usize = 0;
    while j < timed.len()
        invariant
            j <= timed@.len(),
            records@.len() == j,
            forall|i: int|
                0 <= i < timed@.len() ==> tables.supports_all((#[trigger] timed@[i]).0, nums@),
            forall|i: int| 0 <= i < j ==> (#[trigger] records@[i]).algorithm == timed@[i].0,
            forall|i: int| 0 <= i < j ==> (#[trigger] records@[i]).passed,
        decreases timed@.len() - j,
    {
        let (id, elapsed) = timed[j];
        let passed = check_algorithm(id, tables, nums).is_ok();
        records.push(BenchmarkRecord { algorithm: id, elapsed, passed });
        j += 1;
    }
    assert(algorithms_of(records@) =~= Seq::new(timed@.len(), |j: int| timed@[j].0));
    records
}

/// Filtering one element more of a sequence keeps what was kept so far, and
/// adds the element if it is wanted.
proof fn lemma_filter_next<A>(items: Seq<A>, wanted: spec_fn(A) -> bool, k: int)
    requires
        0 <= k < items.len(),
    ensures
        items.take(k + 1).filter(wanted) == if wanted(items[k]) {
            items.take(k).filter(wanted).push(items[k])
        } else {
            items.take(k).filter(wanted)
        },
{
    reveal(Seq::filter);
    assert(items.take(k + 1).drop_last() =~= items.take(k));
}

/// Builds the full table for the given width by the doubling recurrence, and
/// says how long that took. A width whose domain is too large is refused
/// before the clock is read.
pub fn mesure_time_to_create_memoization_array_mine(width: Width) -> (timed: Result<
    (FullTable, Duration),
    AllocationInfeasible,
>)
    ensures
        width.spec_bits() <= MAX_TABLE_BITS ==> timed is Ok && timed->Ok_0.0.spec_width() == width
            && is_popcount_table(timed->Ok_0.0@, width.spec_bits() as nat),
        width.spec_bits() > MAX_TABLE_BITS ==> timed == Err::<
            (FullTable, Duration),
            AllocationInfeasible,
        >(AllocationInfeasible { bits: width.spec_bits() }),
{
    if width.bits() > MAX_TABLE_BITS {
        return Err(AllocationInfeasible { bits: width.bits() });
    }
    let start = Instant::now();
    let built = FullTable::build(width);
    let elapsed = start.elapsed();
    match built {
        Ok(table) => Ok((table, elapsed)),
        Err(refused) => Err(refused),
    }
}

/// Builds the full table for the given width by asking the processor's
/// population count for every index, and says how long that took. A width
/// whose domain is too large is refused before the clock is read.
pub fn mesure_time_to_create_memoization_array_inbuilt(width: Width) -> (timed: Result<
    (FullTable, Duration),
    AllocationInfeasible,
>)
    ensures
        width.spec_bits() <= MAX_TABLE_BITS ==> timed is Ok && timed->Ok_0.0.spec_width() == width
            && is_popcount_table(timed->Ok_0.0@, width.spec_bits() as nat),
        width.spec_bits() > MAX_TABLE_BITS ==> timed == Err::<
            (FullTable, Duration),
            AllocationInfeasible,
        >(AllocationInfeasible { bits: width.spec_bits() }),
{
    if width.bits() > MAX_TABLE_BITS {
        return Err(AllocationInfeasible { bits: width.bits() });
    }
    let start = Instant::now();
    let built = FullTable::build_by_primitive(width);
    let elapsed = start.elapsed();
    match built {
        Ok(table) => Ok((table, elapsed)),
        Err(refused) => Err(refused),
    }
}

} // verus!
