use popcount_lab::bench::measure_algorithm;
use popcount_lab::{
    count_ones_inplace_4, generate_batch, measure_execution_time, run_benchmark, run_vec,
    AlgorithmId, Distribution, Sample, Tables, Width,
};
use std::cell::Cell;
use std::time::Duration;

#[test]
fn algorithm_names_are_stable() {
    let names: Vec<&str> = AlgorithmId::all().iter().map(|id| id.name()).collect();
    assert_eq!(
        names,
        vec![
            "Inplace Naive",
            "Inplace 0",
            "Inplace 1",
            "Inplace 2",
            "Inplace 3",
            "Inplace 4",
            "Inplace 5",
            "Memoization",
            "Memoization 1",
            "Memoization 2",
            "Inbuilt Function",
        ]
    );
}

#[test]
fn all_lists_eleven_strategies_in_order() {
    assert_eq!(
        AlgorithmId::all(),
        [
            AlgorithmId::NaiveDivision,
            AlgorithmId::BitScan,
            AlgorithmId::BitScanEarlyExit,
            AlgorithmId::Kernighan,
            AlgorithmId::ClosedForm,
            AlgorithmId::SwarSubtract,
            AlgorithmId::SwarMask,
            AlgorithmId::FullTable,
            AlgorithmId::ByteLanes,
            AlgorithmId::ByteLanesUnrolled,
            AlgorithmId::Primitive,
        ]
    );
}

#[test]
fn a_timed_pass_applies_the_function_to_every_sample_once() {
    let batch = generate_batch(Distribution::Ascending, 1234, Width::W32);
    let calls = Cell::new(0usize);
    let total = Cell::new(0u64);
    let elapsed = measure_execution_time(&batch, |num: Sample| {
        calls.set(calls.get() + 1);
        let count = count_ones_inplace_4(num);
        total.set(total.get() + count as u64);
        count
    });
    assert_eq!(calls.get(), 1234);
    let expected: u64 = (0..1234u32).map(|value| value.count_ones() as u64).sum();
    assert_eq!(total.get(), expected);
    assert!(elapsed < Duration::from_secs(20));
}

#[test]
fn a_timed_pass_over_nothing_calls_nothing() {
    let calls = Cell::new(0usize);
    let _ = measure_execution_time(&[], |_num: Sample| {
        calls.set(calls.get() + 1);
        0u8
    });
    assert_eq!(calls.get(), 0);
}

#[test]
fn one_benchmark_gives_one_passing_record() {
    let tables = Tables::build(Width::W16);
    let batch = generate_batch(Distribution::DescendingMod255, 2000, Width::W16);
    for id in AlgorithmId::all() {
        match run_benchmark(&batch, id, &tables) {
            Some(record) => {
                assert_eq!(record.algorithm, id);
                assert!(record.passed);
            },
            None => panic!("{} gave no record", id.name()),
        }
    }
}

#[test]
fn no_benchmark_of_the_full_table_without_the_table() {
    let tables = Tables::build(Width::W32);
    let batch = generate_batch(Distribution::Ascending, 100, Width::W32);
    assert!(run_benchmark(&batch, AlgorithmId::FullTable, &tables).is_none());
    assert!(run_benchmark(&batch, AlgorithmId::ByteLanes, &tables).is_some());
    let sixteen = Tables::build(Width::W16);
    assert!(run_benchmark(&batch, AlgorithmId::FullTable, &sixteen).is_none());
}

#[test]
fn a_run_over_sixteen_bit_samples_reports_every_strategy() {
    let tables = Tables::build(Width::W16);
    let batch = generate_batch(Distribution::Random, 2000, Width::W16);
    let records = run_vec(&batch, &tables);
    let reported: Vec<AlgorithmId> = records.iter().map(|record| record.algorithm).collect();
    assert_eq!(reported, AlgorithmId::all().to_vec());
    assert!(records.iter().all(|record| record.passed));
}

#[test]
fn a_run_over_thirty_two_bit_samples_leaves_the_full_table_out() {
    let tables = Tables::build(Width::W32);
    let batch = generate_batch(Distribution::AscendingMod255, 2000, Width::W32);
    let records = run_vec(&batch, &tables);
    let reported: Vec<AlgorithmId> = records.iter().map(|record| record.algorithm).collect();
    assert_eq!(
        reported,
        vec![
            AlgorithmId::NaiveDivision,
            AlgorithmId::BitScan,
            AlgorithmId::BitScanEarlyExit,
            AlgorithmId::Kernighan,
            AlgorithmId::ClosedForm,
            AlgorithmId::SwarSubtract,
            AlgorithmId::SwarMask,
            AlgorithmId::ByteLanes,
            AlgorithmId::ByteLanesUnrolled,
            AlgorithmId::Primitive,
        ]
    );
    assert!(records.iter().all(|record| record.passed));
}

#[test]
fn a_run_over_an_empty_batch_still_reports() {
    let tables = Tables::build(Width::W16);
    let records = run_vec(&[], &tables);
    assert_eq!(records.len(), 11);
    assert!(records.iter().all(|record| record.passed));
}

#[test]
fn every_supported_strategy_can_be_timed() {
    let tables = Tables::build(Width::W16);
    let batch = generate_batch(Distribution::Ascending, 500, Width::W16);
    for id in AlgorithmId::all() {
        assert!(tables.supports_batch(id, &batch));
        let elapsed = measure_algorithm(id, &tables, &batch);
        assert!(elapsed < Duration::from_secs(20));
    }
}
