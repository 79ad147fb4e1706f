//! A population-count laboratory: several independent ways of counting the
//! 1-bits of a 16- or 32-bit unsigned integer, the lookup tables some of them
//! consult, a checker that holds them against the processor's own count, and
//! a harness that times them. Every strategy is proved to compute
//! [`bits::popcount`].
//!
//! - [`sample`]: the widths and the samples;
//! - [`bits`], [`lanes`]: what a count is, and the arithmetic it rests on;
//! - [`inplace`], [`lookup`]: the strategies; [`table`]: the tables;
//! - [`algorithm`]: the strategies by name;
//! - [`batch`], [`checker`], [`bench`]: batches, the checker, the harness;
//! - [`laws`]: what holds of the strategies taken together;
//! - [`platform`]: what is taken on trust from outside the library.

pub mod algorithm;
pub mod batch;
pub mod bench;
pub mod bits;
pub mod checker;
pub mod inplace;
pub mod lanes;
pub mod laws;
pub mod lookup;
pub mod platform;
pub mod sample;
pub mod table;

pub use crate::algorithm::{count_ones_by, AlgorithmId, Tables};
pub use crate::batch::{generate_batch, get_rand_arr, Distribution, InputBatch};
pub use crate::bench::{
    measure_execution_time, mesure_time_to_create_memoization_array_inbuilt,
    mesure_time_to_create_memoization_array_mine, run_benchmark, run_vec, BenchmarkRecord,
};
pub use crate::checker::{
    check_candidate, check_correct, check_correctness, find_mismatch, Mismatch, MismatchError,
};
pub use crate::inplace::{
    count_ones_inplace_0, count_ones_inplace_1, count_ones_inplace_2, count_ones_inplace_3,
    count_ones_inplace_4, count_ones_inplace_5, count_ones_inplace_naive, inbuilt_count_ones,
};
pub use crate::lookup::{
    count_ones_memo_0, count_ones_memo_1, count_ones_memo_2, count_ones_memo_small,
};
pub use crate::sample::{DomainViolation, Sample, Width};
pub use crate::table::{AllocationInfeasible, FullTable, SmallTable, MAX_TABLE_BITS};
