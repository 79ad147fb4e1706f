//! Input batches: sequences of samples of one width, drawn at random or laid
//! out in one of three fixed patterns.

use crate::platform::next_random;
use crate::sample::{Sample, Width};
use vstd::prelude::*;

verus! {

/// A batch: samples in a fixed order, read but never changed once made.
pub type InputBatch = Vec<Sample>;

/// How the samples of a batch are chosen.
#[derive(Clone, Copy, Debug, PartialEq, Eq, Structural)]
pub enum Distribution {
    /// Uniformly random values.
    Random,
    /// The ascending run 0, 1, 2, ..., wrapping round at the width.
    Ascending,
    /// Values just below the maximum: the maximum less `i mod 255`.
    DescendingMod255,
    /// Small values: `i mod 255`.
    AscendingMod255,
}

/// The value at position `i` of a batch of the given pattern and width. The
/// random distribution fixes no value; no contract asks this function for
/// one.
pub open spec fn pattern_value(distribution: Distribution, width: Width, i: nat) -> nat {
    match distribution {
        Distribution::Random => 0,
        Distribution::Ascending => width.wrap(i),
        Distribution::DescendingMod255 => (width.spec_max_value() - i % 255) as nat,
        Distribution::AscendingMod255 => i % 255,
    }
}

/// Cuts 32 random bits down to a sample of the given width: all of them for
/// 32 bits, the low half for 16.
pub fn sample_of_bits(bits: u32, width: Width) -> (sample: Sample)
    ensures
        sample.spec_width() == width,
        sample@ == width.wrap(bits as nat),
{
    match width {
        Width::W16 => {
            assert(bits & 0xffff == bits % 0x1_0000) by (bit_vector);
            Sample::W16((bits & 0xffff) as u16)
        },
        Width::W32 => Sample::W32(bits),
    }
}

/// A batch of `length` random samples of the given width, drawn from the
/// random number generator of the current thread. Which samples they are is
/// left to chance. The generator panics where the operating system denies it
/// entropy.
pub fn get_rand_arr(length: usize, width: Width) -> (batch: InputBatch)
    ensures
        batch@.len() == length,
        forall|i: int| 0 <= i < length ==> (#[trigger] batch@[i]).spec_width() == width,
{
    let mut rng = rand::thread_rng();
    let mut vec: Vec<Sample> = Vec::with_capacity(length);
    let mut i: usize = 0;
    while i < length
        invariant
            i <= length,
            vec@.len() == i,
            forall|j: int| 0 <= j < i ==> (#[trigger] vec@[j]).spec_width() == width,
        decreases length - i,
    {
        let bits: u32 = next_random(&mut rng);
        vec.push(sample_of_bits(bits, width));
        i += 1;
    }
    vec
}

/// The sample at position `i` of a batch of one of the three fixed patterns.
pub fn pattern_sample(distribution: Distribution, width: Width, i: usize) -> (sample: Sample)
    requires
        distribution != Distribution::Random,
    ensures
        sample.spec_width() == width,
        sample@ == pattern_value(distribution, width, i as nat),
{
    let small: u32 = (i % 255) as u32;
    match distribution {
        Distribution::Random => unreached(),
        Distribution::Ascending => {
            let wide: u64 = i as u64;
            assert(wide & 0xffff_ffff == wide % 0x1_0000_0000 && wide & 0xffff == wide % 0x1_0000)
                by (bit_vector);
            match width {
                Width::W16 => Sample::W16((wide & 0xffff) as u16),
                Width::W32 => Sample::W32((wide & 0xffff_ffff) as u32),
            }
        },
        Distribution::DescendingMod255 => match width {
            Width::W16 => Sample::W16((0xffff - small) as u16),
            Width::W32 => Sample::W32(0xffff_ffff - small),
        },
        Distribution::AscendingMod255 => match width {
            Width::W16 => Sample::W16(small as u16),
            Width::W32 => Sample::W32(small),
        },
    }
}

/// A batch of `size` samples of the given width. The three fixed patterns
/// determine every sample; of a random batch only the length and the width
/// are known.
pub fn generate_batch(distribution: Distribution, size: usize, width: Width) -> (batch:
    InputBatch)
    ensures
        batch@.len() == size,
        forall|i: int| 0 <= i < size ==> (#[trigger] batch@[i]).spec_width() == width,
        distribution != Distribution::Random ==> forall|i: int|
            0 <= i < size ==> (#[trigger] batch@[i])@ == pattern_value(
                distribution,
                width,
                i as nat,
            ),
{
    match distribution {
        Distribution::Random => get_rand_arr(size, width),
        _ => {
            let mut vec: Vec<Sample> = Vec::with_capacity(size);
            let mut i: usize = 0;
            while i < size
                invariant
                    i <= size,
                    distribution != Distribution::Random,
                    vec@.len() == i,
                    forall|j: int| 0 <= j < i ==> (#[trigger] vec@[j]).spec_width() == width,
                    forall|j: int|
                        0 <= j < i ==> (#[trigger] vec@[j])@ == pattern_value(
                            distribution,
                            width,
                            j as nat,
                        ),
                decreases size - i,
            {
                vec.push(pattern_sample(distribution, width, i));
                i += 1;
            }
            vec
        },
    }
}

} // verus!
