//! What the library takes on trust from the standard library and from `rand`.
//! Nothing here is proved: each contract restates what the documentation or
//! the source of the function promises.

use crate::bits::popcount;
use crate::lanes::lanes_le;
use rand::Rng;
use vstd::prelude::*;

verus! {

/// `u32::count_ones`, the processor's population count: the number of ones in
/// the binary representation of the argument.
pub assume_specification[ u32::count_ones ](i: u32) -> (ones: u32)
    ensures
        ones == popcount(i as nat),
;

/// Whether `bytes` are the lowest `count` byte lanes of `value` in one of the
/// two byte orders that a machine can have: lowest lane first, or last.
pub open spec fn is_native_order(bytes: Seq<u8>, value: nat, count: nat) -> bool {
    bytes == lanes_le(value, count) || bytes == lanes_le(value, count).reverse()
}

/// `u16::to_ne_bytes`: the two bytes of the argument in the byte order of the
/// machine, which is either little-endian or big-endian.
#[verifier::external_body]
pub(crate) fn ne_bytes_u16(x: u16) -> (bytes: [u8; 2])
    ensures
        is_native_order(bytes@, x as nat, 2),
{
    x.to_ne_bytes()
}

/// `u32::to_ne_bytes`: the four bytes of the argument in the byte order of
/// the machine, which is either little-endian or big-endian.
#[verifier::external_body]
pub(crate) fn ne_bytes_u32(x: u32) -> (bytes: [u8; 4])
    ensures
        is_native_order(bytes@, x as nat, 4),
{
    x.to_ne_bytes()
}

/// `u64::to_ne_bytes`: the eight bytes of the argument in the byte order of
/// the machine, which is either little-endian or big-endian.
#[verifier::external_body]
pub(crate) fn ne_bytes_u64(x: u64) -> (bytes: [u8; 8])
    ensures
        is_native_order(bytes@, x as nat, 8),
{
    x.to_ne_bytes()
}

/// `std::hint::black_box`: hands its argument back unchanged, and keeps the
/// compiler from assuming anything about how the value is used.
pub assume_specification<T>[ std::hint::black_box::<T> ](dummy: T) -> (same: T)
    ensures
        same == dummy,
;

/// `std::time::Instant`, a reading of the monotonic clock. Nothing inside it
/// is visible to the proofs.
#[verifier::external_type_specification]
#[verifier::external_body]
pub struct ExInstant(std::time::Instant);

/// `Instant::now`: the current reading of the clock. Nothing is claimed of
/// it.
pub assume_specification[ std::time::Instant::now ]() -> (now: std::time::Instant)
;

/// `Instant::elapsed`: the time that has passed since the reading was taken.
/// Nothing is claimed of it.
pub assume_specification[ std::time::Instant::elapsed ](start: &std::time::Instant) -> (elapsed:
    std::time::Duration)
;

/// `rand::rngs::ThreadRng`, the handle to the random number generator of the
/// current thread. Nothing inside it is visible to the proofs.
#[verifier::external_type_specification]
#[verifier::external_body]
pub struct ExThreadRng(rand::rngs::ThreadRng);

/// `rand::thread_rng`: the generator of the current thread, seeded by the
/// operating system on first use. Nothing is claimed of the handle. The call
/// panics if the operating system has no entropy to seed the generator with:
/// that depends on the machine, not on any argument.
pub assume_specification[ rand::thread_rng ]() -> (rng: rand::rngs::ThreadRng)
;

/// `Rng::gen::<u32>` on the thread's generator: the next 32 random bits.
/// Nothing is claimed of them: any `u32` may come back. From time to time the
/// generator reseeds itself, and panics if the operating system has no
/// entropy for that.
#[verifier::external_body]
pub(crate) fn next_random(rng: &mut rand::rngs::ThreadRng) -> (value: u32) {
    rng.gen::<u32>()
}

} // verus!
