//! Counting strategies that need nothing but the sample itself: division,
//! bit scans, Kernighan's trick, SWAR lane sums, a multiply-and-reduce
//! formula, and the processor's own instruction.

use crate::bits::{
    bit_scan, bit_sum32, clearing_steps, lemma_bit_scan, lemma_bit_scan_complete, lemma_bit_sum32,
    lemma_clear_lowest_bit_decreases, lemma_clearing_steps, lemma_popcount_u32, popcount,
};
use crate::sample::Sample;
use vstd::arithmetic::div_mod::lemma_basic_div;
use vstd::arithmetic::power2::{lemma2_to64, lemma_pow2_strictly_increases, pow2};
use vstd::bits::{lemma_u32_pow2_no_overflow, lemma_u32_shl_is_mul, lemma_u32_shr_is_div};
use vstd::prelude::*;

verus! {

/// The processor's population count, the reference that every other strategy
/// is held against.
pub fn inbuilt_count_ones(num: Sample) -> (count: u8)
    ensures
        count == popcount(num@),
{
    let value: u32 = num.value();
    proof {
        lemma_popcount_u32(value);
    }
    value.count_ones() as u8
}

/// Naive division: halve the number until nothing is left, counting the odd
/// remainders.
pub fn count_ones_inplace_naive(num: Sample) -> (count: u8)
    ensures
        count == popcount(num@),
{
    let mut rest: u32 = num.value();
    let mut ret: u8 = 0;
    proof {
        lemma_popcount_u32(rest);
    }
    while rest != 0
        invariant
            ret + popcount(rest as nat) == popcount(num@),
            popcount(num@) <= 32,
        decreases rest,
    {
        ret += if rest % 2 == 1 {
            1
        } else {
            0
        };
        rest /= 2;
    }
    ret
}

/// The bit that a scan reads at position `i` is the binary digit of the
/// number at that position.
proof fn lemma_scanned_bit(value: u32, i: u32)
    requires
        i < 32,
    ensures
        (value & (1u32 << i)) >> i == (value as nat / pow2(i as nat)) % 2,
{
    assert((value & (1u32 << i)) >> i == (value >> i) % 2) by (bit_vector)
        requires
            i < 32,
    ;
    lemma_u32_shr_is_div(value, i);
}

/// A sample is below two to the power of its width.
proof fn lemma_sample_fits(num: Sample)
    ensures
        num@ < pow2(num.spec_width().spec_bits() as nat),
        num@ <= u32::MAX,
        popcount(num@) <= 32,
{
    lemma2_to64();
    lemma_popcount_u32(num@ as u32);
}

/// Linear bit scan: visit every bit position of the width and add up the
/// bits found there.
pub fn count_ones_inplace_0(num: Sample) -> (count: u8)
    ensures
        count == popcount(num@),
        count == bit_scan(num@, num.spec_width().spec_bits() as nat),
{
    let value: u32 = num.value();
    let digits: u32 = num.width().bits();
    let mut ret: u8 = 0;
    let mut i: u32 = 0;
    proof {
        lemma_sample_fits(num);
        lemma_bit_scan_complete(value as nat, digits as nat);
    }
    while i < digits
        invariant
            i <= digits <= 32,
            ret == bit_scan(value as nat, i as nat),
            bit_scan(value as nat, digits as nat) <= 32,
        decreases digits - i,
    {
        proof {
            lemma_scanned_bit(value, i);
            lemma_bit_scan(value as nat, (i + 1) as nat);
            lemma_bit_scan(value as nat, digits as nat);
        }
        ret += ((value & (1u32 << i)) >> i) as u8;
        i += 1;
    }
    ret
}

/// Linear bit scan with early exit: as [`count_ones_inplace_0`], but stops as
/// soon as the position just visited lies above every bit of the number. The
/// positions that it skips hold no set bit, so the count is that of the full
/// scan.
pub fn count_ones_inplace_1(num: Sample) -> (count: u8)
    ensures
        count == popcount(num@),
        count == bit_scan(num@, num.spec_width().spec_bits() as nat),
{
    let value: u32 = num.value();
    let digits: u32 = num.width().bits();
    let mut ret: u8 = 0;
    let mut i: u32 = 0;
    proof {
        lemma_sample_fits(num);
        lemma_bit_scan_complete(value as nat, digits as nat);
    }
    while i < digits
        invariant
            i <= digits <= 32,
            value == num@,
            digits == num.spec_width().spec_bits(),
            ret == bit_scan(value as nat, i as nat),
            bit_scan(value as nat, digits as nat) == popcount(value as nat),
            popcount(value as nat) <= 32,
        decreases digits - i,
    {
        proof {
            lemma_scanned_bit(value, i);
            lemma_bit_scan(value as nat, (i + 1) as nat);
        }
        ret += ((value & (1u32 << i)) >> i) as u8;
        if (1u32 << i) > value {
            proof {
                lemma_u32_pow2_no_overflow(i as nat);
                lemma_u32_shl_is_mul(1, i);
                lemma_pow2_strictly_increases(i as nat, (i + 1) as nat);
                lemma_basic_div(value as int, pow2((i + 1) as nat) as int);
            }
            return ret;
        }
        i += 1;
    }
    ret
}

/// Kernighan's trick: `n & (n - 1)` clears the lowest set bit, so the loop
/// runs once for every set bit and never looks at a zero.
pub fn count_ones_inplace_2(num: Sample) -> (count: u8)
    ensures
        count == popcount(num@),
        count == clearing_steps(num@ as u32),
{
    let mut rest: u32 = num.value();
    let mut ret: u8 = 0;
    proof {
        lemma_popcount_u32(rest);
        lemma_clearing_steps(rest);
    }
    while rest != 0
        invariant
            ret + clearing_steps(rest) == clearing_steps(num@ as u32),
            clearing_steps(num@ as u32) <= 32,
        decreases rest,
    {
        proof {
            lemma_clear_lowest_bit_decreases(rest);
        }
        ret += 1;
        rest &= rest - 1;
    }
    ret
}

/// What the multiply-and-reduce formula makes of one field of at most twelve
/// bits: the field is replicated five times by the multiplication, the mask
/// keeps one bit of it in each group of five, and the remainder modulo 31 adds
/// the kept bits up.
pub open spec fn field_count(field: u64) -> u64 {
    (((field * 0x1001001001001u64) as u64) & 0x84210842108421u64) % 0x1fu64
}

/// The multiply-and-reduce formula on a 32-bit value: the sum of
/// [`field_count`] over its fields of 12, 12 and 8 bits.
pub open spec fn closed_form(x: u32) -> int {
    let n = x as u64;
    field_count(n & 0xfff) + field_count((n & 0xfff000) >> 12) + field_count(n >> 24)
}

/// The twelve bits of a field, added up one by one.
pub open spec fn bit_sum12(field: u64) -> int {
    (field & 1) + ((field >> 1) & 1) + ((field >> 2) & 1) + ((field >> 3) & 1) + ((field >> 4) & 1)
        + ((field >> 5) & 1) + ((field >> 6) & 1) + ((field >> 7) & 1) + ((field >> 8) & 1) + ((
    field >> 9) & 1) + ((field >> 10) & 1) + ((field >> 11) & 1)
}

/// On a field of at most twelve bits the formula adds up the bits.
proof fn lemma_field_count(field: u64)
    by (bit_vector)
    requires
        field <= 0xfff,
    ensures
        field_count(field) == bit_sum12(field),
{
}

/// The three fields are small enough to be multiplied, and between them they
/// hold each of the thirty-two bits once.
proof fn lemma_fields(x: u32)
    by (bit_vector)
    ensures
        (x as u64) & 0xfff <= 0xfff,
        ((x as u64) & 0xfff000) >> 12 <= 0xfff,
        (x as u64) >> 24 <= 0xff,
        bit_sum12((x as u64) & 0xfff) + bit_sum12(((x as u64) & 0xfff000) >> 12) + bit_sum12(
            (x as u64) >> 24,
        ) == bit_sum32(x),
{
}

/// The multiply-and-reduce formula counts the set bits of every 32-bit value.
pub proof fn lemma_closed_form(x: u32)
    ensures
        closed_form(x) == popcount(x as nat),
{
    let n = x as u64;
    lemma_fields(x);
    lemma_field_count(n & 0xfff);
    lemma_field_count((n & 0xfff000) >> 12);
    lemma_field_count(n >> 24);
    lemma_bit_sum32(x);
}

/// Closed-form arithmetic: split the value into fields of 12, 12 and 8 bits,
/// and count each field by one multiplication, one mask and one remainder
/// modulo 31. The formula holds for values of at most 32 bits, which is all
/// that a sample can be.
pub fn count_ones_inplace_3(num: Sample) -> (count: u8)
    ensures
        count == popcount(num@),
        count == closed_form(num@ as u32),
{
    let value: u32 = num.value();
    let wide: u64 = value as u64;
    proof {
        lemma_fields(value);
        lemma_closed_form(value);
        lemma_popcount_u32(value);
    }
    let mut ret: u64 = (((wide & 0xfff) * 0x1001001001001_u64) & 0x84210842108421_u64) % 0x1f;
    ret += ((((wide & 0xfff000) >> 12) * 0x1001001001001_u64) & 0x84210842108421_u64) % 0x1f;
    ret += (((wide >> 24) * 0x1001001001001_u64) & 0x84210842108421_u64) % 0x1f;
    ret as u8
}

/// SWAR, first formulation, on a 32-bit value: subtract the odd bits from the
/// pairs, then add neighbouring lanes of 2, 4, 8 and 16 bits.
pub open spec fn swar_subtract(x: u32) -> u64 {
    let n = x as u64;
    let a = (n - ((n >> 1) & 0x55555555)) as u64;
    let b = (((a >> 2) & 0x33333333) + (a & 0x33333333)) as u64;
    let c = (((b >> 4) + b) as u64) & 0x0f0f0f0f;
    let d = (((c >> 8) + c) as u64) & 0x00ff00ff;
    (((d >> 16) + d) as u64) & 0x0000ffff
}

/// SWAR, second formulation, on a 32-bit value: at each step, add the lanes
/// kept by a mask to the lanes kept by its complement, shifted down.
pub open spec fn swar_mask(x: u32) -> u32 {
    let a = ((x & 0x55555555) + ((x & 0xaaaaaaaa) >> 1)) as u32;
    let b = ((a & 0x33333333) + ((a & 0xcccccccc) >> 2)) as u32;
    let c = ((b & 0x0f0f0f0f) + ((b & 0xf0f0f0f0) >> 4)) as u32;
    let d = ((c & 0x00ff00ff) + ((c & 0xff00ff00) >> 8)) as u32;
    ((d & 0x0000ffff) + ((d & 0xffff0000) >> 16)) as u32
}

/// No step of the first formulation leaves the range of its type, and its
/// result adds up the thirty-two bits.
proof fn lemma_swar_subtract_bits(x: u32)
    by (bit_vector)
    ensures
        ({
            let n = x as u64;
            let a = (n - ((n >> 1) & 0x55555555)) as u64;
            let b = (((a >> 2) & 0x33333333) + (a & 0x33333333)) as u64;
            let c = (((b >> 4) + b) as u64) & 0x0f0f0f0f;
            let d = (((c >> 8) + c) as u64) & 0x00ff00ff;
            &&& (n >> 1) & 0x55555555 <= n
            &&& ((a >> 2) & 0x33333333) + (a & 0x33333333) <= 0xffff_ffff
            &&& (b >> 4) + b <= 0xffff_ffff
            &&& (c >> 8) + c <= 0xffff_ffff
            &&& (d >> 16) + d <= 0xffff_ffff
        }),
        swar_subtract(x) == bit_sum32(x),
{
}

/// No step of the second formulation leaves the range of its type, and its
/// result adds up the thirty-two bits.
proof fn lemma_swar_mask_bits(x: u32)
    by (bit_vector)
    ensures
        ({
            let a = ((x & 0x55555555) + ((x & 0xaaaaaaaa) >> 1)) as u32;
            let b = ((a & 0x33333333) + ((a & 0xcccccccc) >> 2)) as u32;
            let c = ((b & 0x0f0f0f0f) + ((b & 0xf0f0f0f0) >> 4)) as u32;
            let d = ((c & 0x00ff00ff) + ((c & 0xff00ff00) >> 8)) as u32;
            &&& (x & 0x55555555) + ((x & 0xaaaaaaaa) >> 1) <= 0xffff_ffff
            &&& (a & 0x33333333) + ((a & 0xcccccccc) >> 2) <= 0xffff_ffff
            &&& (b & 0x0f0f0f0f) + ((b & 0xf0f0f0f0) >> 4) <= 0xffff_ffff
            &&& (c & 0x00ff00ff) + ((c & 0xff00ff00) >> 8) <= 0xffff_ffff
            &&& (d & 0x0000ffff) + ((d & 0xffff0000) >> 16) <= 0xffff_ffff
        }),
        swar_mask(x) == bit_sum32(x),
{
}

/// The two SWAR formulations agree with each other on every 32-bit value, and
/// both count its set bits.
pub proof fn lemma_swar_formulations_agree(x: u32)
    ensures
        swar_subtract(x) == swar_mask(x),
        swar_mask(x) == popcount(x as nat),
{
    lemma_swar_subtract_bits(x);
    lemma_swar_mask_bits(x);
    lemma_bit_sum32(x);
}

/// SWAR, subtract-then-mask-add: the number is treated as lanes of 1, 2, 4, 8
/// and 16 bits whose sums are formed side by side, without a branch.
pub fn count_ones_inplace_4(num: Sample) -> (count: u8)
    ensures
        count == popcount(num@),
        count == swar_subtract(num@ as u32),
{
    let value: u32 = num.value();
    let wide: u64 = value as u64;
    proof {
        lemma_swar_subtract_bits(value);
        lemma_swar_formulations_agree(value);
        lemma_popcount_u32(value);
    }
    let masks: [u64; 5] = [0x55555555, 0x33333333, 0x0f0f0f0f, 0x00ff00ff, 0x0000ffff];
    let mut ret: u64 = wide - ((wide >> 1) & masks[0]);
    ret = ((ret >> 2) & masks[1]) + (ret & masks[1]);
    ret = ((ret >> 4) + ret) & masks[2];
    ret = ((ret >> 8) + ret) & masks[3];
    ret = ((ret >> 16) + ret) & masks[4];
    ret as u8
}

/// SWAR, mask-then-shift-add: the same lane sums as [`count_ones_inplace_4`],
/// formed with each mask and its bitwise complement.
pub fn count_ones_inplace_5(num: Sample) -> (count: u8)
    ensures
        count == popcount(num@),
        count == swar_mask(num@ as u32),
{
    let value: u32 = num.value();
    proof {
        lemma_swar_mask_bits(value);
        lemma_swar_formulations_agree(value);
        lemma_popcount_u32(value);
    }
    let masks: [u32; 5] = [0x55555555, 0x33333333, 0x0f0f0f0f, 0x00ff00ff, 0x0000ffff];
    let inverse_masks: [u32; 5] = [0xaaaaaaaa, 0xcccccccc, 0xf0f0f0f0, 0xff00ff00, 0xffff0000];
    let mut ret: u32 = (value & masks[0]) + ((value & inverse_masks[0]) >> 1);
    ret = (ret & masks[1]) + ((ret & inverse_masks[1]) >> 2);
    ret = (ret & masks[2]) + ((ret & inverse_masks[2]) >> 4);
    ret = (ret & masks[3]) + ((ret & inverse_masks[3]) >> 8);
    ret = (ret & masks[4]) + ((ret & inverse_masks[4]) >> 16);
    ret as u8
}

} // verus!
