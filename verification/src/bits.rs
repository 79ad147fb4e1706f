//! The mathematical model: what "the number of set bits" means, and the
//! arithmetic facts about it that the counting strategies rest on.

use vstd::arithmetic::div_mod::{lemma_basic_div, lemma_div_denominator};
use vstd::arithmetic::power2::{lemma2_to64, lemma_pow2_pos, lemma_pow2_unfold, pow2};
use vstd::prelude::*;

verus! {

/// The number of 1-digits in the binary representation of `n`.
pub open spec fn popcount(n: nat) -> nat
    decreases n,
{
    if n == 0 {
        0
    } else {
        (n % 2) + popcount(n / 2)
    }
}

/// A number below `2^bits` has at most `bits` set bits.
pub proof fn lemma_popcount_bound(n: nat, bits: nat)
    requires
        n < pow2(bits),
    ensures
        popcount(n) <= bits,
    decreases bits,
{
    if n != 0 {
        if bits == 0 {
            lemma2_to64();
        } else {
            lemma_pow2_unfold(bits);
            lemma_popcount_bound(n / 2, (bits - 1) as nat);
        }
    }
}

/// Splitting a number at bit `k` splits its count: the low `k` bits and the
/// bits above them are counted independently.
pub proof fn lemma_popcount_split(lo: nat, hi: nat, k: nat)
    requires
        lo < pow2(k),
    ensures
        popcount(lo + pow2(k) * hi) == popcount(lo) + popcount(hi),
    decreases k,
{
    let n = lo + pow2(k) * hi;
    if k == 0 {
        lemma2_to64();
        assert(pow2(0) * hi == hi);
    } else {
        let half = pow2((k - 1) as nat);
        lemma_pow2_unfold(k);
        assert(pow2(k) * hi == 2 * (half * hi)) by (nonlinear_arith)
            requires
                pow2(k) == 2 * half,
        ;
        assert(n == 2 * (lo / 2 + half * hi) + lo % 2);
        assert(n % 2 == lo % 2);
        assert(n / 2 == lo / 2 + half * hi);
        lemma_popcount_split(lo / 2, hi, (k - 1) as nat);
    }
}

/// Doubling a number appends a zero bit and leaves the count unchanged.
pub proof fn lemma_popcount_double(n: nat)
    ensures
        popcount(2 * n) == popcount(n),
{
    if n != 0 {
        assert((2 * n) / 2 == n);
        assert((2 * n) % 2 == 0);
    }
}

/// `2^k` has exactly one set bit.
pub proof fn lemma_popcount_pow2(k: nat)
    ensures
        popcount(pow2(k)) == 1,
{
    lemma_pow2_pos(k);
    lemma_popcount_split(0, 1, k);
    assert(pow2(k) * 1 == pow2(k));
    assert(popcount(1) == 1) by {
        reveal_with_fuel(popcount, 2);
    }
}

/// `2^k - 1`, the number whose low `k` bits are all set, has `k` set bits.
pub proof fn lemma_popcount_all_ones(k: nat)
    ensures
        popcount((pow2(k) - 1) as nat) == k,
    decreases k,
{
    lemma_pow2_pos(k);
    if k == 0 {
        lemma2_to64();
    } else {
        lemma_pow2_unfold(k);
        let m = (pow2((k - 1) as nat) - 1) as nat;
        lemma_pow2_pos((k - 1) as nat);
        lemma_popcount_all_ones((k - 1) as nat);
        let n = (pow2(k) - 1) as nat;
        assert(n == 2 * m + 1);
        assert(n / 2 == m);
        assert(n % 2 == 1);
    }
}

/// Dropping one more low bit: the bits of `n` from position `i` upwards are
/// bit `i` itself and the bits from position `i + 1` upwards.
pub proof fn lemma_popcount_shift_step(n: nat, i: nat)
    ensures
        pow2(i) > 0,
        pow2(i + 1) == 2 * pow2(i),
        popcount(n / pow2(i)) == (n / pow2(i)) % 2 + popcount(n / pow2(i + 1)),
{
    lemma_pow2_pos(i);
    lemma_pow2_unfold(i + 1);
    lemma_div_denominator(n as int, pow2(i) as int, 2);
    assert(pow2(i) * 2 == pow2(i + 1));
    assert((n / pow2(i)) / 2 == n / pow2(i + 1));
}

/// What a scan over the lowest `digits` bit positions of `value` adds up: the
/// binary digit found at each position.
pub open spec fn bit_scan(value: nat, digits: nat) -> nat
    decreases digits,
{
    if digits == 0 {
        0
    } else {
        bit_scan(value, (digits - 1) as nat) + (value / pow2((digits - 1) as nat)) % 2
    }
}

/// A scan over the lowest `digits` positions has counted every set bit but
/// those at the positions above.
pub proof fn lemma_bit_scan(value: nat, digits: nat)
    ensures
        bit_scan(value, digits) <= digits,
        bit_scan(value, digits) + popcount(value / pow2(digits)) == popcount(value),
    decreases digits,
{
    if digits == 0 {
        let unit = pow2(0);
        lemma2_to64();
        assert(value / unit == value) by (nonlinear_arith)
            requires
                unit == 1,
        ;
    } else {
        lemma_bit_scan(value, (digits - 1) as nat);
        lemma_popcount_shift_step(value, (digits - 1) as nat);
    }
}

/// A scan over as many positions as the number has digits counts all of its
/// set bits.
pub proof fn lemma_bit_scan_complete(value: nat, digits: nat)
    requires
        value < pow2(digits),
    ensures
        bit_scan(value, digits) == popcount(value),
{
    lemma_bit_scan(value, digits);
    lemma_basic_div(value as int, pow2(digits) as int);
}

/// The eight bits of a byte, added up one by one.
pub open spec fn bit_sum8(b: u32) -> int {
    (b & 1) + ((b >> 1) & 1) + ((b >> 2) & 1) + ((b >> 3) & 1) + ((b >> 4) & 1) + ((b >> 5) & 1)
        + ((b >> 6) & 1) + ((b >> 7) & 1)
}

/// The thirty-two bits of a word, added up one by one, byte after byte.
pub open spec fn bit_sum32(x: u32) -> int {
    bit_sum8(x & 0xff) + bit_sum8((x >> 8) & 0xff) + bit_sum8((x >> 16) & 0xff) + bit_sum8(
        x >> 24,
    )
}

/// For a byte, the recursive count and the sum of the eight bits agree.
pub proof fn lemma_bit_sum8(b: u32)
    requires
        b < 256,
    ensures
        popcount(b as nat) == bit_sum8(b),
{
    assert(b & 1 == b % 2 && (b >> 1) & 1 == (b / 2) % 2 && (b >> 2) & 1 == (b / 4) % 2 && (b >> 3)
        & 1 == (b / 8) % 2 && (b >> 4) & 1 == (b / 16) % 2 && (b >> 5) & 1 == (b / 32) % 2 && (b
        >> 6) & 1 == (b / 64) % 2 && (b >> 7) & 1 == (b / 128) % 2) by (bit_vector);
    let n = b as nat;
    assert(popcount(n / 256) == 0);
    assert(popcount(n / 128) == (n / 128) % 2 + popcount(n / 256));
    assert(popcount(n / 64) == (n / 64) % 2 + popcount(n / 128));
    assert(popcount(n / 32) == (n / 32) % 2 + popcount(n / 64));
    assert(popcount(n / 16) == (n / 16) % 2 + popcount(n / 32));
    assert(popcount(n / 8) == (n / 8) % 2 + popcount(n / 16));
    assert(popcount(n / 4) == (n / 4) % 2 + popcount(n / 8));
    assert(popcount(n / 2) == (n / 2) % 2 + popcount(n / 4));
    assert(popcount(n) == n % 2 + popcount(n / 2));
}

/// A word's count is the sum of the counts of its four bytes.
pub proof fn lemma_popcount_bytes(x: u32)
    ensures
        popcount(x as nat) == popcount((x & 0xff) as nat) + popcount(((x >> 8) & 0xff) as nat)
            + popcount(((x >> 16) & 0xff) as nat) + popcount((x >> 24) as nat),
{
    let b0 = x & 0xff;
    let b1 = (x >> 8) & 0xff;
    let b2 = (x >> 16) & 0xff;
    let b3 = x >> 24;
    assert(x & 0xff < 256 && (x >> 8) & 0xff < 256 && (x >> 16) & 0xff < 256 && x >> 24 < 256 && x
        == (x & 0xff) + 256 * (((x >> 8) & 0xff) + 256 * (((x >> 16) & 0xff) + 256 * (x >> 24))))
        by (bit_vector);
    lemma2_to64();
    let top = (b2 + 256 * b3) as nat;
    let mid = (b1 + 256 * top) as nat;
    lemma_popcount_split(b2 as nat, b3 as nat, 8);
    lemma_popcount_split(b1 as nat, top, 8);
    lemma_popcount_split(b0 as nat, mid, 8);
}

/// For a word, the recursive count and the sum of the thirty-two bits agree.
pub proof fn lemma_bit_sum32(x: u32)
    ensures
        popcount(x as nat) == bit_sum32(x),
{
    assert(x & 0xff < 256 && (x >> 8) & 0xff < 256 && (x >> 16) & 0xff < 256 && x >> 24 < 256)
        by (bit_vector);
    lemma_popcount_bytes(x);
    lemma_bit_sum8(x & 0xff);
    lemma_bit_sum8((x >> 8) & 0xff);
    lemma_bit_sum8((x >> 16) & 0xff);
    lemma_bit_sum8(x >> 24);
}

/// A word has at most thirty-two set bits.
pub proof fn lemma_popcount_u32(x: u32)
    ensures
        popcount(x as nat) <= 32,
{
    lemma2_to64();
    lemma_popcount_bound(x as nat, 32);
}

/// Clearing the lowest set bit of a nonzero word gives a smaller word.
pub proof fn lemma_clear_lowest_bit_decreases(n: u32)
    requires
        n > 0,
    ensures
        n & ((n - 1) as u32) < n,
{
    let m = (n - 1) as u32;
    assert(n & m < n) by (bit_vector)
        requires
            n > 0,
            m == n - 1,
    ;
}

/// Clearing the lowest set bit of a nonzero word, by `n & (n - 1)`, takes
/// exactly one from its count.
pub proof fn lemma_clear_lowest_bit(n: u32)
    requires
        n > 0,
    ensures
        popcount((n & ((n - 1) as u32)) as nat) + 1 == popcount(n as nat),
    decreases n,
{
    let m = (n - 1) as u32;
    if n % 2 == 1 {
        assert(n & m == m) by (bit_vector)
            requires
                n % 2 == 1,
                m == n - 1,
        ;
        assert(m as nat / 2 == n as nat / 2);
    } else {
        let h = n / 2;
        let hm = (h - 1) as u32;
        assert(n & m == 2 * (h & hm)) by (bit_vector)
            requires
                n > 0,
                n % 2 == 0,
                m == n - 1,
                h == n / 2,
                hm == h - 1,
        ;
        lemma_clear_lowest_bit(h);
        lemma_popcount_double((h & hm) as nat);
    }
}

/// The number of times that the lowest set bit of `n` can be cleared before
/// nothing is left: the number of rounds of Kernighan's loop.
pub open spec fn clearing_steps(n: u32) -> nat
    decreases n,
    via clearing_steps_decreases
{
    if n == 0 {
        0
    } else {
        1 + clearing_steps(n & ((n - 1) as u32))
    }
}

#[via_fn]
proof fn clearing_steps_decreases(n: u32) {
    if n != 0 {
        lemma_clear_lowest_bit_decreases(n);
    }
}

/// Kernighan's loop runs once for each set bit.
pub proof fn lemma_clearing_steps(n: u32)
    ensures
        clearing_steps(n) == popcount(n as nat),
    decreases n,
{
    if n != 0 {
        lemma_clear_lowest_bit_decreases(n);
        lemma_clear_lowest_bit(n);
        lemma_clearing_steps(n & ((n - 1) as u32));
    }
}

} // verus!
