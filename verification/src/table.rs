//! Lookup tables of set-bit counts, built by a doubling recurrence: the
//! upper half of each power-of-two range repeats the lower half, plus one for
//! the top bit.

use crate::bits::{lemma_popcount_bound, lemma_popcount_split, lemma_popcount_u32, popcount};
use crate::sample::Width;
use vstd::arithmetic::power2::{
    lemma2_to64, lemma_pow2_pos, lemma_pow2_strictly_increases, lemma_pow2_unfold, pow2,
};
use vstd::bits::lemma_usize_shl_is_mul;
use vstd::prelude::*;

verus! {

/// The largest domain, in bits, that a table is built for. A table over `k`
/// bits takes `2^k` bytes; beyond 16 bits the library refuses to allocate it.
pub const MAX_TABLE_BITS: u32 = 16;

/// The number of bits that the small table covers: one byte lane.
pub const SMALL_TABLE_BITS: u32 = 8;

/// A table was asked for over a domain too large to allocate.
#[derive(Clone, Copy, Debug, PartialEq, Eq, Structural)]
pub struct AllocationInfeasible {
    /// The number of bits of the domain that was asked for.
    pub bits: u32,
}

/// What a finished table over `bits` bits holds: `2^bits` entries, entry `i`
/// being the number of set bits of `i`.
pub open spec fn is_popcount_table(entries: Seq<u8>, bits: nat) -> bool {
    &&& entries.len() == pow2(bits)
    &&& forall|i: int| 0 <= i < entries.len() ==> entries[i] == popcount(i as nat)
}

/// Two finished tables over the same domain are the same table.
pub proof fn lemma_popcount_table_unique(first: Seq<u8>, second: Seq<u8>, bits: nat)
    requires
        is_popcount_table(first, bits),
        is_popcount_table(second, bits),
    ensures
        first == second,
{
    assert(first =~= second);
}

/// In a finished table every entry but the first is the lowest bit of its
/// index plus the entry at half the index.
pub proof fn lemma_table_halving_recurrence(entries: Seq<u8>, bits: nat)
    requires
        is_popcount_table(entries, bits),
    ensures
        forall|i: usize|
            0 < i < entries.len() ==> entries[i as int] == (i & 1) + #[trigger] entries[(i
                >> 1) as int],
{
    assert forall|i: usize| 0 < i < entries.len() implies entries[i as int] == (i & 1)
        + #[trigger] entries[(i >> 1) as int] by {
        assert(i & 1 == i % 2 && i >> 1 == i / 2) by (bit_vector);
    }
}

/// In a finished table the entries from a power of two `p` up to `2p` are
/// the entries from 0 up to `p`, each plus one.
pub proof fn lemma_table_doubling_recurrence(entries: Seq<u8>, bits: nat)
    requires
        is_popcount_table(entries, bits),
    ensures
        bits >= 1 ==> entries[0] == 0 && entries[1] == 1,
        forall|k: nat| k < bits ==> 2 * #[trigger] pow2(k) <= entries.len(),
        forall|k: nat, i: int|
            k < bits && pow2(k) <= i < 2 * pow2(k) ==> #[trigger] entries[i] == 1 + entries[i
                - #[trigger] pow2(k)],
{
    if bits >= 1 {
        lemma2_to64();
        lemma_pow2_unfold(bits);
        lemma_pow2_pos((bits - 1) as nat);
        assert(popcount(1) == 1) by {
            reveal_with_fuel(popcount, 2);
        }
    }
    assert forall|k: nat| k < bits implies 2 * #[trigger] pow2(k) <= entries.len() by {
        lemma_pow2_unfold(k + 1);
        if k + 1 < bits {
            lemma_pow2_strictly_increases(k + 1, bits);
        }
    }
    assert forall|k: nat, i: int| k < bits && pow2(k) <= i < 2 * pow2(k) implies #[trigger] entries[i]
        == 1 + entries[i - #[trigger] pow2(k)] by {
        lemma_upper_half(k, i as nat);
    }
}

/// An index in the upper half of `[0, 2p)`, for `p = 2^k`, has one more set
/// bit than the index `p` below it.
proof fn lemma_upper_half(k: nat, i: nat)
    requires
        pow2(k) <= i < 2 * pow2(k),
    ensures
        popcount(i) == 1 + popcount((i - pow2(k)) as nat),
{
    lemma_popcount_split((i - pow2(k)) as nat, 1, k);
    assert(pow2(k) * 1 == pow2(k));
    assert(popcount(1) == 1) by {
        reveal_with_fuel(popcount, 2);
    }
}

/// Builds the table over `bits` bits by the doubling recurrence: entries 0
/// and 1 are set by hand, and for each power of two `p` from 2 upwards the
/// entries of `[p, 2p)` are those of `[0, p)` plus one. A domain of more
/// than [`MAX_TABLE_BITS`] bits is refused, and nothing is allocated for it.
pub fn build_by_doubling(bits: u32) -> (built: Result<Vec<u8>, AllocationInfeasible>)
    ensures
        bits <= MAX_TABLE_BITS ==> built is Ok && is_popcount_table(built->Ok_0@, bits as nat),
        bits > MAX_TABLE_BITS ==> built == Err::<Vec<u8>, AllocationInfeasible>(
            AllocationInfeasible { bits },
        ),
{
    if bits > MAX_TABLE_BITS {
        return Err(AllocationInfeasible { bits });
    }
    proof {
        lemma2_to64();
        lemma_size_of_table(bits);
    }
    let size: usize = 1usize << bits;
    let mut arr: Vec<u8> = vec![0u8; size];
    if bits == 0 {
        return Ok(arr);
    }
    let mut next_pow: usize = 2;
    arr.set(0, 0);
    arr.set(1, 1);
    assert(popcount(1) == 1) by {
        reveal_with_fuel(popcount, 2);
    }
    let mut step: u32 = 1;
    while step < bits
        invariant
            1 <= step <= bits <= MAX_TABLE_BITS,
            next_pow == pow2(step as nat),
            size == pow2(bits as nat),
            arr.len() == size,
            forall|j: int| 0 <= j < next_pow ==> arr[j] == popcount(j as nat),
        decreases bits - step,
    {
        proof {
            lemma_pow2_unfold((step + 1) as nat);
            if step + 1 < bits {
                lemma_pow2_strictly_increases((step + 1) as nat, bits as nat);
            }
            lemma_size_of_table(bits);
            assert(next_pow << 1 == 2 * next_pow) by (bit_vector)
                requires
                    next_pow <= 0x8000,
            ;
        }
        let mut i: usize = next_pow;
        while i < next_pow << 1
            invariant
                1 <= step < bits <= MAX_TABLE_BITS,
                next_pow == pow2(step as nat),
                next_pow << 1 == 2 * next_pow,
                2 * next_pow <= size,
                size == pow2(bits as nat),
                arr.len() == size,
                next_pow <= i <= 2 * next_pow,
                forall|j: int| 0 <= j < i ==> arr[j] == popcount(j as nat),
            decreases 2 * next_pow - i,
        {
            proof {
                lemma_upper_half(step as nat, i as nat);
                lemma_popcount_bound((i - next_pow) as nat, step as nat);
            }
            let below: u8 = arr[i - next_pow];
            arr.set(i, 1 + below);
            i += 1;
        }
        next_pow <<= 1;
        step += 1;
    }
    Ok(arr)
}

/// `1 << bits` is `2^bits`, and fits, for every domain that is not refused.
proof fn lemma_size_of_table(bits: u32)
    requires
        bits <= MAX_TABLE_BITS,
    ensures
        1usize << bits == pow2(bits as nat),
        pow2(bits as nat) <= 0x1_0000,
{
    lemma2_to64();
    if bits < 16 {
        lemma_pow2_strictly_increases(bits as nat, 16);
    }
    lemma_usize_shl_is_mul(1, bits as usize);
}

/// Builds the table over `bits` bits by asking the processor's population
/// count for every index: the second, independent way to the same table.
/// A domain of more than [`MAX_TABLE_BITS`] bits is refused.
pub fn build_by_primitive(bits: u32) -> (built: Result<Vec<u8>, AllocationInfeasible>)
    ensures
        bits <= MAX_TABLE_BITS ==> built is Ok && is_popcount_table(built->Ok_0@, bits as nat),
        bits > MAX_TABLE_BITS ==> built == Err::<Vec<u8>, AllocationInfeasible>(
            AllocationInfeasible { bits },
        ),
{
    if bits > MAX_TABLE_BITS {
        return Err(AllocationInfeasible { bits });
    }
    proof {
        lemma_size_of_table(bits);
    }
    let size: usize = 1usize << bits;
    let mut arr: Vec<u8> = vec![0u8; size];
    let mut i: usize = 0;
    while i < arr.len()
        invariant
            arr.len() == size,
            size <= 0x1_0000,
            i <= size,
            forall|j: int| 0 <= j < i ==> arr[j] == popcount(j as nat),
        decreases size - i,
    {
        proof {
            lemma_popcount_u32(i as u32);
        }
        arr.set(i, (i as u32).count_ones() as u8);
        i += 1;
    }
    Ok(arr)
}

/// The table over one byte lane: 256 entries, entry `i` being the number of
/// set bits of `i`. A value of this type is always a finished table.
pub struct SmallTable {
    entries: Vec<u8>,
}

impl View for SmallTable {
    type V = Seq<u8>;

    /// The entries of the table, in index order.
    closed spec fn view(&self) -> Seq<u8> {
        self.entries@
    }
}

impl SmallTable {
    #[verifier::type_invariant]
    spec fn finished(self) -> bool {
        is_popcount_table(self.entries@, SMALL_TABLE_BITS as nat)
    }

    /// Builds the table, by the doubling recurrence.
    pub fn build() -> (table: SmallTable)
        ensures
            is_popcount_table(table@, SMALL_TABLE_BITS as nat),
    {
        let built = build_by_doubling(SMALL_TABLE_BITS);
        SmallTable { entries: built.unwrap() }
    }

    /// The entries of the table. Whoever holds a table sees all of it: there
    /// is no table with entries still to be filled in.
    pub fn entries(&self) -> (entries: &Vec<u8>)
        ensures
            entries@ == self@,
            is_popcount_table(entries@, SMALL_TABLE_BITS as nat),
    {
        proof {
            use_type_invariant(self);
        }
        &self.entries
    }

    /// The entry for one byte: its number of set bits.
    pub fn get(&self, index: u8) -> (count: u8)
        ensures
            count == self@[index as int],
            count == popcount(index as nat),
    {
        proof {
            use_type_invariant(self);
            lemma2_to64();
        }
        self.entries[index as usize]
    }
}

/// The table over the whole domain of one sample width: `2^W` entries, entry
/// `i` being the number of set bits of `i`. A value of this type is always a
/// finished table.
pub struct FullTable {
    width: Width,
    entries: Vec<u8>,
}

impl View for FullTable {
    type V = Seq<u8>;

    /// The entries of the table, in index order.
    closed spec fn view(&self) -> Seq<u8> {
        self.entries@
    }
}

impl FullTable {
    #[verifier::type_invariant]
    spec fn finished(self) -> bool {
        is_popcount_table(self.entries@, self.width.spec_bits() as nat)
    }

    /// The sample width whose domain the table covers.
    pub closed spec fn spec_width(&self) -> Width {
        self.width
    }

    /// Builds the table for samples of the given width, by the doubling
    /// recurrence. A width whose domain is more than [`MAX_TABLE_BITS`] bits
    /// is refused: for 16-bit samples the table is built, for 32-bit samples
    /// it is not.
    pub fn build(width: Width) -> (built: Result<FullTable, AllocationInfeasible>)
        ensures
            width.spec_bits() <= MAX_TABLE_BITS ==> built is Ok && built->Ok_0.spec_width() == width
                && is_popcount_table(built->Ok_0@, width.spec_bits() as nat),
            width.spec_bits() > MAX_TABLE_BITS ==> built == Err::<FullTable, AllocationInfeasible>(
                AllocationInfeasible { bits: width.spec_bits() },
            ),
    {
        match build_by_doubling(width.bits()) {
            Ok(entries) => Ok(FullTable { width, entries }),
            Err(refused) => Err(refused),
        }
    }

    /// Builds the table for samples of the given width by asking the
    /// processor's population count for every index. The outcome is that of
    /// [`FullTable::build`], entry for entry.
    pub fn build_by_primitive(width: Width) -> (built: Result<FullTable, AllocationInfeasible>)
        ensures
            width.spec_bits() <= MAX_TABLE_BITS ==> built is Ok && built->Ok_0.spec_width() == width
                && is_popcount_table(built->Ok_0@, width.spec_bits() as nat),
            width.spec_bits() > MAX_TABLE_BITS ==> built == Err::<FullTable, AllocationInfeasible>(
                AllocationInfeasible { bits: width.spec_bits() },
            ),
    {
        match build_by_primitive(width.bits()) {
            Ok(entries) => Ok(FullTable { width, entries }),
            Err(refused) => Err(refused),
        }
    }

    /// The sample width whose domain the table covers.
    #[verifier::when_used_as_spec(spec_width)]
    pub fn width(&self) -> (width: Width)
        ensures
            width == self.spec_width(),
    {
        self.width
    }

    /// The entries of the table. Whoever holds a table sees all of it: there
    /// is no table with entries still to be filled in.
    pub fn entries(&self) -> (entries: &Vec<u8>)
        ensures
            entries@ == self@,
            is_popcount_table(entries@, self.spec_width().spec_bits() as nat),
    {
        proof {
            use_type_invariant(self);
        }
        &self.entries
    }

    /// The entry for one value of the table's domain: its number of set bits.
    pub fn get(&self, index: u32) -> (count: u8)
        requires
            index <= self.spec_width().spec_max_value(),
        ensures
            count == self@[index as int],
            count == popcount(index as nat),
    {
        proof {
            use_type_invariant(self);
            lemma2_to64();
        }
        self.entries[index as usize]
    }
}

} // verus!
