//! The inputs: a bit width, and an unsigned integer of that width.

use vstd::prelude::*;

verus! {

/// The two bit widths that samples come in.
#[derive(Clone, Copy, Debug, PartialEq, Eq, Structural)]
pub enum Width {
    W16,
    W32,
}

impl Width {
    /// The number of bits of a sample of this width.
    pub open spec fn spec_bits(self) -> u32 {
        match self {
            Width::W16 => 16,
            Width::W32 => 32,
        }
    }

    /// The largest value of this width: all of its bits set.
    pub open spec fn spec_max_value(self) -> u32 {
        match self {
            Width::W16 => 0xffff,
            Width::W32 => 0xffff_ffff,
        }
    }

    /// The number of 8-bit lanes that a sample of this width splits into.
    pub open spec fn spec_lanes(self) -> usize {
        match self {
            Width::W16 => 2,
            Width::W32 => 4,
        }
    }

    /// What is left of `n` when it is cut down to this width: `n` modulo two
    /// to the power of the width.
    pub open spec fn wrap(self, n: nat) -> nat {
        match self {
            Width::W16 => n % 0x1_0000,
            Width::W32 => n % 0x1_0000_0000,
        }
    }

    /// The number of bits of a sample of this width.
    #[verifier::when_used_as_spec(spec_bits)]
    pub fn bits(self) -> (bits: u32)
        ensures
            bits == self.spec_bits(),
    {
        match self {
            Width::W16 => 16,
            Width::W32 => 32,
        }
    }

    /// The largest value of this width: all of its bits set.
    #[verifier::when_used_as_spec(spec_max_value)]
    pub fn max_value(self) -> (max: u32)
        ensures
            max == self.spec_max_value(),
    {
        match self {
            Width::W16 => 0xffff,
            Width::W32 => 0xffff_ffff,
        }
    }

    /// The number of 8-bit lanes that a sample of this width splits into.
    #[verifier::when_used_as_spec(spec_lanes)]
    pub fn lanes(self) -> (lanes: usize)
        ensures
            lanes == self.spec_lanes(),
            lanes * 8 == self.spec_bits(),
    {
        match self {
            Width::W16 => 2,
            Width::W32 => 4,
        }
    }
}

/// A value was offered as a sample of a width that cannot hold it.
#[derive(Clone, Copy, Debug, PartialEq, Eq, Structural)]
pub struct DomainViolation {
    /// The value that was offered.
    pub value: u32,
    /// The width it does not fit.
    pub width: Width,
}

/// An unsigned integer of one of the two widths. The variant fixes the width,
/// so a sample can never hold a value that its width cannot represent.
#[derive(Clone, Copy, Debug, PartialEq, Eq, Structural)]
pub enum Sample {
    W16(u16),
    W32(u32),
}

impl View for Sample {
    type V = nat;

    /// The sample's value as a natural number.
    open spec fn view(&self) -> nat {
        match self {
            Sample::W16(v) => *v as nat,
            Sample::W32(v) => *v as nat,
        }
    }
}

impl Sample {
    /// The width of the sample.
    pub open spec fn spec_width(self) -> Width {
        match self {
            Sample::W16(_) => Width::W16,
            Sample::W32(_) => Width::W32,
        }
    }

    /// The width of the sample.
    #[verifier::when_used_as_spec(spec_width)]
    pub fn width(self) -> (width: Width)
        ensures
            width == self.spec_width(),
    {
        match self {
            Sample::W16(_) => Width::W16,
            Sample::W32(_) => Width::W32,
        }
    }

    /// The sample's value, widened to 32 bits.
    pub fn value(self) -> (value: u32)
        ensures
            value == self@,
            value <= self.spec_width().spec_max_value(),
    {
        match self {
            Sample::W16(v) => v as u32,
            Sample::W32(v) => v,
        }
    }

    /// Makes a sample of the given width out of `value`, or refuses a value
    /// that the width cannot hold.
    pub fn new(value: u32, width: Width) -> (made: Result<Sample, DomainViolation>)
        ensures
            value <= width.spec_max_value() ==> made is Ok && made->Ok_0@ == value
                && made->Ok_0.spec_width() == width,
            value > width.spec_max_value() ==> made == Err::<Sample, DomainViolation>(
                DomainViolation { value, width },
            ),
    {
        match width {
            Width::W16 => {
                if value <= 0xffff {
                    Ok(Sample::W16(value as u16))
                } else {
                    Err(DomainViolation { value, width })
                }
            },
            Width::W32 => Ok(Sample::W32(value)),
        }
    }

    /// The sample of the given width with no bit set.
    pub fn zero(width: Width) -> (sample: Sample)
        ensures
            sample@ == 0,
            sample.spec_width() == width,
    {
        match width {
            Width::W16 => Sample::W16(0),
            Width::W32 => Sample::W32(0),
        }
    }

    /// The sample of the given width with every bit set.
    pub fn all_ones(width: Width) -> (sample: Sample)
        ensures
            sample@ == width.spec_max_value(),
            sample.spec_width() == width,
    {
        match width {
            Width::W16 => Sample::W16(0xffff),
            Width::W32 => Sample::W32(0xffff_ffff),
        }
    }

    /// The sample of the given width with only its highest bit set.
    pub fn highest_bit(width: Width) -> (sample: Sample)
        ensures
            sample@ == (width.spec_max_value() + 1) / 2,
            sample.spec_width() == width,
    {
        match width {
            Width::W16 => Sample::W16(0x8000),
            Width::W32 => Sample::W32(0x8000_0000),
        }
    }
}

} // verus!
