//! The width of one FIFO word.

use vstd::prelude::*;

verus! {

/// Supported data widths for the AXI Stream FIFO.
#[derive(Clone, Copy, Debug, PartialEq, Eq, Structural)]
pub enum StreamFifoValue {
    U32,
    U64,
    U128,
    U256,
    U512,
}

impl StreamFifoValue {
    /// The number of bits in one FIFO word.
    pub open spec fn spec_bits(&self) -> usize {
        match self {
            Self::U32 => 32,
            Self::U64 => 64,
            Self::U128 => 128,
            Self::U256 => 256,
            Self::U512 => 512,
        }
    }

    /// The number of bytes in one FIFO word.
    pub open spec fn spec_byte_count(&self) -> usize {
        match self {
            Self::U32 => 4,
            Self::U64 => 8,
            Self::U128 => 16,
            Self::U256 => 32,
            Self::U512 => 64,
        }
    }

    /// Whether the bus can move a word of this width in one transaction.
    pub open spec fn spec_transferable(&self) -> bool {
        self.spec_bits() <= 128
    }

    /// The width that has the given bit count, if there is one.
    pub open spec fn spec_try_from_bits(bits: usize) -> Option<Self> {
        if bits == 32 {
            Some(Self::U32)
        } else if bits == 64 {
            Some(Self::U64)
        } else if bits == 128 {
            Some(Self::U128)
        } else if bits == 256 {
            Some(Self::U256)
        } else if bits == 512 {
            Some(Self::U512)
        } else {
            None
        }
    }

    /// Returns the bit count of the data width.
    #[verifier::when_used_as_spec(spec_bits)]
    pub fn bits(&self) -> (n: usize)
        ensures
            n == self.spec_bits(),
    {
        match self {
            Self::U32 => 32,
            Self::U64 => 64,
            Self::U128 => 128,
            Self::U256 => 256,
            Self::U512 => 512,
        }
    }

    /// Returns the byte count of the data width.
    #[verifier::when_used_as_spec(spec_byte_count)]
    pub fn byte_count(&self) -> (n: usize)
        ensures
            n == self.spec_byte_count(),
    {
        match self {
            Self::U32 => 4,
            Self::U64 => 8,
            Self::U128 => 16,
            Self::U256 => 32,
            Self::U512 => 64,
        }
    }

    /// Returns the data width that has the given bit count, if there is one.
    #[verifier::when_used_as_spec(spec_try_from_bits)]
    pub fn try_from_bits(bits: usize) -> (r: Option<Self>)
        ensures
            r == Self::spec_try_from_bits(bits),
    {
        match bits {
            32 => Some(Self::U32),
            64 => Some(Self::U64),
            128 => Some(Self::U128),
            256 => Some(Self::U256),
            512 => Some(Self::U512),
            _ => None,
        }
    }

    /// Whether the bus can move a word of this width in one transaction:
    /// true of 32, 64 and 128 bits.
    #[verifier::when_used_as_spec(spec_transferable)]
    pub fn transferable(&self) -> (b: bool)
        ensures
            b == self.spec_transferable(),
    {
        match self {
            Self::U32 | Self::U64 | Self::U128 => true,
            Self::U256 | Self::U512 => false,
        }
    }
}

/// Every width has a positive byte count, which is an eighth of its bit
/// count, and is the width that its own bit count names.
pub proof fn lemma_width_round_trip(w: StreamFifoValue)
    ensures
        w.spec_byte_count() > 0,
        w.spec_byte_count() == w.spec_bits() / 8,
        StreamFifoValue::spec_try_from_bits(w.spec_bits()) == Some(w),
{
}

/// A bit count names a width exactly when it is the bit count of that width.
pub proof fn lemma_bits_name_one_width(bits: usize, w: StreamFifoValue)
    ensures
        StreamFifoValue::spec_try_from_bits(bits) == Some(w) <==> w.spec_bits() == bits,
{
}

} // verus!
