//! How integer weights are quantized and packed.
use vstd::prelude::*;

use crate::data_type::DataType;

verus! {

/// The width of a packed weight code.
#[derive(Clone, Copy, Debug, PartialEq, Eq, Hash, Structural)]
pub enum QuantizationMode {
    U4,
    U8,
}

/// How a weight is recovered from its code.
#[derive(Clone, Copy, Debug, PartialEq, Eq, Hash, Structural)]
pub enum QuantizationMethod {
    ScaleBias,
    ScaleZeroPoint,
    ScaleSymmetric,
}

/// The number of elements of a Hadamard transform block.
pub const HADAMARD_TRANSFORM_BLOCK_SIZE: u32 = 32;

/// The number of activations that share one scale.
pub const ACTIVATION_SCALE_GROUP_SIZE: u32 = 32;

impl QuantizationMode {
    /// The number of bits of one code.
    pub open spec fn spec_bits(self) -> u32 {
        match self {
            QuantizationMode::U4 => 4,
            QuantizationMode::U8 => 8,
        }
    }

    /// The number of bits of one code.
    #[verifier::when_used_as_spec(spec_bits)]
    pub fn bits(self) -> (bits: u32)
        ensures
            bits == self.bits(),
    {
        match self {
            QuantizationMode::U4 => 4,
            QuantizationMode::U8 => 8,
        }
    }

    /// The number of codes in one stored element.
    pub open spec fn spec_packing_divisor(self) -> u32 {
        8u32 / self.spec_bits()
    }

    /// The number of codes in one stored element.
    #[verifier::when_used_as_spec(spec_packing_divisor)]
    pub fn packing_divisor(self) -> (divisor: u32)
        ensures
            divisor == self.packing_divisor(),
            1 <= divisor <= 2,
    {
        match self {
            QuantizationMode::U4 => 2,
            QuantizationMode::U8 => 1,
        }
    }

    /// The type of a stored element.
    pub open spec fn spec_storage_type(self) -> DataType {
        DataType::U8
    }

    /// The type of a stored element.
    #[verifier::when_used_as_spec(spec_storage_type)]
    pub fn storage_type(self) -> (data_type: DataType)
        ensures
            data_type == self.storage_type(),
    {
        DataType::U8
    }

    /// The bits of a stored byte that turn its unsigned codes into signed ones: the highest bit of
    /// each code.
    pub open spec fn spec_weight_codes_sign_flip_mask(self) -> Option<u8> {
        match self {
            QuantizationMode::U4 => Some(0x88),
            QuantizationMode::U8 => Some(0x80),
        }
    }

    /// The bits of a stored byte that turn its unsigned codes into signed ones.
    #[verifier::when_used_as_spec(spec_weight_codes_sign_flip_mask)]
    pub fn weight_codes_sign_flip_mask(self) -> (mask: Option<u8>)
        ensures
            mask == self.weight_codes_sign_flip_mask(),
    {
        match self {
            QuantizationMode::U4 => Some(0x88),
            QuantizationMode::U8 => Some(0x80),
        }
    }
}

/// The codes of a stored element fill it, and the mask that makes codes signed has the highest bit of each
/// code and no other.
pub proof fn law_codes_fill_a_stored_element(mode: QuantizationMode)
    ensures
        mode.packing_divisor() * mode.bits() == 8 * mode.storage_type().size_in_bytes(),
        mode.weight_codes_sign_flip_mask() is Some,
        forall|index: nat|
            #![trigger vstd::arithmetic::power2::pow2(index)]
            index < 8 ==> ((mode.weight_codes_sign_flip_mask()->0 as int
                / vstd::arithmetic::power2::pow2(index) as int) % 2 == 1 <==> (index + 1)
                % mode.bits() as nat == 0),
{
    vstd::arithmetic::power2::lemma2_to64();
    assert forall|index: nat|
        #![trigger vstd::arithmetic::power2::pow2(index)]
        index < 8 implies ((mode.weight_codes_sign_flip_mask()->0 as int
        / vstd::arithmetic::power2::pow2(index) as int) % 2 == 1 <==> (index + 1) % mode.bits() as nat
        == 0) by {
        if index == 0 {
            assert(vstd::arithmetic::power2::pow2(index) as int == 1);
            assert((0x88int / 1int) % 2 == 0 && (0x80int / 1int) % 2 == 0);
        } else if index == 1 {
            assert(vstd::arithmetic::power2::pow2(index) as int == 2);
            assert((0x88int / 2int) % 2 == 0 && (0x80int / 2int) % 2 == 0);
        } else if index == 2 {
            assert(vstd::arithmetic::power2::pow2(index) as int == 4);
            assert((0x88int / 4int) % 2 == 0 && (0x80int / 4int) % 2 == 0);
        } else if index == 3 {
            assert(vstd::arithmetic::power2::pow2(index) as int == 8);
            assert((0x88int / 8int) % 2 == 1 && (0x80int / 8int) % 2 == 0);
        } else if index == 4 {
            assert(vstd::arithmetic::power2::pow2(index) as int == 16);
            assert((0x88int / 16int) % 2 == 0 && (0x80int / 16int) % 2 == 0);
        } else if index == 5 {
            assert(vstd::arithmetic::power2::pow2(index) as int == 32);
            assert((0x88int / 32int) % 2 == 0 && (0x80int / 32int) % 2 == 0);
        } else if index == 6 {
            assert(vstd::arithmetic::power2::pow2(index) as int == 64);
            assert((0x88int / 64int) % 2 == 0 && (0x80int / 64int) % 2 == 0);
        } else if index == 7 {
            assert(vstd::arithmetic::power2::pow2(index) as int == 128);
            assert((0x88int / 128int) % 2 == 1 && (0x80int / 128int) % 2 == 1);
        }
    }
}

/// A code is as many bits wide as its mode is named for.
pub proof fn law_modes_are_named_for_their_bits(mode: QuantizationMode)
    ensures
        mode == QuantizationMode::U4 <==> mode.bits() == 4,
        mode == QuantizationMode::U8 <==> mode.bits() == 8,
{
}

} // verus!
