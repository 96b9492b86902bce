//! The element types of tensors.
use vstd::prelude::*;

use crate::text;

verus! {

/// The type of a tensor's elements.
#[derive(Clone, Copy, Debug, PartialEq, Eq, Hash, Structural)]
pub enum DataType {
    BF16,
    F32,
    I8,
    I32,
    U8,
    U32,
    U64,
}

impl DataType {
    pub open spec fn spec_name(self) -> Seq<char> {
        match self {
            DataType::BF16 => "BF16"@,
            DataType::F32 => "F32"@,
            DataType::I8 => "I8"@,
            DataType::I32 => "I32"@,
            DataType::U8 => "U8"@,
            DataType::U32 => "U32"@,
            DataType::U64 => "U64"@,
        }
    }

    /// The name of the type.
    pub fn name(self) -> (name: &'static str)
        ensures
            name@ == self.spec_name(),
    {
        match self {
            DataType::BF16 => "BF16",
            DataType::F32 => "F32",
            DataType::I8 => "I8",
            DataType::I32 => "I32",
            DataType::U8 => "U8",
            DataType::U32 => "U32",
            DataType::U64 => "U64",
        }
    }

    /// The number of bytes of one element.
    pub open spec fn spec_size_in_bytes(self) -> usize {
        match self {
            DataType::I8 | DataType::U8 => 1,
            DataType::BF16 => 2,
            DataType::F32 | DataType::I32 | DataType::U32 => 4,
            DataType::U64 => 8,
        }
    }

    /// The number of bytes of one element.
    #[verifier::when_used_as_spec(spec_size_in_bytes)]
    pub fn size_in_bytes(self) -> (size: usize)
        ensures
            size == self.size_in_bytes(),
            1 <= size <= 8,
    {
        match self {
            DataType::I8 | DataType::U8 => 1,
            DataType::BF16 => 2,
            DataType::F32 | DataType::I32 | DataType::U32 => 4,
            DataType::U64 => 8,
        }
    }

    /// The number of bits of one element.
    pub fn size_in_bits(self) -> (size: usize)
        ensures
            size == 8 * self.size_in_bytes(),
    {
        8 * self.size_in_bytes()
    }
}

/// The number in the name of a type is the number of its bits.
pub proof fn law_names_give_the_bits(data_type: DataType, bits: usize)
    requires
        call_ensures(DataType::size_in_bits, (data_type,), bits),
    ensures
        exists|letters: Seq<char>|
            data_type.spec_name() == #[trigger] (letters + text::decimal(bits as nat)) && (letters == "BF"@
                || letters == "F"@ || letters == "I"@ || letters == "U"@),
        bits == 8 * data_type.size_in_bytes(),
{
    reveal_strlit("BF");
    reveal_strlit("F");
    reveal_strlit("I");
    reveal_strlit("U");
    reveal_strlit("BF16");
    reveal_strlit("F32");
    reveal_strlit("I8");
    reveal_strlit("I32");
    reveal_strlit("U8");
    reveal_strlit("U32");
    reveal_strlit("U64");
    reveal_with_fuel(text::decimal, 4);
    let letters = match data_type {
        DataType::BF16 => "BF"@,
        DataType::F32 => "F"@,
        DataType::I8 | DataType::I32 => "I"@,
        _ => "U"@,
    };
    assert(data_type.spec_name() =~= letters + text::decimal(bits as nat));
}

} // verus!
