//! Types of the matrix multiplication kernels.
use vstd::prelude::*;

use crate::text;

verus! {

/// How the left operand is read.
#[derive(Clone, Copy, Debug, PartialEq, Eq, Hash, Structural)]
pub enum GemmAPrologueKind {
    FullPrecision,
    Int8Symmetric,
}

/// How the right operand is read.
#[derive(Clone, Copy, Debug, PartialEq, Eq, Hash, Structural)]
pub enum GemmBPrologueKind {
    FullPrecision,
    ScaleBiasDequant,
    ScaleZeroPointDequant,
    ScaleSymmetricDequant,
}

/// What is done to the product before it is stored.
#[derive(Clone, Copy, Debug, PartialEq, Eq, Hash, Structural)]
pub struct GemmDTransform {
    pub scale: bool,
    pub accumulate: bool,
    pub bias: bool,
    pub rht: bool,
    pub soft_cap: bool,
    pub gate_act_mul: bool,
}

/// One step of a [`GemmDTransform`].
#[derive(Clone, Copy, Debug, PartialEq, Eq, Hash, Structural)]
pub enum GemmDTransformBit {
    Scale,
    Accumulate,
    Bias,
    Rht,
    SoftCap,
    GateActMul,
}

impl GemmDTransformBit {
    pub open spec fn spec_name(self) -> Seq<char> {
        match self {
            GemmDTransformBit::Scale => "SCALE"@,
            GemmDTransformBit::Accumulate => "ACCUMULATE"@,
            GemmDTransformBit::Bias => "BIAS"@,
            GemmDTransformBit::Rht => "RHT"@,
            GemmDTransformBit::SoftCap => "SOFT_CAP"@,
            GemmDTransformBit::GateActMul => "GATE_ACT_MUL"@,
        }
    }

    /// The name of the step.
    pub fn name(self) -> (name: &'static str)
        ensures
            name@ == self.spec_name(),
    {
        match self {
            GemmDTransformBit::Scale => "SCALE",
            GemmDTransformBit::Accumulate => "ACCUMULATE",
            GemmDTransformBit::Bias => "BIAS",
            GemmDTransformBit::Rht => "RHT",
            GemmDTransformBit::SoftCap => "SOFT_CAP",
            GemmDTransformBit::GateActMul => "GATE_ACT_MUL",
        }
    }
}

/// `value` where `set` holds, else zero.
pub open spec fn bit_value(set: bool, value: u32) -> u32 {
    if set {
        value
    } else {
        0
    }
}

impl GemmDTransform {
    /// Nothing is done.
    pub open spec fn spec_empty() -> GemmDTransform {
        GemmDTransform {
            scale: false,
            accumulate: false,
            bias: false,
            rht: false,
            soft_cap: false,
            gate_act_mul: false,
        }
    }

    /// Nothing is done.
    #[verifier::when_used_as_spec(spec_empty)]
    pub fn empty() -> (transform: GemmDTransform)
        ensures
            transform == GemmDTransform::empty(),
    {
        GemmDTransform {
            scale: false,
            accumulate: false,
            bias: false,
            rht: false,
            soft_cap: false,
            gate_act_mul: false,
        }
    }

    /// The bit set that a kernel reads: step number `i`, counted from zero, is bit `i`.
    pub open spec fn spec_bits(self) -> u32 {
        (bit_value(self.scale, 1) + bit_value(self.accumulate, 2) + bit_value(self.bias, 4)
            + bit_value(self.rht, 8) + bit_value(self.soft_cap, 16) + bit_value(
            self.gate_act_mul,
            32,
        )) as u32
    }

    /// The bit set that a kernel reads.
    #[verifier::when_used_as_spec(spec_bits)]
    pub fn bits(self) -> (bits: u32)
        ensures
            bits == self.bits(),
            bits < 64,
    {
        let mut bits: u32 = 0;
        if self.scale {
            bits += 1;
        }
        if self.accumulate {
            bits += 2;
        }
        if self.bias {
            bits += 4;
        }
        if self.rht {
            bits += 8;
        }
        if self.soft_cap {
            bits += 16;
        }
        if self.gate_act_mul {
            bits += 32;
        }
        bits
    }
}

/// The blocks into which a product is cut: the rows, columns and depth that one threadgroup covers,
/// and the simdgroups that share its rows and columns.
#[derive(Clone, Copy, Debug, PartialEq, Eq, Hash, Structural)]
#[allow(non_camel_case_types)]
pub enum GemmTiling {
    Tile8x32x32_Simdgroups1x1,
    Tile64x32x32_Simdgroups2x2,
    Tile64x64x16_Simdgroups2x2,
    Tile64x64x32_Simdgroups2x2,
    Tile32x32x32_Simdgroups2x2,
    Tile16x64x16_Simdgroups1x2,
    Tile16x64x32_Simdgroups1x2,
    Tile16x32x256_Simdgroups1x1,
    Tile16x128x256_Simdgroups1x4,
    Tile32x64x256_Simdgroups2x2,
    Tile64x32x256_Simdgroups4x1,
    Tile64x64x256_Simdgroups2x2,
    Tile128x128x256_Simdgroups4x4,
}

impl GemmTiling {
    pub open spec fn spec_name(self) -> Seq<char> {
        match self {
            GemmTiling::Tile8x32x32_Simdgroups1x1 => "Tile8x32x32_Simdgroups1x1"@,
            GemmTiling::Tile64x32x32_Simdgroups2x2 => "Tile64x32x32_Simdgroups2x2"@,
            GemmTiling::Tile64x64x16_Simdgroups2x2 => "Tile64x64x16_Simdgroups2x2"@,
            GemmTiling::Tile64x64x32_Simdgroups2x2 => "Tile64x64x32_Simdgroups2x2"@,
            GemmTiling::Tile32x32x32_Simdgroups2x2 => "Tile32x32x32_Simdgroups2x2"@,
            GemmTiling::Tile16x64x16_Simdgroups1x2 => "Tile16x64x16_Simdgroups1x2"@,
            GemmTiling::Tile16x64x32_Simdgroups1x2 => "Tile16x64x32_Simdgroups1x2"@,
            GemmTiling::Tile16x32x256_Simdgroups1x1 => "Tile16x32x256_Simdgroups1x1"@,
            GemmTiling::Tile16x128x256_Simdgroups1x4 => "Tile16x128x256_Simdgroups1x4"@,
            GemmTiling::Tile32x64x256_Simdgroups2x2 => "Tile32x64x256_Simdgroups2x2"@,
            GemmTiling::Tile64x32x256_Simdgroups4x1 => "Tile64x32x256_Simdgroups4x1"@,
            GemmTiling::Tile64x64x256_Simdgroups2x2 => "Tile64x64x256_Simdgroups2x2"@,
            GemmTiling::Tile128x128x256_Simdgroups4x4 => "Tile128x128x256_Simdgroups4x4"@,
        }
    }

    /// The name of the tiling.
    pub fn name(self) -> (name: &'static str)
        ensures
            name@ == self.spec_name(),
    {
        match self {
            GemmTiling::Tile8x32x32_Simdgroups1x1 => "Tile8x32x32_Simdgroups1x1",
            GemmTiling::Tile64x32x32_Simdgroups2x2 => "Tile64x32x32_Simdgroups2x2",
            GemmTiling::Tile64x64x16_Simdgroups2x2 => "Tile64x64x16_Simdgroups2x2",
            GemmTiling::Tile64x64x32_Simdgroups2x2 => "Tile64x64x32_Simdgroups2x2",
            GemmTiling::Tile32x32x32_Simdgroups2x2 => "Tile32x32x32_Simdgroups2x2",
            GemmTiling::Tile16x64x16_Simdgroups1x2 => "Tile16x64x16_Simdgroups1x2",
            GemmTiling::Tile16x64x32_Simdgroups1x2 => "Tile16x64x32_Simdgroups1x2",
            GemmTiling::Tile16x32x256_Simdgroups1x1 => "Tile16x32x256_Simdgroups1x1",
            GemmTiling::Tile16x128x256_Simdgroups1x4 => "Tile16x128x256_Simdgroups1x4",
            GemmTiling::Tile32x64x256_Simdgroups2x2 => "Tile32x64x256_Simdgroups2x2",
            GemmTiling::Tile64x32x256_Simdgroups4x1 => "Tile64x32x256_Simdgroups4x1",
            GemmTiling::Tile64x64x256_Simdgroups2x2 => "Tile64x64x256_Simdgroups2x2",
            GemmTiling::Tile128x128x256_Simdgroups4x4 => "Tile128x128x256_Simdgroups4x4",
        }
    }
}

/// The numbers that a tiling's name gives.
pub struct TilingDimensions {
    pub block_m: u32,
    pub block_n: u32,
    pub block_k: u32,
    pub simdgroups_m: u32,
    pub simdgroups_n: u32,
}

/// The depth that one simdgroup covers in a tiling for the matrix unit.
pub const MXU_SIMDGROUP_BLOCK_K: u32 = 32;

impl GemmTiling {
    pub open spec fn dimensions(self) -> TilingDimensions {
        match self {
            GemmTiling::Tile8x32x32_Simdgroups1x1 => TilingDimensions {
                block_m: 8,
                block_n: 32,
                block_k: 32,
                simdgroups_m: 1,
                simdgroups_n: 1,
            },
            GemmTiling::Tile64x32x32_Simdgroups2x2 => TilingDimensions {
                block_m: 64,
                block_n: 32,
                block_k: 32,
                simdgroups_m: 2,
                simdgroups_n: 2,
            },
            GemmTiling::Tile64x64x16_Simdgroups2x2 => TilingDimensions {
                block_m: 64,
                block_n: 64,
                block_k: 16,
                simdgroups_m: 2,
                simdgroups_n: 2,
            },
            GemmTiling::Tile64x64x32_Simdgroups2x2 => TilingDimensions {
                block_m: 64,
                block_n: 64,
                block_k: 32,
                simdgroups_m: 2,
                simdgroups_n: 2,
            },
            GemmTiling::Tile32x32x32_Simdgroups2x2 => TilingDimensions {
                block_m: 32,
                block_n: 32,
                block_k: 32,
                simdgroups_m: 2,
                simdgroups_n: 2,
            },
            GemmTiling::Tile16x64x16_Simdgroups1x2 => TilingDimensions {
                block_m: 16,
                block_n: 64,
                block_k: 16,
                simdgroups_m: 1,
                simdgroups_n: 2,
            },
            GemmTiling::Tile16x64x32_Simdgroups1x2 => TilingDimensions {
                block_m: 16,
                block_n: 64,
                block_k: 32,
                simdgroups_m: 1,
                simdgroups_n: 2,
            },
            GemmTiling::Tile16x32x256_Simdgroups1x1 => TilingDimensions {
                block_m: 16,
                block_n: 32,
                block_k: 256,
                simdgroups_m: 1,
                simdgroups_n: 1,
            },
            GemmTiling::Tile16x128x256_Simdgroups1x4 => TilingDimensions {
                block_m: 16,
                block_n: 128,
                block_k: 256,
                simdgroups_m: 1,
                simdgroups_n: 4,
            },
            GemmTiling::Tile32x64x256_Simdgroups2x2 => TilingDimensions {
                block_m: 32,
                block_n: 64,
                block_k: 256,
                simdgroups_m: 2,
                simdgroups_n: 2,
            },
            GemmTiling::Tile64x32x256_Simdgroups4x1 => TilingDimensions {
                block_m: 64,
                block_n: 32,
                block_k: 256,
                simdgroups_m: 4,
                simdgroups_n: 1,
            },
            GemmTiling::Tile64x64x256_Simdgroups2x2 => TilingDimensions {
                block_m: 64,
                block_n: 64,
                block_k: 256,
                simdgroups_m: 2,
                simdgroups_n: 2,
            },
            GemmTiling::Tile128x128x256_Simdgroups4x4 => TilingDimensions {
                block_m: 128,
                block_n: 128,
                block_k: 256,
                simdgroups_m: 4,
                simdgroups_n: 4,
            },
        }
    }

    pub open spec fn spec_block_m(self) -> u32 {
        self.dimensions().block_m
    }

    /// The rows of a block.
    #[verifier::when_used_as_spec(spec_block_m)]
    pub fn block_m(self) -> (size: u32)
        ensures
            size == self.block_m(),
    {
        match self {
            GemmTiling::Tile8x32x32_Simdgroups1x1 => 8,
            GemmTiling::Tile64x32x32_Simdgroups2x2
            | GemmTiling::Tile64x64x16_Simdgroups2x2
            | GemmTiling::Tile64x64x32_Simdgroups2x2
            | GemmTiling::Tile64x32x256_Simdgroups4x1
            | GemmTiling::Tile64x64x256_Simdgroups2x2 => 64,
            GemmTiling::Tile32x32x32_Simdgroups2x2
            | GemmTiling::Tile32x64x256_Simdgroups2x2 => 32,
            GemmTiling::Tile16x64x16_Simdgroups1x2
            | GemmTiling::Tile16x64x32_Simdgroups1x2
            | GemmTiling::Tile16x32x256_Simdgroups1x1
            | GemmTiling::Tile16x128x256_Simdgroups1x4 => 16,
            GemmTiling::Tile128x128x256_Simdgroups4x4 => 128,
        }
    }

    pub open spec fn spec_block_n(self) -> u32 {
        self.dimensions().block_n
    }

    /// The columns of a block.
    #[verifier::when_used_as_spec(spec_block_n)]
    pub fn block_n(self) -> (size: u32)
        ensures
            size == self.block_n(),
    {
        match self {
            GemmTiling::Tile8x32x32_Simdgroups1x1
            | GemmTiling::Tile64x32x32_Simdgroups2x2
            | GemmTiling::Tile32x32x32_Simdgroups2x2
            | GemmTiling::Tile16x32x256_Simdgroups1x1
            | GemmTiling::Tile64x32x256_Simdgroups4x1 => 32,
            GemmTiling::Tile64x64x16_Simdgroups2x2
            | GemmTiling::Tile64x64x32_Simdgroups2x2
            | GemmTiling::Tile16x64x16_Simdgroups1x2
            | GemmTiling::Tile16x64x32_Simdgroups1x2
            | GemmTiling::Tile32x64x256_Simdgroups2x2
            | GemmTiling::Tile64x64x256_Simdgroups2x2 => 64,
            GemmTiling::Tile16x128x256_Simdgroups1x4
            | GemmTiling::Tile128x128x256_Simdgroups4x4 => 128,
        }
    }

    pub open spec fn spec_block_k(self) -> u32 {
        self.dimensions().block_k
    }

    /// The depth of a block.
    #[verifier::when_used_as_spec(spec_block_k)]
    pub fn block_k(self) -> (size: u32)
        ensures
            size == self.block_k(),
    {
        match self {
            GemmTiling::Tile8x32x32_Simdgroups1x1
            | GemmTiling::Tile64x32x32_Simdgroups2x2
            | GemmTiling::Tile64x64x32_Simdgroups2x2
            | GemmTiling::Tile32x32x32_Simdgroups2x2
            | GemmTiling::Tile16x64x32_Simdgroups1x2 => 32,
            GemmTiling::Tile64x64x16_Simdgroups2x2
            | GemmTiling::Tile16x64x16_Simdgroups1x2 => 16,
            GemmTiling::Tile16x32x256_Simdgroups1x1
            | GemmTiling::Tile16x128x256_Simdgroups1x4
            | GemmTiling::Tile32x64x256_Simdgroups2x2
            | GemmTiling::Tile64x32x256_Simdgroups4x1
            | GemmTiling::Tile64x64x256_Simdgroups2x2
            | GemmTiling::Tile128x128x256_Simdgroups4x4 => 256,
        }
    }

    pub open spec fn spec_simdgroups_m(self) -> u32 {
        self.dimensions().simdgroups_m
    }

    /// The simdgroups along the rows of a block.
    #[verifier::when_used_as_spec(spec_simdgroups_m)]
    pub fn simdgroups_m(self) -> (size: u32)
        ensures
            size == self.simdgroups_m(),
    {
        match self {
            GemmTiling::Tile8x32x32_Simdgroups1x1
            | GemmTiling::Tile16x64x16_Simdgroups1x2
            | GemmTiling::Tile16x64x32_Simdgroups1x2
            | GemmTiling::Tile16x32x256_Simdgroups1x1
            | GemmTiling::Tile16x128x256_Simdgroups1x4 => 1,
            GemmTiling::Tile64x32x32_Simdgroups2x2
            | GemmTiling::Tile64x64x16_Simdgroups2x2
            | GemmTiling::Tile64x64x32_Simdgroups2x2
            | GemmTiling::Tile32x32x32_Simdgroups2x2
            | GemmTiling::Tile32x64x256_Simdgroups2x2
            | GemmTiling::Tile64x64x256_Simdgroups2x2 => 2,
            GemmTiling::Tile64x32x256_Simdgroups4x1
            | GemmTiling::Tile128x128x256_Simdgroups4x4 => 4,
        }
    }

    pub open spec fn spec_simdgroups_n(self) -> u32 {
        self.dimensions().simdgroups_n
    }

    /// The simdgroups along the columns of a block.
    #[verifier::when_used_as_spec(spec_simdgroups_n)]
    pub fn simdgroups_n(self) -> (size: u32)
        ensures
            size == self.simdgroups_n(),
    {
        match self {
            GemmTiling::Tile8x32x32_Simdgroups1x1
            | GemmTiling::Tile16x32x256_Simdgroups1x1
            | GemmTiling::Tile64x32x256_Simdgroups4x1 => 1,
            GemmTiling::Tile64x32x32_Simdgroups2x2
            | GemmTiling::Tile64x64x16_Simdgroups2x2
            | GemmTiling::Tile64x64x32_Simdgroups2x2
            | GemmTiling::Tile32x32x32_Simdgroups2x2
            | GemmTiling::Tile16x64x16_Simdgroups1x2
            | GemmTiling::Tile16x64x32_Simdgroups1x2
            | GemmTiling::Tile32x64x256_Simdgroups2x2
            | GemmTiling::Tile64x64x256_Simdgroups2x2 => 2,
            GemmTiling::Tile16x128x256_Simdgroups1x4
            | GemmTiling::Tile128x128x256_Simdgroups4x4 => 4,
        }
    }

    pub open spec fn spec_is_mxu_variant(self) -> bool {
        self.dimensions().block_k == 256
    }

    /// Whether the tiling is made for the matrix unit: its blocks are 256 deep.
    #[verifier::when_used_as_spec(spec_is_mxu_variant)]
    pub fn is_mxu_variant(self) -> (mxu: bool)
        ensures
            mxu == self.is_mxu_variant(),
    {
        match self {
            GemmTiling::Tile16x32x256_Simdgroups1x1
            | GemmTiling::Tile16x128x256_Simdgroups1x4
            | GemmTiling::Tile32x64x256_Simdgroups2x2
            | GemmTiling::Tile64x32x256_Simdgroups4x1
            | GemmTiling::Tile64x64x256_Simdgroups2x2
            | GemmTiling::Tile128x128x256_Simdgroups4x4 => true,
            _ => false,
        }
    }

    pub open spec fn spec_simdgroup_block_k(self) -> u32 {
        if self.is_mxu_variant() {
            MXU_SIMDGROUP_BLOCK_K
        } else {
            self.block_k()
        }
    }

    /// The depth that one simdgroup covers at a time.
    #[verifier::when_used_as_spec(spec_simdgroup_block_k)]
    pub fn simdgroup_block_k(self) -> (depth: u32)
        ensures
            depth == self.simdgroup_block_k(),
    {
        if self.is_mxu_variant() {
            MXU_SIMDGROUP_BLOCK_K
        } else {
            self.block_k()
        }
    }

    pub open spec fn spec_fits_quant_group_size(self, group_size: u32) -> bool {
        self is Tile128x128x256_Simdgroups4x4 ==> group_size <= 64
    }

    /// Whether the scales of quantization groups of this size fit the memory of a threadgroup.
    #[verifier::when_used_as_spec(spec_fits_quant_group_size)]
    pub fn fits_quant_group_size(self, group_size: u32) -> (fits: bool)
        ensures
            fits == self.fits_quant_group_size(group_size),
    {
        match self {
            GemmTiling::Tile128x128x256_Simdgroups4x4 => group_size <= 64,
            _ => true,
        }
    }
}

/// The simdgroups along the rows of a block.
pub fn gemm_tiling_simdgroups_per_row(t: GemmTiling) -> (simdgroups: u32)
    ensures
        simdgroups == t.simdgroups_m(),
{
    t.simdgroups_m()
}

/// The simdgroups along the columns of a block.
pub fn gemm_tiling_simdgroups_per_column(t: GemmTiling) -> (simdgroups: u32)
    ensures
        simdgroups == t.simdgroups_n(),
{
    t.simdgroups_n()
}

/// Blocks are whole numbers of eight by eight fragments, a simdgroup covers the whole depth of a
/// block or an eighth of it, and only the tilings for the matrix unit cover it in eighths.
pub proof fn law_tiling_divides_evenly(tiling: GemmTiling)
    ensures
        tiling.block_m() % 8 == 0,
        tiling.block_n() % 8 == 0,
        tiling.is_mxu_variant() ==> tiling.block_k() == 8 * tiling.simdgroup_block_k(),
        !tiling.is_mxu_variant() ==> tiling.block_k() == tiling.simdgroup_block_k(),
{
}

/// Which extents of a product are whole numbers of blocks.
#[derive(Clone, Copy, Debug, PartialEq, Eq, Hash, Structural)]
pub struct GemmAlignment {
    pub m: bool,
    pub n: bool,
    pub k: bool,
}

impl GemmAlignment {
    pub open spec fn spec_new(m: bool, n: bool, k: bool) -> GemmAlignment {
        GemmAlignment { m, n, k }
    }

    /// The alignment with the given extents aligned.
    #[verifier::when_used_as_spec(spec_new)]
    pub fn new(m: bool, n: bool, k: bool) -> (alignment: GemmAlignment)
        ensures
            alignment == GemmAlignment::new(m, n, k),
    {
        GemmAlignment { m, n, k }
    }

    /// The bit set that a kernel reads: rows, columns and depth are the bits from the lowest up.
    pub fn bits(self) -> (bits: u32)
        ensures
            bits == bit_value(self.m, 1) + bit_value(self.n, 2) + bit_value(self.k, 4),
    {
        let mut bits: u32 = 0;
        if self.m {
            bits += 1;
        }
        if self.n {
            bits += 2;
        }
        if self.k {
            bits += 4;
        }
        bits
    }
}

/// The name of a tiling gives the rows, columns and depth of its blocks, and the simdgroups that share the
/// rows and the columns.
pub proof fn law_tiling_is_as_named(tiling: GemmTiling)
    ensures
        tiling.spec_name() == "Tile"@ + text::decimal(tiling.block_m() as nat) + "x"@ + text::decimal(
            tiling.block_n() as nat,
        ) + "x"@ + text::decimal(tiling.block_k() as nat) + "_Simdgroups"@ + text::decimal(
            tiling.simdgroups_m() as nat,
        ) + "x"@ + text::decimal(tiling.simdgroups_n() as nat),
{
    reveal_strlit("Tile");
    reveal_strlit("x");
    reveal_strlit("_Simdgroups");
    reveal_with_fuel(text::decimal, 4);
    reveal_strlit("Tile8x32x32_Simdgroups1x1");
    reveal_strlit("Tile64x32x32_Simdgroups2x2");
    reveal_strlit("Tile64x64x16_Simdgroups2x2");
    reveal_strlit("Tile64x64x32_Simdgroups2x2");
    reveal_strlit("Tile32x32x32_Simdgroups2x2");
    reveal_strlit("Tile16x64x16_Simdgroups1x2");
    reveal_strlit("Tile16x64x32_Simdgroups1x2");
    reveal_strlit("Tile16x32x256_Simdgroups1x1");
    reveal_strlit("Tile16x128x256_Simdgroups1x4");
    reveal_strlit("Tile32x64x256_Simdgroups2x2");
    reveal_strlit("Tile64x32x256_Simdgroups4x1");
    reveal_strlit("Tile64x64x256_Simdgroups2x2");
    reveal_strlit("Tile128x128x256_Simdgroups4x4");
    assert(tiling.spec_name() =~= "Tile"@ + text::decimal(tiling.block_m() as nat) + "x"@
        + text::decimal(tiling.block_n() as nat) + "x"@ + text::decimal(tiling.block_k() as nat)
        + "_Simdgroups"@ + text::decimal(tiling.simdgroups_m() as nat) + "x"@ + text::decimal(
        tiling.simdgroups_n() as nat,
    ));
}

/// The extents that kernels are launched with are those of the tiling.
pub proof fn law_launches_follow_the_tiling(
    tiling: GemmTiling,
    m: u32,
    n: u32,
    k: u32,
    per_row: u32,
    per_column: u32,
)
    requires
        call_ensures(GemmTiling::block_m, (tiling,), m),
        call_ensures(GemmTiling::block_n, (tiling,), n),
        call_ensures(GemmTiling::block_k, (tiling,), k),
        call_ensures(gemm_tiling_simdgroups_per_row, (tiling,), per_row),
        call_ensures(gemm_tiling_simdgroups_per_column, (tiling,), per_column),
    ensures
        tiling.spec_name() == "Tile"@ + text::decimal(m as nat) + "x"@ + text::decimal(n as nat) + "x"@
            + text::decimal(k as nat) + "_Simdgroups"@ + text::decimal(per_row as nat) + "x"@
            + text::decimal(per_column as nat),
{
    law_tiling_is_as_named(tiling);
}

/// Tilings of the matrix unit are those of blocks that are 256 deep; groups of more than 64 codes do not fit
/// the largest of them.
pub proof fn law_matrix_unit_takes_deep_blocks(tiling: GemmTiling, group_size: u32)
    ensures
        tiling.is_mxu_variant() <==> tiling.block_k() == 256,
        tiling.fits_quant_group_size(group_size) <==> !(tiling.block_m() == 128 && group_size > 64),
        tiling.is_mxu_variant() ==> tiling.simdgroup_block_k() == 32,
{
}

/// Bit number `index` of a bit set.
pub open spec fn has_bit(bits: u32, index: nat) -> bool {
    (bits as int / vstd::arithmetic::power2::pow2(index) as int) % 2 == 1
}

/// Each step of a transform has a bit of its own, counted from the lowest in the order of the steps.
pub proof fn law_transform_bits_are_the_steps(transform: GemmDTransform)
    ensures
        has_bit(transform.bits(), 0) == transform.scale,
        has_bit(transform.bits(), 1) == transform.accumulate,
        has_bit(transform.bits(), 2) == transform.bias,
        has_bit(transform.bits(), 3) == transform.rht,
        has_bit(transform.bits(), 4) == transform.soft_cap,
        has_bit(transform.bits(), 5) == transform.gate_act_mul,
        transform.bits() < 64,
{
    vstd::arithmetic::power2::lemma2_to64();
}

/// A transform that does nothing has no bit, and two transforms with the same bits do the same.
pub proof fn law_bits_tell_transforms_apart(left: GemmDTransform, right: GemmDTransform)
    ensures
        left.bits() == right.bits() <==> left == right,
        left.bits() == 0 <==> left == GemmDTransform::empty(),
{
}

/// Each extent of an alignment has a bit of its own: rows, columns, depth.
pub proof fn law_alignment_bits_are_the_extents(alignment: GemmAlignment, bits: u32)
    requires
        call_ensures(GemmAlignment::bits, (alignment,), bits),
    ensures
        has_bit(bits, 0) == alignment.m,
        has_bit(bits, 1) == alignment.n,
        has_bit(bits, 2) == alignment.k,
        bits < 8,
{
    vstd::arithmetic::power2::lemma2_to64();
}

} // verus!
