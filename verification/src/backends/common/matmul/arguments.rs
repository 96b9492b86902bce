//! The operands of a matrix multiplication.
//!
//! An operand that lies in device memory is known by the size of its allocation in bytes.
use vstd::prelude::*;

use crate::backends::common::gpu_types::gemm::{
    GemmAPrologueKind, GemmBPrologueKind, GemmDTransform,
};
use crate::backends::common::gpu_types::quantization::QuantizationMode;
use crate::backends::common::matmul::routing::MatmulRouting;
use crate::backends::common::microfloat::MicrofloatMetadata;

verus! {

/// The left operand.
#[derive(Clone, Copy, Debug, PartialEq, Eq)]
pub enum MatmulA {
    /// Rows that begin `offset` bytes behind the start of `values`.
    FullPrecision { values: usize, offset: usize },
    Int8Symmetric { values: usize, scales: usize, group_sums: Option<usize>, group_size: u32 },
}

impl MatmulA {
    /// How kernels read the operand.
    pub fn prologue_kind(&self) -> (kind: GemmAPrologueKind)
        ensures
            kind == (if *self is FullPrecision {
                GemmAPrologueKind::FullPrecision
            } else {
                GemmAPrologueKind::Int8Symmetric
            }),
    {
        match self {
            MatmulA::FullPrecision { .. } => GemmAPrologueKind::FullPrecision,
            MatmulA::Int8Symmetric { .. } => GemmAPrologueKind::Int8Symmetric,
        }
    }
}

/// The storage format of the right operand.
#[derive(Clone, Copy, Debug, PartialEq, Eq, Structural)]
pub enum MatmulBKind {
    Dense,
    Integer,
    Mxfp4,
}

/// The right operand.
#[derive(Clone, Copy, Debug, PartialEq, Eq)]
pub enum MatmulB {
    FullPrecision { b: usize },
    Microfloat { codes: usize, scales: usize, outer_scales: usize, metadata: MicrofloatMetadata },
    ScaleBiasDequant {
        b: usize,
        scales: usize,
        biases: usize,
        mode: QuantizationMode,
        group_size: u32,
        signed_codes: bool,
    },
    ScaleZeroPointDequant {
        b: usize,
        scales: usize,
        zero_points: usize,
        mode: QuantizationMode,
        group_size: u32,
        signed_codes: bool,
    },
    ScaleSymmetricDequant {
        b: usize,
        scales: usize,
        mode: QuantizationMode,
        group_size: u32,
        signed_codes: bool,
    },
}

impl MatmulB {
    pub open spec fn spec_kind(&self) -> MatmulBKind {
        match self {
            MatmulB::FullPrecision { .. } => MatmulBKind::Dense,
            MatmulB::Microfloat { .. } => MatmulBKind::Mxfp4,
            _ => MatmulBKind::Integer,
        }
    }

    /// The storage format.
    #[verifier::when_used_as_spec(spec_kind)]
    pub fn kind(&self) -> (kind: MatmulBKind)
        ensures
            kind == self.kind(),
    {
        match self {
            MatmulB::FullPrecision { .. } => MatmulBKind::Dense,
            MatmulB::Microfloat { .. } => MatmulBKind::Mxfp4,
            _ => MatmulBKind::Integer,
        }
    }

    pub open spec fn spec_b_prologue(&self) -> GemmBPrologueKind {
        match self {
            MatmulB::FullPrecision { .. } | MatmulB::Microfloat { .. } => {
                GemmBPrologueKind::FullPrecision
            },
            MatmulB::ScaleBiasDequant { .. } => GemmBPrologueKind::ScaleBiasDequant,
            MatmulB::ScaleZeroPointDequant { .. } => GemmBPrologueKind::ScaleZeroPointDequant,
            MatmulB::ScaleSymmetricDequant { .. } => GemmBPrologueKind::ScaleSymmetricDequant,
        }
    }

    /// How integer kernels read the operand.
    #[verifier::when_used_as_spec(spec_b_prologue)]
    pub fn b_prologue(&self) -> (prologue: GemmBPrologueKind)
        ensures
            prologue == self.b_prologue(),
    {
        match self {
            MatmulB::FullPrecision { .. } | MatmulB::Microfloat { .. } => {
                GemmBPrologueKind::FullPrecision
            },
            MatmulB::ScaleBiasDequant { .. } => GemmBPrologueKind::ScaleBiasDequant,
            MatmulB::ScaleZeroPointDequant { .. } => GemmBPrologueKind::ScaleZeroPointDequant,
            MatmulB::ScaleSymmetricDequant { .. } => GemmBPrologueKind::ScaleSymmetricDequant,
        }
    }

    pub open spec fn spec_bits_per_b(&self) -> Option<u32> {
        match self {
            MatmulB::FullPrecision { .. } => None,
            MatmulB::Microfloat { metadata, .. } => Some(metadata.bits()),
            MatmulB::ScaleBiasDequant { mode, .. } | MatmulB::ScaleZeroPointDequant { mode, .. }
            | MatmulB::ScaleSymmetricDequant { mode, .. } => Some(mode.bits()),
        }
    }

    /// The bits of a code, where the operand is packed.
    #[verifier::when_used_as_spec(spec_bits_per_b)]
    pub fn bits_per_b(&self) -> (bits: Option<u32>)
        ensures
            bits == self.bits_per_b(),
    {
        match self {
            MatmulB::FullPrecision { .. } => None,
            MatmulB::Microfloat { metadata, .. } => Some(metadata.bits()),
            MatmulB::ScaleBiasDequant { mode, .. }
            | MatmulB::ScaleZeroPointDequant { mode, .. }
            | MatmulB::ScaleSymmetricDequant { mode, .. } => Some(mode.bits()),
        }
    }

    pub open spec fn spec_group_size(&self) -> Option<u32> {
        match self {
            MatmulB::FullPrecision { .. } => None,
            MatmulB::Microfloat { metadata, .. } => Some(metadata.group_size()),
            MatmulB::ScaleBiasDequant { group_size, .. }
            | MatmulB::ScaleZeroPointDequant { group_size, .. }
            | MatmulB::ScaleSymmetricDequant { group_size, .. } => Some(*group_size),
        }
    }

    /// The number of codes that share a scale, where the operand is packed.
    #[verifier::when_used_as_spec(spec_group_size)]
    pub fn group_size(&self) -> (size: Option<u32>)
        ensures
            size == self.group_size(),
    {
        match self {
            MatmulB::FullPrecision { .. } => None,
            MatmulB::Microfloat { metadata, .. } => Some(metadata.group_size()),
            MatmulB::ScaleBiasDequant { group_size, .. }
            | MatmulB::ScaleZeroPointDequant { group_size, .. }
            | MatmulB::ScaleSymmetricDequant { group_size, .. } => Some(*group_size),
        }
    }

    pub open spec fn spec_signed_codes(&self) -> bool {
        match self {
            MatmulB::FullPrecision { .. } | MatmulB::Microfloat { .. } => false,
            MatmulB::ScaleBiasDequant { signed_codes, .. }
            | MatmulB::ScaleZeroPointDequant { signed_codes, .. }
            | MatmulB::ScaleSymmetricDequant { signed_codes, .. } => *signed_codes,
        }
    }

    /// Whether the codes were made signed.
    #[verifier::when_used_as_spec(spec_signed_codes)]
    pub fn signed_codes(&self) -> (signed: bool)
        ensures
            signed == self.signed_codes(),
    {
        match self {
            MatmulB::FullPrecision { .. } | MatmulB::Microfloat { .. } => false,
            MatmulB::ScaleBiasDequant { signed_codes, .. }
            | MatmulB::ScaleZeroPointDequant { signed_codes, .. }
            | MatmulB::ScaleSymmetricDequant { signed_codes, .. } => *signed_codes,
        }
    }
}

/// What is done to the product before it is stored.
#[derive(Clone, Copy, Debug, PartialEq, Eq)]
pub struct MatmulDOps {
    /// The steps that kernels are compiled for.
    pub transform: GemmDTransform,
    /// Whether one half of the columns is gated by the other.
    pub gate_act: bool,
    /// The size of the bias that is added to every row, where one is.
    pub output_bias: Option<usize>,
    /// The size of a bank of biases, one row for each matrix, where one is added.
    pub per_matrix_bias: Option<usize>,
    /// The size of the factors of a Hadamard transform of the output, where one is done.
    pub rht_factors: Option<usize>,
}

/// A matrix multiplication.
#[derive(Clone, Copy, Debug, PartialEq, Eq)]
pub struct MatmulArguments {
    pub a: MatmulA,
    pub b: MatmulB,
    pub b_leading_dimension: Option<u32>,
    pub b_transpose: bool,
    /// The size of the output.
    pub d: usize,
    pub d_transform: MatmulDOps,
    pub routing: MatmulRouting,
    pub m: u32,
    pub n: u32,
    pub k: u32,
}

} // verus!
