//! The outcome of planning a GEMM, and what can be wrong with one.
use vstd::prelude::*;

use crate::backends::common::gpu_types::gemm::GemmTiling;
use crate::text;

verus! {

/// The hardware that multiplies blocks.
#[derive(Clone, Copy, Debug, PartialEq, Eq, Structural)]
pub enum GemmEngine {
    Simdgroup,
    Mxu,
}

/// How a GEMM is run.
#[derive(Clone, Copy, Debug, PartialEq, Eq, Structural)]
pub struct GemmPlan {
    pub engine: GemmEngine,
    pub tiling: GemmTiling,
    /// The number of parts of the depth that are multiplied apart and then added.
    pub split_k: u32,
}

/// Why an engine cannot run a problem.
#[derive(Clone, Copy, Debug, PartialEq, Eq, Structural)]
pub enum GemmPlanError {
    MxuUnavailable,
    UnsupportedPackedLayout,
    UnsupportedMicrofloatEngine,
    UnsupportedMicrofloatActivation,
    UnsupportedExpertRouting,
}

impl GemmPlanError {
    pub open spec fn spec_message(self) -> Seq<char> {
        match self {
            GemmPlanError::MxuUnavailable => "MXU engine is not available for this GEMM"@,
            GemmPlanError::UnsupportedPackedLayout => {
                "packed GEMM requires transposed contiguous B"@
            },
            GemmPlanError::UnsupportedMicrofloatEngine => {
                "MXFP4 GEMM currently requires the simdgroup engine"@
            },
            GemmPlanError::UnsupportedMicrofloatActivation => {
                "MXFP4 GEMM requires full-precision activations"@
            },
            GemmPlanError::UnsupportedExpertRouting => {
                "expert routing requires transposed contiguous B, full-precision A, and the simdgroup engine"@
            },
        }
    }

    /// The error in words.
    pub fn message(self) -> (message: &'static str)
        ensures
            message@ == self.spec_message(),
    {
        match self {
            GemmPlanError::MxuUnavailable => "MXU engine is not available for this GEMM",
            GemmPlanError::UnsupportedPackedLayout => {
                "packed GEMM requires transposed contiguous B"
            },
            GemmPlanError::UnsupportedMicrofloatEngine => {
                "MXFP4 GEMM currently requires the simdgroup engine"
            },
            GemmPlanError::UnsupportedMicrofloatActivation => {
                "MXFP4 GEMM requires full-precision activations"
            },
            GemmPlanError::UnsupportedExpertRouting => {
                "expert routing requires transposed contiguous B, full-precision A, and the simdgroup engine"
            },
        }
    }
}

/// Why no kernel exists for a plan.
#[derive(Clone, Copy, Debug, PartialEq, Eq)]
pub enum GemmSpecializationError {
    InvalidAGroupSize { a_group_size: Option<u32> },
    SimdgroupKExceedsGroupSize { simdgroup_k: u32, group_size: u32 },
    PackedRequiresTransposedB,
    TilingUseMxuMismatch { tiling: GemmTiling, use_mxu: bool },
    MxuQuantTileTooLarge { tiling: GemmTiling, group_size: u32 },
    UnsupportedExpertRouting,
}

/// A truth value in words.
pub open spec fn bool_name(value: bool) -> Seq<char> {
    if value {
        "true"@
    } else {
        "false"@
    }
}

fn push_bool(out: &mut String, value: bool)
    ensures
        final(out)@ == old(out)@ + bool_name(value),
{
    if value {
        text::push_str(out, "true");
    } else {
        text::push_str(out, "false");
    }
}

/// An optional number in words.
pub open spec fn option_text(value: Option<u32>) -> Seq<char> {
    match value {
        Some(value) => "Some("@ + text::decimal(value as nat) + ")"@,
        None => "None"@,
    }
}

fn push_option(out: &mut String, value: Option<u32>)
    ensures
        final(out)@ == old(out)@ + option_text(value),
{
    let ghost before = out@;
    match value {
        Some(value) => {
            text::push_str(out, "Some(");
            text::push_decimal(out, value as u64);
            text::push_str(out, ")");
            assert(out@ =~= before + option_text(Some(value)));
        },
        None => {
            text::push_str(out, "None");
        },
    }
}

impl GemmSpecializationError {
    pub open spec fn spec_message(self) -> Seq<char> {
        match self {
            GemmSpecializationError::InvalidAGroupSize { a_group_size } => "unsupported A group size "@ + option_text(a_group_size) + "; expected None or 32/64/128"@,
            GemmSpecializationError::SimdgroupKExceedsGroupSize { simdgroup_k, group_size } => "simdgroup K="@ + text::decimal(simdgroup_k as nat) + " exceeds group size "@ + text::decimal(group_size as nat),
            GemmSpecializationError::PackedRequiresTransposedB => "packed B requires transposed layout"@,
            GemmSpecializationError::TilingUseMxuMismatch { tiling, use_mxu } => "tiling "@ + tiling.spec_name() + " does not match use_mxu="@ + bool_name(use_mxu),
            GemmSpecializationError::MxuQuantTileTooLarge { tiling, group_size } => "MXU quantized GEMM with tile "@ + tiling.spec_name() + " requires group_size <= 64 (got "@ + text::decimal(group_size as nat) + ") due to threadgroup memory budget"@,
            GemmSpecializationError::UnsupportedExpertRouting => "expert routing is not supported by this plan"@,
        }
    }

    /// The reason in words.
    pub fn message(self) -> (message: String)
        ensures
            message@ == self.spec_message(),
    {
        match self {
            GemmSpecializationError::InvalidAGroupSize { a_group_size } => {
                let mut message: String = text::copy_str("unsupported A group size ");
                push_option(&mut message, a_group_size);
                text::push_str(&mut message, "; expected None or 32/64/128");
                message
            },
            GemmSpecializationError::SimdgroupKExceedsGroupSize { simdgroup_k, group_size } => {
                let mut message: String = text::copy_str("simdgroup K=");
                text::push_decimal(&mut message, simdgroup_k as u64);
                text::push_str(&mut message, " exceeds group size ");
                text::push_decimal(&mut message, group_size as u64);
                message
            },
            GemmSpecializationError::PackedRequiresTransposedB => {
                let message: String = text::copy_str("packed B requires transposed layout");
                message
            },
            GemmSpecializationError::TilingUseMxuMismatch { tiling, use_mxu } => {
                let mut message: String = text::copy_str("tiling ");
                text::push_str(&mut message, tiling.name());
                text::push_str(&mut message, " does not match use_mxu=");
                push_bool(&mut message, use_mxu);
                message
            },
            GemmSpecializationError::MxuQuantTileTooLarge { tiling, group_size } => {
                let mut message: String = text::copy_str("MXU quantized GEMM with tile ");
                text::push_str(&mut message, tiling.name());
                text::push_str(&mut message, " requires group_size <= 64 (got ");
                text::push_decimal(&mut message, group_size as u64);
                text::push_str(&mut message, ") due to threadgroup memory budget");
                message
            },
            GemmSpecializationError::UnsupportedExpertRouting => {
                let message: String = text::copy_str("expert routing is not supported by this plan");
                message
            },
        }
    }
}

} // verus!
