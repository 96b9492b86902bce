//! The kernels that exist for a plan.
use vstd::prelude::*;

use crate::backends::common::gpu_types::gemm::{
    GemmAPrologueKind, GemmAlignment, GemmBPrologueKind, GemmDTransform, GemmTiling,
};
use crate::backends::common::matmul::routing::MatmulShape;
use crate::backends::metal::matmul::gemm::plan::{GemmEngine, GemmPlan, GemmSpecializationError};
use crate::data_type::DataType;

verus! {

/// From how many groups on the scales of the weights are staged.
pub const STAGE_WEIGHT_SCALE_MIN_GROUPS: u32 = 6;

/// What a kernel is compiled for.
#[derive(Clone, Copy, Debug, PartialEq, Eq, Hash)]
pub struct GemmSpecialization {
    pub weights_data_type: DataType,
    pub tiling: GemmTiling,
    pub use_mxu: bool,
    pub output_transform: GemmDTransform,
    pub alignment: GemmAlignment,
    pub transpose_b: bool,
    pub a_prologue: GemmAPrologueKind,
    pub b_prologue: GemmBPrologueKind,
    pub bits_per_b: Option<u32>,
    pub b_group_size: Option<u32>,
    pub signed_codes: bool,
    pub a_group_size: Option<u32>,
    pub stage_weight_scales: bool,
    pub hoist_operand_addressing: bool,
}

/// What a kernel for routed rows is compiled for.
#[derive(Clone, Copy, Debug, PartialEq, Eq, Hash)]
pub struct RoutedGemmSpecialization {
    pub tiling: GemmTiling,
    pub output_transform: GemmDTransform,
    pub alignment: GemmAlignment,
    pub b_prologue: GemmBPrologueKind,
    pub bits_per_b: Option<u32>,
    pub b_group_size: Option<u32>,
    pub signed_codes: bool,
    pub expert_bias: bool,
}

impl GemmPlan {
    /// The part of the depth that is multiplied at once is counted in groups.
    pub open spec fn counts_groups(self, shape: MatmulShape) -> bool {
        &&& !(shape.b_bits == Some(4u32) && shape.b_group_size == Some(32u32)
            && self.tiling.block_m() <= 32)
        &&& self.tiling is Tile32x64x256_Simdgroups2x2
        &&& shape.b_group_size is Some
    }

    pub open spec fn spec_should_stage_weight_scales(self, shape: MatmulShape) -> bool {
        if shape.b_bits == Some(4u32) && shape.b_group_size == Some(32u32) && self.tiling.block_m()
            <= 32 {
            false
        } else if self.counts_groups(shape) {
            shape.k / self.split_k / shape.b_group_size->Some_0 >= STAGE_WEIGHT_SCALE_MIN_GROUPS
        } else {
            true
        }
    }

    /// Whether the scales of the weights are staged in threadgroup memory.
    #[verifier::when_used_as_spec(spec_should_stage_weight_scales)]
    pub fn should_stage_weight_scales(self, shape: MatmulShape) -> (stage: bool)
        requires
            self.counts_groups(shape) ==> self.split_k != 0 && shape.b_group_size != Some(0u32),
        ensures
            stage == self.should_stage_weight_scales(shape),
    {
        if let (Some(4), Some(32)) = (shape.b_bits, shape.b_group_size) {
            if self.tiling.block_m() <= 32 {
                return false;
            }
        }
        if self.tiling == GemmTiling::Tile32x64x256_Simdgroups2x2 {
            return match shape.b_group_size {
                Some(group_size) => shape.k / self.split_k / group_size
                    >= STAGE_WEIGHT_SCALE_MIN_GROUPS,
                None => true,
            };
        }
        true
    }

    pub open spec fn spec_should_hoist_operand_addressing(self, shape: MatmulShape) -> bool {
        ||| shape.b_prologue is ScaleBiasDequant
        ||| shape.b_prologue is ScaleZeroPointDequant
        ||| self.tiling !is Tile128x128x256_Simdgroups4x4
    }

    /// Whether the addresses of the operands are computed once per block.
    #[verifier::when_used_as_spec(spec_should_hoist_operand_addressing)]
    pub fn should_hoist_operand_addressing(self, shape: MatmulShape) -> (hoist: bool)
        ensures
            hoist == self.should_hoist_operand_addressing(shape),
    {
        match shape.b_prologue {
            GemmBPrologueKind::ScaleBiasDequant | GemmBPrologueKind::ScaleZeroPointDequant => true,
            _ => self.tiling != GemmTiling::Tile128x128x256_Simdgroups4x4,
        }
    }
}

impl GemmSpecialization {
    /// What is wrong with the specialization.
    pub open spec fn fault(self) -> Option<GemmSpecializationError> {
        if !match self.a_prologue {
            GemmAPrologueKind::FullPrecision => self.a_group_size is None,
            GemmAPrologueKind::Int8Symmetric => self.a_group_size == Some(32u32)
                || self.a_group_size == Some(64u32) || self.a_group_size == Some(128u32),
        } {
            Some(GemmSpecializationError::InvalidAGroupSize { a_group_size: self.a_group_size })
        } else if self.use_mxu != self.tiling.is_mxu_variant() {
            Some(
                GemmSpecializationError::TilingUseMxuMismatch {
                    tiling: self.tiling,
                    use_mxu: self.use_mxu,
                },
            )
        } else if self.use_mxu && self.b_prologue !is FullPrecision && (
        self.b_group_size matches Some(group_size) && !self.tiling.fits_quant_group_size(
            group_size,
        )) {
            Some(
                GemmSpecializationError::MxuQuantTileTooLarge {
                    tiling: self.tiling,
                    group_size: self.b_group_size->Some_0,
                },
            )
        } else if !self.use_mxu && (self.b_group_size matches Some(group_size)
            && self.tiling.simdgroup_block_k() > group_size) {
            Some(
                GemmSpecializationError::SimdgroupKExceedsGroupSize {
                    simdgroup_k: self.tiling.simdgroup_block_k(),
                    group_size: self.b_group_size->Some_0,
                },
            )
        } else if self.bits_per_b is Some && !self.transpose_b {
            Some(GemmSpecializationError::PackedRequiresTransposedB)
        } else {
            None
        }
    }

    /// Checks that a kernel exists for the specialization.
    pub fn validate(&self) -> (result: Result<(), GemmSpecializationError>)
        ensures
            result == match self.fault() {
                Some(error) => Err::<(), GemmSpecializationError>(error),
                None => Ok(()),
            },
    {
        let valid_activation_group: bool = match self.a_prologue {
            GemmAPrologueKind::FullPrecision => self.a_group_size.is_none(),
            GemmAPrologueKind::Int8Symmetric => match self.a_group_size {
                Some(32 | 64 | 128) => true,
                _ => false,
            },
        };
        if !valid_activation_group {
            return Err(
                GemmSpecializationError::InvalidAGroupSize { a_group_size: self.a_group_size },
            );
        }
        if self.use_mxu != self.tiling.is_mxu_variant() {
            return Err(
                GemmSpecializationError::TilingUseMxuMismatch {
                    tiling: self.tiling,
                    use_mxu: self.use_mxu,
                },
            );
        }
        if let Some(group_size) = self.b_group_size {
            if self.use_mxu && self.b_prologue != GemmBPrologueKind::FullPrecision
                && !self.tiling.fits_quant_group_size(group_size) {
                return Err(
                    GemmSpecializationError::MxuQuantTileTooLarge {
                        tiling: self.tiling,
                        group_size,
                    },
                );
            }
            let simdgroup_k: u32 = self.tiling.simdgroup_block_k();
            if !self.use_mxu && simdgroup_k > group_size {
                return Err(
                    GemmSpecializationError::SimdgroupKExceedsGroupSize { simdgroup_k, group_size },
                );
            }
        }
        if self.bits_per_b.is_some() && !self.transpose_b {
            return Err(GemmSpecializationError::PackedRequiresTransposedB);
        }
        Ok(())
    }

    /// Addressing is tuned for packed weights and for a split depth.
    pub open spec fn uses_tuned_addressing(plan: GemmPlan, shape: MatmulShape) -> bool {
        shape.is_integer_quantized() || plan.split_k > 1
    }

    /// The specialization that a plan asks for.
    pub open spec fn of_plan(
        plan: GemmPlan,
        shape: MatmulShape,
        weights_data_type: DataType,
        output_transform: GemmDTransform,
        alignment: GemmAlignment,
        a_prologue: GemmAPrologueKind,
        a_group_size: Option<u32>,
    ) -> GemmSpecialization {
        let tuned = GemmSpecialization::uses_tuned_addressing(plan, shape);
        GemmSpecialization {
            weights_data_type,
            tiling: plan.tiling,
            use_mxu: plan.engine is Mxu,
            output_transform,
            alignment,
            transpose_b: shape.b_transpose,
            a_prologue,
            b_prologue: shape.b_prologue,
            bits_per_b: shape.b_bits,
            b_group_size: shape.b_group_size,
            signed_codes: shape.signed_codes,
            a_group_size,
            stage_weight_scales: tuned ==> plan.should_stage_weight_scales(shape),
            hoist_operand_addressing: tuned && plan.should_hoist_operand_addressing(shape),
        }
    }

    /// The specialization that a plan asks for, where a kernel exists for it.
    pub fn from_plan(
        plan: GemmPlan,
        shape: MatmulShape,
        weights_data_type: DataType,
        output_transform: GemmDTransform,
        alignment: GemmAlignment,
        a_prologue: GemmAPrologueKind,
        a_group_size: Option<u32>,
    ) -> (result: Result<GemmSpecialization, GemmSpecializationError>)
        requires
            GemmSpecialization::uses_tuned_addressing(plan, shape) && plan.counts_groups(shape)
                ==> plan.split_k != 0 && shape.b_group_size != Some(0u32),
        ensures
            ({
                let specialization = GemmSpecialization::of_plan(
                    plan,
                    shape,
                    weights_data_type,
                    output_transform,
                    alignment,
                    a_prologue,
                    a_group_size,
                );
                result == match specialization.fault() {
                    Some(error) => Err::<GemmSpecialization, GemmSpecializationError>(error),
                    None => Ok(specialization),
                }
            }),
    {
        let tuned: bool = shape.is_integer_quantized() || plan.split_k > 1;
        let specialization = GemmSpecialization {
            weights_data_type,
            tiling: plan.tiling,
            use_mxu: plan.engine == GemmEngine::Mxu,
            output_transform,
            alignment,
            transpose_b: shape.b_transpose,
            a_prologue,
            b_prologue: shape.b_prologue,
            bits_per_b: shape.b_bits,
            b_group_size: shape.b_group_size,
            signed_codes: shape.signed_codes,
            a_group_size,
            stage_weight_scales: if tuned {
                plan.should_stage_weight_scales(shape)
            } else {
                true
            },
            hoist_operand_addressing: tuned && plan.should_hoist_operand_addressing(shape),
        };
        match specialization.validate() {
            Ok(()) => Ok(specialization),
            Err(error) => Err(error),
        }
    }
}

/// A tiling whose kernels follow routes to experts.
pub open spec fn is_routed_tiling(tiling: GemmTiling) -> bool {
    tiling is Tile16x64x16_Simdgroups1x2 || tiling is Tile16x64x32_Simdgroups1x2
}

impl RoutedGemmSpecialization {
    /// The specialization that a plan for routed rows asks for.
    pub open spec fn of_plan(
        plan: GemmPlan,
        shape: MatmulShape,
        output_transform: GemmDTransform,
        alignment: GemmAlignment,
    ) -> RoutedGemmSpecialization {
        RoutedGemmSpecialization {
            tiling: plan.tiling,
            output_transform,
            alignment,
            b_prologue: shape.b_prologue,
            bits_per_b: shape.b_bits,
            b_group_size: shape.b_group_size,
            signed_codes: shape.signed_codes,
            expert_bias: shape.expert_bias,
        }
    }

    /// What is wrong with the specialization.
    pub open spec fn fault(self, shape: MatmulShape) -> Option<GemmSpecializationError> {
        if !shape.expert_routed || !shape.b_transpose || !shape.a_full_precision
            || !is_routed_tiling(self.tiling) {
            Some(GemmSpecializationError::UnsupportedExpertRouting)
        } else if self.b_group_size matches Some(group_size) && self.tiling.simdgroup_block_k()
            > group_size {
            Some(
                GemmSpecializationError::SimdgroupKExceedsGroupSize {
                    simdgroup_k: self.tiling.simdgroup_block_k(),
                    group_size: self.b_group_size->Some_0,
                },
            )
        } else {
            None
        }
    }

    fn validate(self, shape: MatmulShape) -> (result: Result<(), GemmSpecializationError>)
        ensures
            result == match self.fault(shape) {
                Some(error) => Err::<(), GemmSpecializationError>(error),
                None => Ok(()),
            },
    {
        if plan_is_invalid_for_routing(shape, self.tiling) {
            return Err(GemmSpecializationError::UnsupportedExpertRouting);
        }
        if let Some(group_size) = self.b_group_size {
            let simdgroup_k: u32 = self.tiling.simdgroup_block_k();
            if simdgroup_k > group_size {
                return Err(
                    GemmSpecializationError::SimdgroupKExceedsGroupSize { simdgroup_k, group_size },
                );
            }
        }
        Ok(())
    }

    /// The specialization that a plan for routed rows asks for, where a kernel exists for it.
    pub fn from_plan(
        plan: GemmPlan,
        shape: MatmulShape,
        output_transform: GemmDTransform,
        alignment: GemmAlignment,
    ) -> (result: Result<RoutedGemmSpecialization, GemmSpecializationError>)
        ensures
            ({
                let specialization = RoutedGemmSpecialization::of_plan(
                    plan,
                    shape,
                    output_transform,
                    alignment,
                );
                result == match specialization.fault(shape) {
                    Some(error) => Err::<RoutedGemmSpecialization, GemmSpecializationError>(error),
                    None => Ok(specialization),
                }
            }),
    {
        let specialization = RoutedGemmSpecialization {
            tiling: plan.tiling,
            output_transform,
            alignment,
            b_prologue: shape.b_prologue,
            bits_per_b: shape.b_bits,
            b_group_size: shape.b_group_size,
            signed_codes: shape.signed_codes,
            expert_bias: shape.expert_bias,
        };
        match specialization.validate(shape) {
            Ok(()) => Ok(specialization),
            Err(error) => Err(error),
        }
    }
}

fn plan_is_invalid_for_routing(shape: MatmulShape, tiling: GemmTiling) -> (invalid: bool)
    ensures
        invalid == (!shape.expert_routed || !shape.b_transpose || !shape.a_full_precision
            || !is_routed_tiling(tiling)),
{
    let routed_tiling: bool = match tiling {
        GemmTiling::Tile16x64x16_Simdgroups1x2 | GemmTiling::Tile16x64x32_Simdgroups1x2 => true,
        _ => false,
    };
    !shape.expert_routed || !shape.b_transpose || !shape.a_full_precision || !routed_tiling
}

} // verus!
