//! Which kernel runs a multiplication.
use vstd::prelude::*;

use crate::arithmetic;
use crate::arithmetic::saturating_mul;
use crate::backends::common::gpu_types::gemm::{GemmBPrologueKind, GemmTiling};
use crate::backends::common::gpu_types::quantization::ACTIVATION_SCALE_GROUP_SIZE;
use crate::backends::common::matmul::arguments::{MatmulArguments, MatmulB, MatmulBKind};
use crate::backends::common::matmul::error::MatmulError;
use crate::backends::common::matmul::routing::{A8ActivationPlan, ActivationFormat, MatmulShape};
use crate::backends::common::microfloat;
use crate::backends::metal::device_profile::DeviceProfile;
use crate::backends::metal::matmul::gemm::plan::{GemmEngine, GemmPlan};
use crate::backends::metal::matmul::gemm::selection::GemmProblem;
use crate::backends::metal::matmul::gemv::specialization::GemvSpecialization;
use crate::backends::metal::matmul::gemv::tile::{GemvCandidates, GemvPolicy};
use crate::backends::metal::matmul::qmv::routes;
use crate::backends::metal::matmul::qmv::table::QmvRoute;
use crate::data_type::DataType;

verus! {

/// The element types of a multiplication.
#[derive(Clone, Copy, Debug, PartialEq, Eq)]
pub struct MatmulMetalKernel {
    pub weights_data_type: DataType,
    pub input_data_type: DataType,
    pub output_data_type: DataType,
}

/// The device, and what the GEMV policy says of a shape.
#[derive(Clone, Copy, Debug, PartialEq, Eq)]
pub struct DispatchContext {
    pub profile: DeviceProfile,
    pub supports_mxu: bool,
    pub policy: GemvPolicy,
    pub candidates: GemvCandidates,
}

impl DispatchContext {
    /// The tiles are whole, and full-precision kernels exist for the columns of every measured
    /// projection.
    pub open spec fn wf(self) -> bool {
        &&& self.policy.default_tile.wf()
        &&& self.policy.default_results_per_simdgroup <= 5120
        &&& self.candidates.wf()
    }
}

/// The kernel that runs a multiplication.
#[derive(Clone, Copy, Debug, PartialEq, Eq)]
pub enum MatmulDispatch {
    Gemv(GemvSpecialization),
    Gemm(GemmPlan),
}

/// A multiplication of four rows is small, or much deeper than wide.
pub open spec fn four_rows_suit_mxu(shape: MatmulShape) -> bool {
    ||| shape.n <= 6144 && shape.k <= 9728
    ||| shape.k > arithmetic::saturating_product(3, shape.n)
}

impl MatmulMetalKernel {
    /// All three element types are the given one.
    pub open spec fn is_uniform(self, data_type: DataType) -> bool {
        &&& self.weights_data_type == data_type
        &&& self.input_data_type == data_type
        &&& self.output_data_type == data_type
    }

    fn all(self, data_type: DataType) -> (uniform: bool)
        ensures
            uniform == self.is_uniform(data_type),
    {
        self.weights_data_type == data_type && self.input_data_type == data_type
            && self.output_data_type == data_type
    }

    /// A type that kernels exist for.
    pub open spec fn is_supported(data_type: DataType) -> bool {
        data_type is BF16 || data_type is F32
    }

    /// The kernels for the given element types, unless one is not supported.
    pub fn new(
        weights_data_type: DataType,
        input_data_type: DataType,
        output_data_type: DataType,
    ) -> (result: Result<MatmulMetalKernel, MatmulError>)
        ensures
            result == if !MatmulMetalKernel::is_supported(weights_data_type) {
                Err::<MatmulMetalKernel, MatmulError>(
                    MatmulError::UnsupportedDataType(weights_data_type),
                )
            } else if !MatmulMetalKernel::is_supported(input_data_type) {
                Err(MatmulError::UnsupportedDataType(input_data_type))
            } else if !MatmulMetalKernel::is_supported(output_data_type) {
                Err(MatmulError::UnsupportedDataType(output_data_type))
            } else {
                Ok(MatmulMetalKernel { weights_data_type, input_data_type, output_data_type })
            },
    {
        if weights_data_type != DataType::BF16 && weights_data_type != DataType::F32 {
            return Err(MatmulError::UnsupportedDataType(weights_data_type));
        }
        if input_data_type != DataType::BF16 && input_data_type != DataType::F32 {
            return Err(MatmulError::UnsupportedDataType(input_data_type));
        }
        if output_data_type != DataType::BF16 && output_data_type != DataType::F32 {
            return Err(MatmulError::UnsupportedDataType(output_data_type));
        }
        Ok(MatmulMetalKernel { weights_data_type, input_data_type, output_data_type })
    }

    /// The matrix unit is faster than a GEMV for a few rows.
    pub open spec fn spec_prefer_gemm_over_gemv(self, shape: MatmulShape, plan: GemmPlan) -> bool {
        &&& !shape.sparse_readout
        &&& plan.engine is Mxu
        &&& !(shape.m == 4 && shape.n == shape.k && self.is_uniform(DataType::F32))
        &&& !(shape.m == 5 && self.is_uniform(DataType::BF16))
        &&& shape.m >= 4
        &&& shape.m == 4 ==> four_rows_suit_mxu(shape)
        &&& plan.tiling is Tile16x32x256_Simdgroups1x1
            || plan.tiling is Tile16x128x256_Simdgroups1x4
    }

    fn prefer_gemm_over_gemv(self, shape: MatmulShape, plan: GemmPlan) -> (prefer: bool)
        ensures
            prefer == self.spec_prefer_gemm_over_gemv(shape, plan),
    {
        if shape.sparse_readout || plan.engine != GemmEngine::Mxu {
            return false;
        }
        if shape.m == 4 && shape.n == shape.k && self.all(DataType::F32) {
            return false;
        }
        if shape.m == 5 && self.all(DataType::BF16) {
            return false;
        }
        if shape.m <= 3 {
            return false;
        }
        if shape.m == 4 {
            let small_enough_for_mxu: bool = shape.n <= 6144 && shape.k <= 9728;
            let k_dominates: bool = shape.k > saturating_mul(3, shape.n);
            if !(small_enough_for_mxu || k_dominates) {
                return false;
            }
        }
        match plan.tiling {
            GemmTiling::Tile16x32x256_Simdgroups1x1 | GemmTiling::Tile16x128x256_Simdgroups1x4 => {
                true
            },
            _ => false,
        }
    }

    /// The GEMV that the policy would run, where a kernel exists.
    pub open spec fn policy_gemv(self, shape: MatmulShape, context: DispatchContext) -> Option<
        GemvSpecialization,
    > {
        match shape.b_kind {
            MatmulBKind::Mxfp4 => GemvSpecialization::spec_select_microfloat(
                shape,
                self.weights_data_type,
                self.input_data_type,
                self.output_data_type,
                context.policy,
            ),
            _ => GemvSpecialization::spec_select_shape(
                shape,
                self.weights_data_type,
                self.input_data_type,
                self.output_data_type,
                context.policy,
                context.candidates,
            ),
        }
    }

    /// The plan that a GEMM would follow.
    pub open spec fn policy_plan(self, shape: MatmulShape, context: DispatchContext) -> GemmPlan {
        (GemmProblem {
            shape,
            weights_data_type: self.weights_data_type,
            output_data_type: self.output_data_type,
            supports_mxu: context.supports_mxu,
            profile: context.profile,
        }).select_plan()
    }

    /// A measured multiplication follows its route; any other one runs the GEMV of the policy, where
    /// there is one and the matrix unit is not faster, and else the plan of the policy.
    pub open spec fn spec_choose_dispatch(
        self,
        shape: MatmulShape,
        context: DispatchContext,
    ) -> MatmulDispatch {
        match routes::spec_route(context.profile, shape, self.is_uniform(DataType::BF16)) {
            Some(QmvRoute::Tuned(tile)) | Some(QmvRoute::MainGemv(tile)) => MatmulDispatch::Gemv(
                GemvSpecialization::of_tile(shape, tile, false, context.policy),
            ),
            Some(QmvRoute::MainGemm(plan)) => MatmulDispatch::Gemm(plan),
            None => {
                let plan = self.policy_plan(shape, context);
                match self.policy_gemv(shape, context) {
                    Some(gemv) => if self.spec_prefer_gemm_over_gemv(shape, plan) {
                        MatmulDispatch::Gemm(plan)
                    } else {
                        MatmulDispatch::Gemv(gemv)
                    },
                    None => MatmulDispatch::Gemm(plan),
                }
            },
        }
    }

    /// Chooses the kernel that runs a multiplication.
    pub fn choose_dispatch(&self, shape: &MatmulShape, context: &DispatchContext) -> (dispatch:
        MatmulDispatch)
        requires
            context.wf(),
        ensures
            dispatch == self.spec_choose_dispatch(*shape, *context),
    {
        let all_bf16: bool = self.all(DataType::BF16);
        if let Some(route) = routes::route(context.profile, shape, all_bf16) {
            proof {
                routes::law_routes_are_legal(context.profile, *shape, route, context.policy);
            }
            return match route {
                QmvRoute::Tuned(tile) | QmvRoute::MainGemv(tile) => MatmulDispatch::Gemv(
                    GemvSpecialization::select_tile(
                        shape,
                        self.weights_data_type,
                        self.input_data_type,
                        self.output_data_type,
                        tile,
                        context.policy,
                    ).unwrap(),
                ),
                QmvRoute::MainGemm(plan) => MatmulDispatch::Gemm(plan),
            };
        }
        let gemv: Option<GemvSpecialization> = match shape.b_kind {
            MatmulBKind::Mxfp4 => GemvSpecialization::select_microfloat(
                shape,
                self.weights_data_type,
                self.input_data_type,
                self.output_data_type,
                context.policy,
            ),
            MatmulBKind::Dense | MatmulBKind::Integer => GemvSpecialization::select_shape(
                shape,
                self.weights_data_type,
                self.input_data_type,
                self.output_data_type,
                context.policy,
                context.candidates,
            ),
        };
        let problem: GemmProblem = GemmProblem::new(
            *shape,
            self.weights_data_type,
            self.output_data_type,
            context.supports_mxu,
            context.profile,
        );
        let plan: GemmPlan = problem.select_plan();
        match gemv {
            None => MatmulDispatch::Gemm(plan),
            Some(gemv) => if self.prefer_gemm_over_gemv(*shape, plan) {
                MatmulDispatch::Gemm(plan)
            } else {
                MatmulDispatch::Gemv(gemv)
            },
        }
    }

    /// Activations can be quantized to eight bits for the multiplication.
    pub open spec fn supports_a8(self, shape: MatmulShape, supports_mxu: bool) -> bool {
        &&& supports_mxu
        &&& self.input_data_type is BF16
        &&& self.output_data_type is BF16
        &&& !shape.a_full_precision
        &&& shape.is_integer_quantized()
        &&& shape.signed_codes
        &&& shape.b_transpose
        &&& shape.b_leading_dimension is None
        &&& shape.b_bits == Some(4u32) || shape.b_bits == Some(8u32)
        &&& shape.k % ACTIVATION_SCALE_GROUP_SIZE == 0
        &&& match shape.b_group_size {
            Some(group_size) => (group_size == 32 || group_size == 64 || group_size == 128)
                && shape.k % group_size == 0,
            None => false,
        }
        &&& shape.b_prologue !is FullPrecision
    }

    /// How activations are quantized for a multiplication, where they can be: in groups of 32 with a
    /// scale each, and with the sums of the groups where the weights carry a correction term.
    pub fn a8_activation_plan(&self, shape: &MatmulShape, supports_mxu: bool) -> (plan: Option<
        A8ActivationPlan,
    >)
        ensures
            plan == if self.supports_a8(*shape, supports_mxu) {
                Some(
                    A8ActivationPlan {
                        activation_group_size: ACTIVATION_SCALE_GROUP_SIZE,
                        sum_group_size: if shape.b_prologue is ScaleSymmetricDequant {
                            None
                        } else {
                            Some(ACTIVATION_SCALE_GROUP_SIZE)
                        },
                    },
                )
            } else {
                None
            },
    {
        let activation_group_size: u32 = ACTIVATION_SCALE_GROUP_SIZE;
        let bits_supported: bool = match shape.b_bits {
            Some(4 | 8) => true,
            _ => false,
        };
        let group_size: u32 = match shape.b_group_size {
            Some(group_size) => group_size,
            None => {
                return None;
            },
        };
        let group_supported: bool = match group_size {
            32 | 64 | 128 => true,
            _ => false,
        };
        if !supports_mxu || self.input_data_type != DataType::BF16 || self.output_data_type
            != DataType::BF16 || shape.a_full_precision || !shape.is_integer_quantized()
            || !shape.signed_codes || !shape.b_transpose || shape.b_leading_dimension.is_some()
            || !bits_supported || !group_supported || shape.k % activation_group_size != 0
            || shape.k % group_size != 0 {
            return None;
        }
        let sum_group_size: Option<u32> = match shape.b_prologue {
            GemmBPrologueKind::ScaleSymmetricDequant => None,
            GemmBPrologueKind::ScaleBiasDequant | GemmBPrologueKind::ScaleZeroPointDequant => {
                Some(arithmetic::min_u32(group_size, activation_group_size))
            },
            GemmBPrologueKind::FullPrecision => {
                return None;
            },
        };
        Some(A8ActivationPlan { activation_group_size, sum_group_size })
    }

    /// The format in which activations are best given: eight-bit integers where the multiplication
    /// is no GEMV and, with such activations, runs on the matrix unit.
    pub open spec fn spec_select_activation_format(
        self,
        bf16_shape: MatmulShape,
        bf16_context: DispatchContext,
        a8_context: DispatchContext,
    ) -> ActivationFormat {
        let a8_shape = MatmulShape { a_full_precision: false, ..bf16_shape };
        if self.spec_choose_dispatch(bf16_shape, bf16_context) is Gemv {
            ActivationFormat::Bf16
        } else {
            match self.spec_choose_dispatch(a8_shape, a8_context) {
                MatmulDispatch::Gemm(plan) => if plan.engine is Mxu {
                    ActivationFormat::Int8
                } else {
                    ActivationFormat::Bf16
                },
                MatmulDispatch::Gemv(_) => ActivationFormat::Bf16,
            }
        }
    }

    /// Chooses the format of the activations. The contexts are those of the multiplication with
    /// activations of either format.
    pub fn select_activation_format(
        &self,
        bf16_shape: &MatmulShape,
        bf16_context: &DispatchContext,
        a8_context: &DispatchContext,
    ) -> (format: ActivationFormat)
        requires
            bf16_context.wf(),
            a8_context.wf(),
        ensures
            format == self.spec_select_activation_format(*bf16_shape, *bf16_context, *a8_context),
    {
        if let MatmulDispatch::Gemv(_) = self.choose_dispatch(bf16_shape, bf16_context) {
            return ActivationFormat::Bf16;
        }
        let mut a8_shape: MatmulShape = *bf16_shape;
        a8_shape.a_full_precision = false;
        match self.choose_dispatch(&a8_shape, a8_context) {
            MatmulDispatch::Gemm(plan) => if plan.engine == GemmEngine::Mxu {
                ActivationFormat::Int8
            } else {
                ActivationFormat::Bf16
            },
            MatmulDispatch::Gemv(_) => ActivationFormat::Bf16,
        }
    }

    /// Microfloat weights are not the matrix that is asked for.
    pub open spec fn microfloat_storage_is_invalid(self, arguments: MatmulArguments) -> bool {
        match arguments.b {
            MatmulB::Microfloat { codes, scales, outer_scales, metadata } => {
                ||| !arguments.b_transpose
                ||| arguments.b_leading_dimension is Some
                ||| !(arguments.routing is SparseReadout || metadata.rows() == arguments.n)
                ||| metadata.columns() != arguments.k
                ||| codes < microfloat::code_bytes(
                    metadata.matrix_count(),
                    metadata.rows(),
                    metadata.columns(),
                )
                ||| scales < microfloat::scale_bytes(
                    metadata.matrix_count(),
                    metadata.rows(),
                    metadata.columns(),
                    metadata.group_size(),
                )
                ||| outer_scales < self.weights_data_type.size_in_bytes()
            },
            _ => false,
        }
    }

    /// The kernel that encodes a multiplication, or why none can.
    pub fn plan_encode(
        &self,
        arguments: &MatmulArguments,
        context: &DispatchContext,
    ) -> (result: Result<MatmulDispatch, MatmulError>)
        requires
            context.wf(),
        ensures
            ({
                let dispatch = self.spec_choose_dispatch(MatmulShape::of(*arguments), *context);
                result == if self.microfloat_storage_is_invalid(*arguments) {
                    Err::<MatmulDispatch, MatmulError>(MatmulError::InvalidMicrofloatStorage)
                } else if dispatch is Gemm && arguments.routing is SparseReadout {
                    Err(MatmulError::GatheredGemm { m: arguments.m, n: arguments.n })
                } else {
                    Ok(dispatch)
                }
            }),
    {
        if let MatmulB::Microfloat { codes, scales, outer_scales, metadata } = arguments.b {
            let rows_match: bool = arguments.routing.sparse_readout_rows().is_some()
                || metadata.rows() == arguments.n;
            if !arguments.b_transpose || arguments.b_leading_dimension.is_some() || !rows_match
                || metadata.columns() != arguments.k || codes < metadata.required_code_bytes()
                || scales < metadata.required_scale_bytes() || outer_scales
                < self.weights_data_type.size_in_bytes() {
                return Err(MatmulError::InvalidMicrofloatStorage);
            }
        }
        let shape: MatmulShape = MatmulShape::from_arguments(arguments);
        let dispatch: MatmulDispatch = self.choose_dispatch(&shape, context);
        if let MatmulDispatch::Gemm(_) = dispatch {
            if arguments.routing.sparse_readout_rows().is_some() {
                return Err(MatmulError::GatheredGemm { m: arguments.m, n: arguments.n });
            }
        }
        Ok(dispatch)
    }
}

/// A measured multiplication of brain floats is run as it was measured.
pub proof fn law_measured_routes_are_dispatched(
    kernel: MatmulMetalKernel,
    shape: MatmulShape,
    context: DispatchContext,
)
    requires
        context.wf(),
        kernel.is_uniform(DataType::BF16),
        routes::spec_route(context.profile, shape, true) is Some,
    ensures
        match routes::spec_route(context.profile, shape, true)->Some_0 {
            QmvRoute::MainGemm(plan) => kernel.spec_choose_dispatch(shape, context)
                == MatmulDispatch::Gemm(plan),
            QmvRoute::Tuned(tile) | QmvRoute::MainGemv(tile) => kernel.spec_choose_dispatch(
                shape,
                context,
            ) matches MatmulDispatch::Gemv(gemv) && gemv.num_simdgroups == tile.num_simdgroups
                && gemv.k_split == tile.k_split && gemv.output_row_tile == tile.output_row_tile()
                && gemv.input_row_tile == tile.input_row_tile && gemv.reduction_lanes
                == tile.reduction_lanes && gemv.group_lanes == tile.group_lanes,
        },
{
}

/// With fewer than four rows, with a readout of chosen rows, or without a matrix unit, a GEMV that
/// exists is never passed over.
pub proof fn law_existing_gemv_is_used(
    kernel: MatmulMetalKernel,
    shape: MatmulShape,
    context: DispatchContext,
)
    requires
        routes::spec_route(context.profile, shape, kernel.is_uniform(DataType::BF16)) is None,
        kernel.policy_gemv(shape, context) is Some,
        shape.sparse_readout || shape.m < 4 || !context.supports_mxu,
    ensures
        kernel.spec_choose_dispatch(shape, context) == MatmulDispatch::Gemv(
            kernel.policy_gemv(shape, context)->Some_0,
        ),
{
}

} // verus!
