//! What the kernels that run multiplications have to do with the multiplications.
use vstd::prelude::*;

use crate::arithmetic;
use crate::backends::common::gpu_types::gemm::{GemmAPrologueKind, GemmBPrologueKind, GemmTiling};
use crate::backends::common::matmul::arguments::{
    MatmulA, MatmulArguments, MatmulB, MatmulBKind,
};
use crate::backends::common::matmul::error::MatmulError;
use crate::backends::common::matmul::routing::{
    A8ActivationPlan, ActivationFormat, MatmulRouting, MatmulShape,
};
use crate::backends::metal::matmul::dispatch::{
    DispatchContext, MatmulDispatch, MatmulMetalKernel,
};
use crate::backends::metal::matmul::gemm::microfloat::{MicrofloatGemmCall, MicrofloatGemmDispatch};
use crate::backends::metal::matmul::gemm::plan::{GemmEngine, GemmPlan, GemmPlanError};
use crate::backends::metal::matmul::gemm::policy;
use crate::backends::metal::matmul::gemm::route_plan::{
    prepare, ExpertRoutePlanKey, PreparedExpertRoutes,
};
use crate::backends::metal::matmul::gemm::selection;
use crate::backends::metal::matmul::gemm::selection::GemmProblem;
use crate::backends::metal::matmul::gemm::specialization::{
    GemmSpecialization, RoutedGemmSpecialization,
};
use crate::backends::metal::matmul::gemv::specialization::GemvSpecialization;
use crate::backends::metal::matmul::gemv::tile::{GemvCandidates, GemvPolicy, GemvTile};
use crate::backends::common::matmul::routing::ExpertRoutes;
use crate::data_type::DataType;

verus! {

/// The shape of a multiplication has its extents and layout, and tells how both operands are stored, what
/// is done to the product and which rows go where.
pub proof fn law_shape_describes_the_multiplication(arguments: MatmulArguments, shape: MatmulShape)
    requires
        call_ensures(MatmulShape::from_arguments, (&arguments,), shape),
    ensures
        (shape.m, shape.n, shape.k) == (arguments.m, arguments.n, arguments.k),
        shape.b_transpose == arguments.b_transpose,
        shape.b_leading_dimension == arguments.b_leading_dimension,
        shape.a_full_precision == (arguments.a is FullPrecision),
        shape.d_transform == arguments.d_transform.transform,
        shape.sparse_readout == (arguments.routing is SparseReadout),
        shape.expert_routed == (arguments.routing is Experts),
        shape.expert_bias == (arguments.d_transform.per_matrix_bias is Some),
        match arguments.b {
            MatmulB::FullPrecision { .. } => shape.b_kind is Dense && shape.b_prologue is FullPrecision
                && shape.b_bits is None && shape.b_group_size is None && !shape.signed_codes,
            MatmulB::Microfloat { metadata, .. } => shape.b_kind is Mxfp4
                && shape.b_prologue is FullPrecision && shape.b_bits == Some(metadata.bits())
                && shape.b_group_size == Some(metadata.group_size()) && !shape.signed_codes,
            MatmulB::ScaleBiasDequant { mode, group_size, signed_codes, .. } => shape.b_kind is Integer
                && shape.b_prologue is ScaleBiasDequant && shape.b_bits == Some(mode.bits())
                && shape.b_group_size == Some(group_size) && shape.signed_codes == signed_codes,
            MatmulB::ScaleZeroPointDequant { mode, group_size, signed_codes, .. } => {
                shape.b_kind is Integer && shape.b_prologue is ScaleZeroPointDequant && shape.b_bits
                    == Some(mode.bits()) && shape.b_group_size == Some(group_size)
                    && shape.signed_codes == signed_codes
            },
            MatmulB::ScaleSymmetricDequant { mode, group_size, signed_codes, .. } => {
                shape.b_kind is Integer && shape.b_prologue is ScaleSymmetricDequant && shape.b_bits
                    == Some(mode.bits()) && shape.b_group_size == Some(group_size)
                    && shape.signed_codes == signed_codes
            },
        },
{
}

/// The left operand is read as it is stored.
pub proof fn law_left_operand_is_read_as_stored(a: MatmulA, kind: GemmAPrologueKind)
    requires
        call_ensures(MatmulA::prologue_kind, (&a,), kind),
    ensures
        kind is FullPrecision <==> a is FullPrecision,
        kind is Int8Symmetric <==> a is Int8Symmetric,
{
}

/// A call with microfloat weights hands over all buffers of both operands, the output and the bias, with the
/// extents of the multiplication; a transform of the output and quantized activations are refused.
pub proof fn law_microfloat_call_holds_the_operands(
    arguments: MatmulArguments,
    result: Result<MicrofloatGemmCall, MatmulError>,
)
    requires
        arguments.b is Microfloat,
        call_ensures(MicrofloatGemmDispatch::encode, (&arguments,), result),
    ensures
        result is Ok <==> !arguments.d_transform.transform.rht && arguments.a is FullPrecision,
        result matches Ok(call) ==> {
            &&& arguments.a == (MatmulA::FullPrecision {
                values: call.input,
                offset: call.input_offset,
            })
            &&& arguments.b matches MatmulB::Microfloat { codes, scales, outer_scales, metadata }
                && call.codes == codes && call.scales == scales && call.outer_scales == outer_scales
                && call.specialization.group_size == metadata.group_size()
            &&& call.specialization.output_transform == arguments.d_transform.transform
            &&& call.d == arguments.d
            &&& call.output_bias == arguments.d_transform.output_bias
            &&& (call.m, call.n, call.k) == (arguments.m, arguments.n, arguments.k)
        },
{
}

/// A GEMV is compiled for the way in which the right operand is stored, for what is done to the product and
/// for the rows that are read, and its tile is given.
pub open spec fn is_compiled_for(
    specialization: GemvSpecialization,
    shape: MatmulShape,
    tile: GemvTile,
) -> bool {
    &&& specialization.b_prologue == shape.b_prologue
    &&& match shape.b_group_size {
        Some(size) => specialization.group_size == size,
        None => specialization.group_size == 0,
    }
    &&& match shape.b_bits {
        Some(bits) => specialization.bits == bits,
        None => specialization.bits == 0,
    }
    &&& specialization.output_transform == shape.d_transform
    &&& specialization.gathered == shape.sparse_readout
    &&& specialization.expert_routed == shape.expert_routed
    &&& specialization.expert_bias == shape.expert_bias
    &&& specialization.signed_codes == shape.signed_codes
    &&& specialization.num_simdgroups == tile.num_simdgroups
    &&& specialization.k_split == tile.k_split
    &&& specialization.input_row_tile == tile.input_row_tile
    &&& specialization.reduction_lanes == tile.reduction_lanes
    &&& specialization.group_lanes == tile.group_lanes
    &&& specialization.output_row_tile == (tile.num_simdgroups / tile.k_split)
        * tile.results_per_simdgroup
    &&& specialization.full_tile ==> (tile.input_row_tile > 0 ==> shape.m % tile.input_row_tile == 0)
        && (specialization.output_row_tile > 0 ==> shape.n % specialization.output_row_tile == 0)
    &&& tile.input_row_tile > 0 && specialization.output_row_tile > 0 && shape.m % tile.input_row_tile == 0
        && shape.n % specialization.output_row_tile == 0 ==> specialization.full_tile
}

/// A kernel with a given tile exists exactly for these multiplications: the weights lie row by row, a row
/// for each column of the product and without gaps unless they are full precision; the left operand
/// is full precision; what is done to blocks of 32 columns finds whole blocks; full-precision kernels
/// take up to eight rows of enough columns in types that go together; and rows that are chosen or
/// routed are multiplied one at a time.
pub proof fn law_tiles_exist_for_their_shapes(
    shape: MatmulShape,
    weights: DataType,
    input: DataType,
    output: DataType,
    tile: GemvTile,
    policy: GemvPolicy,
    selected: Option<GemvSpecialization>,
)
    requires
        tile.wf(),
        call_ensures(
            GemvSpecialization::select_tile,
            (&shape, weights, input, output, tile, policy),
            selected,
        ),
    ensures
        selected is Some <==> {
            &&& shape.b_transpose
            &&& shape.a_full_precision
            &&& shape.b_leading_dimension matches Some(dimension) ==> shape.b_kind !is Integer
                && dimension == shape.k
            &&& shape.d_transform.rht ==> shape.n % 32 == 0
            &&& shape.d_transform.accumulate ==> shape.n % 32 == 0
            &&& shape.b_kind !is Integer ==> shape.m <= 8 && shape.n
                >= policy.default_results_per_simdgroup && (weights == DataType::F32 ==> input
                == DataType::F32 && output == DataType::F32)
            &&& shape.sparse_readout || shape.expert_routed ==> tile.input_row_tile <= 1
        },
        selected matches Some(specialization) ==> is_compiled_for(specialization, shape, tile)
            && !specialization.microfloat,
        selected matches Some(specialization) ==> (shape.b_kind is Integer
            ==> specialization.input_aligned == (shape.k % if shape.b_bits == Some(4u32) {
            512u32
        } else {
            256u32
        } == 0)),
        selected matches Some(specialization) ==> (shape.b_kind !is Integer && policy.fp_k_block > 0
            ==> specialization.input_aligned == (shape.k % policy.fp_k_block == 0)),
{
}

/// The policy's tile for the weights at hand is used: that of chosen rows where rows of integer weights are
/// chosen, that of integer weights, that of full precision, and the default where full-precision
/// outputs are transformed in blocks; routed rows are multiplied one at a time, and at most eight of
/// them.
pub proof fn law_policy_tile_suits_the_weights(
    shape: MatmulShape,
    weights: DataType,
    input: DataType,
    output: DataType,
    policy: GemvPolicy,
    candidates: GemvCandidates,
    selected: Option<GemvSpecialization>,
)
    requires
        policy.default_tile.wf(),
        candidates.wf(),
        call_ensures(
            GemvSpecialization::select_shape,
            (&shape, weights, input, output, policy, candidates),
            selected,
        ),
    ensures
        shape.expert_routed && shape.m > 8 ==> selected is None,
        shape.b_kind is Integer && shape.sparse_readout && candidates.gathered is None ==> selected is None,
        shape.b_kind is Integer && !shape.sparse_readout && candidates.quantized is None
            ==> selected is None,
        selected matches Some(specialization) ==> {
            let given = if shape.b_kind is Integer {
                if shape.sparse_readout {
                    candidates.gathered->0
                } else {
                    candidates.quantized->0
                }
            } else if shape.d_transform.rht {
                policy.default_tile
            } else {
                candidates.full_precision
            };
            let tile = if shape.expert_routed {
                GemvTile { input_row_tile: 1, ..given }
            } else {
                given
            };
            is_compiled_for(specialization, shape, tile) && !specialization.microfloat
                && shape.b_transpose && shape.a_full_precision
        },
{
}

/// Microfloat weights are multiplied with the default tile, with up to eight rows or with chosen rows, and
/// one row at a time.
pub proof fn law_microfloat_tile_is_the_default(
    shape: MatmulShape,
    weights: DataType,
    input: DataType,
    output: DataType,
    policy: GemvPolicy,
    selected: Option<GemvSpecialization>,
)
    requires
        policy.default_tile.wf(),
        call_ensures(
            GemvSpecialization::select_microfloat,
            (&shape, weights, input, output, policy),
            selected,
        ),
    ensures
        selected is Some <==> {
            &&& shape.m <= 8 || shape.sparse_readout
            &&& shape.b_transpose
            &&& shape.a_full_precision
            &&& shape.b_leading_dimension is None
            &&& shape.d_transform.rht ==> shape.n % 32 == 0
            &&& shape.d_transform.accumulate ==> shape.n % 32 == 0
            &&& policy.default_tile.input_row_tile <= 1
        },
        selected matches Some(specialization) ==> is_compiled_for(
            specialization,
            shape,
            policy.default_tile,
        ) && specialization.microfloat,
{
}

/// A specialization gives back its tile.
pub proof fn law_tile_is_given_back(specialization: GemvSpecialization, tile: GemvTile)
    requires
        specialization.k_split > 0,
        specialization.num_simdgroups >= specialization.k_split,
        call_ensures(GemvSpecialization::tile, (specialization,), tile),
    ensures
        tile.num_simdgroups == specialization.num_simdgroups,
        tile.k_split == specialization.k_split,
        tile.input_row_tile == specialization.input_row_tile,
        tile.reduction_lanes == specialization.reduction_lanes,
        tile.group_lanes == specialization.group_lanes,
        tile.results_per_simdgroup * (specialization.num_simdgroups / specialization.k_split)
            <= specialization.output_row_tile,
        specialization.output_row_tile < (tile.results_per_simdgroup + 1) * (
        specialization.num_simdgroups / specialization.k_split),
{
    let shares = specialization.num_simdgroups / specialization.k_split;
    let columns = specialization.output_row_tile;
    assert(shares > 0) by (nonlinear_arith)
        requires
            specialization.k_split > 0,
            specialization.num_simdgroups >= specialization.k_split,
            shares == specialization.num_simdgroups / specialization.k_split,
    ;
    assert((columns / shares) * shares <= columns && columns < (columns / shares + 1) * shares)
        by (nonlinear_arith)
        requires
            shares > 0,
    ;
}

/// The kernel that is chosen is compiled for the multiplication.
pub proof fn law_chosen_gemv_suits_the_multiplication(
    kernel: MatmulMetalKernel,
    shape: MatmulShape,
    context: DispatchContext,
    specialization: GemvSpecialization,
)
    requires
        context.wf(),
        call_ensures(
            MatmulMetalKernel::choose_dispatch,
            (&kernel, &shape, &context),
            MatmulDispatch::Gemv(specialization),
        ),
    ensures
        specialization.b_prologue == shape.b_prologue,
        specialization.output_transform == shape.d_transform,
        specialization.gathered == shape.sparse_readout,
        specialization.expert_routed == shape.expert_routed,
        specialization.expert_bias == shape.expert_bias,
        specialization.signed_codes == shape.signed_codes,
        shape.b_bits matches Some(bits) ==> specialization.bits == bits,
        shape.b_group_size matches Some(size) ==> specialization.group_size == size,
{
}

/// The matrix unit takes over from a GEMV only for four rows or more of a product that does not choose
/// rows, and not for four rows of a square of single precision nor for five rows of brain floats.
pub proof fn law_matrix_unit_takes_over_from_four_rows(
    kernel: MatmulMetalKernel,
    shape: MatmulShape,
    plan: GemmPlan,
)
    ensures
        kernel.spec_prefer_gemm_over_gemv(shape, plan) ==> {
            &&& shape.m >= 4
            &&& !shape.sparse_readout
            &&& plan.engine == GemmEngine::Mxu
            &&& plan.tiling.block_m() == 16
            &&& !(shape.m == 4 && shape.n == shape.k && kernel.weights_data_type == DataType::F32
                && kernel.input_data_type == DataType::F32 && kernel.output_data_type == DataType::F32)
            &&& !(shape.m == 5 && kernel.weights_data_type == DataType::BF16
                && kernel.input_data_type == DataType::BF16 && kernel.output_data_type
                == DataType::BF16)
            &&& shape.m == 4 ==> (shape.n <= 6144 && shape.k <= 9728) || shape.k > 3 * shape.n
        },
        plan.engine == GemmEngine::Mxu && plan.tiling.is_mxu_variant() && plan.tiling.block_m() == 16
            && !shape.sparse_readout && shape.m >= 6 ==> kernel.spec_prefer_gemm_over_gemv(shape, plan),
{
}

/// Kernels exist for brain floats and single precision only, and each of the three types is asked for.
pub proof fn law_kernels_exist_for_two_types(
    weights: DataType,
    input: DataType,
    output: DataType,
    result: Result<MatmulMetalKernel, MatmulError>,
)
    requires
        call_ensures(MatmulMetalKernel::new, (weights, input, output), result),
    ensures
        result is Ok <==> (weights == DataType::BF16 || weights == DataType::F32) && (input
            == DataType::BF16 || input == DataType::F32) && (output == DataType::BF16 || output
            == DataType::F32),
        result matches Ok(kernel) ==> kernel.weights_data_type == weights && kernel.input_data_type == input
            && kernel.output_data_type == output,
        result matches Err(error) ==> (error matches MatmulError::UnsupportedDataType(data_type)
            && data_type != DataType::BF16 && data_type != DataType::F32 && (data_type == weights
            || data_type == input || data_type == output)),
{
}

/// Activations are quantized in groups of 32 for products of brain floats on the matrix unit whose weights are
/// signed integer codes of four or eight bits, in groups of 32, 64 or 128 that fill the depth, and lie
/// without gaps. Sums of the groups are taken where the weights are not symmetric.
pub proof fn law_quantized_activations_suit_the_weights(
    kernel: MatmulMetalKernel,
    shape: MatmulShape,
    supports_mxu: bool,
    plan: Option<A8ActivationPlan>,
)
    requires
        call_ensures(MatmulMetalKernel::a8_activation_plan, (&kernel, &shape, supports_mxu), plan),
    ensures
        plan is Some <==> {
            &&& supports_mxu
            &&& kernel.input_data_type == DataType::BF16
            &&& kernel.output_data_type == DataType::BF16
            &&& !shape.a_full_precision
            &&& shape.b_kind is Integer
            &&& shape.b_prologue !is FullPrecision
            &&& shape.signed_codes
            &&& shape.b_transpose
            &&& shape.b_leading_dimension is None
            &&& shape.b_bits == Some(4u32) || shape.b_bits == Some(8u32)
            &&& shape.b_group_size == Some(32u32) || shape.b_group_size == Some(64u32)
                || shape.b_group_size == Some(128u32)
            &&& shape.k % shape.b_group_size->0 == 0
        },
        plan matches Some(plan) ==> plan.activation_group_size == 32 && plan.sum_group_size == if
            shape.b_prologue is ScaleSymmetricDequant {
            None
        } else {
            Some(32u32)
        },
{
    if shape.b_group_size == Some(64u32) {
        assert(shape.k % 64 == 0 ==> shape.k % 32 == 0);
    }
    if shape.b_group_size == Some(128u32) {
        assert(shape.k % 128 == 0 ==> shape.k % 32 == 0);
    }
}

/// Activations are given as integers only where the multiplication would run as a GEMM either way, and with
/// integers on the matrix unit.
pub proof fn law_integer_activations_run_on_the_matrix_unit(
    kernel: MatmulMetalKernel,
    shape: MatmulShape,
    bf16_context: DispatchContext,
    a8_context: DispatchContext,
    format: ActivationFormat,
    bf16_dispatch: MatmulDispatch,
    a8_dispatch: MatmulDispatch,
)
    requires
        bf16_context.wf(),
        a8_context.wf(),
        call_ensures(
            MatmulMetalKernel::select_activation_format,
            (&kernel, &shape, &bf16_context, &a8_context),
            format,
        ),
        call_ensures(
            MatmulMetalKernel::choose_dispatch,
            (&kernel, &shape, &bf16_context),
            bf16_dispatch,
        ),
        call_ensures(
            MatmulMetalKernel::choose_dispatch,
            (&kernel, &(MatmulShape { a_full_precision: false, ..shape }), &a8_context),
            a8_dispatch,
        ),
    ensures
        format is Int8 <==> bf16_dispatch is Gemm && (a8_dispatch matches MatmulDispatch::Gemm(plan)
            && plan.engine == GemmEngine::Mxu),
{
}

/// A multiplication is encoded as it is dispatched; microfloat weights must be the transposed matrix without
/// gaps that is asked for, and all of it, and chosen rows are read by no GEMM.
pub proof fn law_encoding_follows_the_dispatch(
    kernel: MatmulMetalKernel,
    arguments: MatmulArguments,
    context: DispatchContext,
    shape: MatmulShape,
    dispatch: MatmulDispatch,
    result: Result<MatmulDispatch, MatmulError>,
)
    requires
        context.wf(),
        call_ensures(MatmulShape::from_arguments, (&arguments,), shape),
        call_ensures(MatmulMetalKernel::choose_dispatch, (&kernel, &shape, &context), dispatch),
        call_ensures(MatmulMetalKernel::plan_encode, (&kernel, &arguments, &context), result),
    ensures
        result matches Ok(planned) ==> planned == dispatch && !(planned is Gemm
            && arguments.routing is SparseReadout),
        result == Err::<MatmulDispatch, MatmulError>(
            MatmulError::GatheredGemm { m: arguments.m, n: arguments.n },
        ) ==> dispatch is Gemm && arguments.routing is SparseReadout,
        arguments.b !is Microfloat && !(dispatch is Gemm && arguments.routing is SparseReadout)
            ==> result is Ok,
        result is Ok ==> (arguments.b matches MatmulB::Microfloat { metadata, outer_scales, .. } ==> {
            &&& arguments.b_transpose
            &&& arguments.b_leading_dimension is None
            &&& metadata.columns() == arguments.k
            &&& metadata.rows() == arguments.n || arguments.routing is SparseReadout
            &&& outer_scales >= kernel.weights_data_type.size_in_bytes()
        }),
{
}

/// The plan of a problem runs on the matrix unit exactly where the device has one and the problem suits it:
/// no routed rows, no microfloats, and integer weights with full-precision activations only where they
/// lie without gaps and fill blocks of 256 codes.
pub proof fn law_engine_suits_the_problem(problem: GemmProblem, plan: GemmPlan)
    requires
        call_ensures(GemmProblem::select_plan, (problem,), plan),
    ensures
        plan.engine == GemmEngine::Mxu <==> {
            &&& problem.supports_mxu
            &&& !problem.shape.expert_routed
            &&& problem.shape.b_kind != MatmulBKind::Mxfp4
            &&& {
                ||| !problem.shape.a_full_precision
                ||| problem.shape.b_prologue == GemmBPrologueKind::FullPrecision
                ||| problem.shape.b_transpose && problem.shape.b_leading_dimension is None
                    && problem.shape.k % 256 == 0
            }
        },
        plan.tiling.is_mxu_variant() <==> plan.engine == GemmEngine::Mxu,
        problem.shape.b_kind != MatmulBKind::Dense && plan.engine == GemmEngine::Mxu
            && problem.shape.b_group_size is Some ==> plan.tiling.fits_quant_group_size(
            problem.shape.b_group_size->0,
        ),
{
}

/// An engine runs a problem unless one of these holds, the first of which is the reason: there is no matrix
/// unit; rows are routed and the matrix unit, quantized activations or weights with gaps are asked
/// for; microfloats meet quantized activations or the matrix unit; packed weights have gaps.
pub proof fn law_engines_refuse_for_a_reason(
    problem: GemmProblem,
    engine: GemmEngine,
    result: Result<GemmPlan, GemmPlanError>,
)
    requires
        call_ensures(GemmProblem::select_plan_for_engine, (problem, engine), result),
    ensures
        ({
            let shape = problem.shape;
            let gaps = !shape.b_transpose || shape.b_leading_dimension is Some;
            let mxu = engine == GemmEngine::Mxu;
            let no_unit = mxu && !problem.supports_mxu;
            let routed = shape.expert_routed && (mxu || !shape.a_full_precision || gaps);
            let microfloat = shape.b_kind == MatmulBKind::Mxfp4;
            match result {
                Ok(plan) => plan.engine == engine && !no_unit && !routed && !(microfloat && (mxu
                    || !shape.a_full_precision)) && !(shape.b_kind != MatmulBKind::Dense && gaps),
                Err(GemmPlanError::MxuUnavailable) => no_unit,
                Err(GemmPlanError::UnsupportedExpertRouting) => routed && !no_unit,
                Err(GemmPlanError::UnsupportedMicrofloatActivation) => microfloat
                    && !shape.a_full_precision && !routed && !no_unit,
                Err(GemmPlanError::UnsupportedMicrofloatEngine) => microfloat && mxu
                    && shape.a_full_precision && !routed && !no_unit,
                Err(GemmPlanError::UnsupportedPackedLayout) => shape.b_kind != MatmulBKind::Dense && gaps
                    && !routed && !no_unit,
            }
        }),
{
}

/// The depth is not divided for routed rows, for microfloats, for weights with gaps unless they are integers,
/// for a product whose elements are no multiple of four, nor where a bias is left to add that cannot
/// be added to parts.
pub proof fn law_depth_stays_whole(problem: GemmProblem, plan: GemmPlan)
    requires
        call_ensures(GemmProblem::select_plan, (problem,), plan),
    ensures
        ({
            let shape = problem.shape;
            plan.split_k > 1 ==> {
                &&& !shape.expert_routed
                &&& shape.b_kind != MatmulBKind::Mxfp4
                &&& shape.b_kind == MatmulBKind::Integer || (shape.b_transpose
                    && shape.b_leading_dimension is None)
                &&& (shape.m * shape.n) % 4 == 0
                &&& !shape.d_transform.bias || (shape.b_kind == MatmulBKind::Integer
                    && shape.d_transform.rht) || (shape.n % 4 == 0 && problem.weights_data_type
                    == problem.output_data_type)
            }
        }),
        plan.split_k >= 1,
        problem.shape.k % plan.split_k == 0,
{
    selection::law_split_divides_the_depth(problem, plan.engine, plan.tiling);
}

proof fn lemma_largest_split_is_largest(k: u32, align: u32, limit: u32, parts: u32)
    requires
        selection::largest_split(k, align, limit) < parts <= limit,
    ensures
        k as int % (parts * align) != 0,
    decreases limit,
{
    if limit > parts {
        lemma_largest_split_is_largest(k, align, (limit - 1) as u32, parts);
    }
}

proof fn lemma_largest_split_is_at_most(k: u32, align: u32, limit: u32)
    ensures
        selection::largest_split(k, align, limit) <= limit || selection::largest_split(k, align, limit)
            == 1,
    decreases limit,
{
    if limit > 1 {
        lemma_largest_split_is_at_most(k, align, (limit - 1) as u32);
    }
}

/// A divided depth makes no more blocks than are aimed at, and its parts are at least as deep as a group of
/// codes, as two groups of four-bit codes with zero points, and as 32 activations. No greater number
/// of parts up to the limit divides the depth into such parts.
pub proof fn law_depth_is_divided_as_far_as_aimed(
    problem: GemmProblem,
    engine: GemmEngine,
    tiling: GemmTiling,
    step: u32,
    parts: u32,
)
    requires
        selection::spec_outer_block_k(problem.shape, engine, tiling) == Some(step),
        problem.is_splittable(tiling),
    ensures
        ({
            let shape = problem.shape;
            let split = problem.spec_select_split_k(engine, tiling);
            let align = problem.split_align(engine, step);
            let target = policy::split_k_target_tiles(!shape.a_full_precision, tiling, shape.b_bits);
            &&& align >= 32
            &&& align >= step
            &&& shape.b_group_size matches Some(size) ==> align >= size
            &&& shape.b_group_size matches Some(size) ==> (shape.b_prologue is ScaleZeroPointDequant
                && shape.b_bits == Some(4u32) ==> align >= 2 * size || align == u32::MAX)
            &&& split > 1 ==> split * problem.base_tiles(tiling) <= target
            &&& split > 1 ==> split * align <= shape.k
            &&& split < parts && parts * problem.base_tiles(tiling) <= target && parts * align <= shape.k
                && (shape.a_full_precision || engine is Simdgroup || parts * tiling.block_k()
                <= shape.k) ==> shape.k as int % (parts * align) != 0
        }),
{
    let shape = problem.shape;
    let align = problem.split_align(engine, step);
    let limit = problem.split_limit(engine, tiling, align);
    let split = problem.spec_select_split_k(engine, tiling);
    let tiles = problem.base_tiles(tiling);
    let target = policy::split_k_target_tiles(!shape.a_full_precision, tiling, shape.b_bits);
    lemma_largest_split_is_at_most(shape.k, align, limit);
    if split > 1 {
        lemma_quotient(split as int, target as int, tiles as int);
        lemma_quotient(split as int, shape.k as int, align as int);
    }
    if split < parts && parts * tiles <= target && parts * align <= shape.k && (
    shape.a_full_precision || engine is Simdgroup || parts * tiling.block_k() <= shape.k) {
        lemma_divisor(parts as int, target as int, tiles as int);
        lemma_divisor(parts as int, shape.k as int, align as int);
        if !(shape.a_full_precision || engine is Simdgroup) {
            lemma_divisor(parts as int, shape.k as int, tiling.block_k() as int);
        }
        assert(parts <= limit);
        lemma_largest_split_is_largest(shape.k, align, limit, parts);
    }
}

proof fn lemma_quotient(parts: int, whole: int, part: int)
    requires
        part > 0,
        whole >= 0,
        parts <= whole / part,
    ensures
        parts * part <= whole,
{
    assert(parts * part <= whole) by (nonlinear_arith)
        requires
            part > 0,
            parts <= whole / part,
    ;
}

proof fn lemma_divisor(parts: int, whole: int, part: int)
    requires
        part > 0,
        whole >= 0,
        parts * part <= whole,
    ensures
        parts <= whole / part,
{
    assert(parts <= whole / part) by (nonlinear_arith)
        requires
            part > 0,
            parts * part <= whole,
    ;
}

/// The blocks of an undivided product are counted by rows and by columns: they cover both, and a row or a
/// column of blocks less would not.
pub proof fn law_blocks_cover_the_product(problem: GemmProblem, tiling: GemmTiling)
    ensures
        ({
            let shape = problem.shape;
            let rows = (shape.m + tiling.block_m() - 1) / tiling.block_m() as int;
            let columns = (shape.n + tiling.block_n() - 1) / tiling.block_n() as int;
            &&& rows * tiling.block_m() >= shape.m
            &&& rows > 0 ==> (rows - 1) * tiling.block_m() < shape.m
            &&& columns * tiling.block_n() >= shape.n
            &&& columns > 0 ==> (columns - 1) * tiling.block_n() < shape.n
            &&& problem.base_tiles(tiling) == columns * rows || (columns * rows > u32::MAX
                && problem.base_tiles(tiling) == u32::MAX)
        }),
{
    let shape = problem.shape;
    let (m, n) = (tiling.block_m() as int, tiling.block_n() as int);
    let rows = (shape.m + m - 1) / m;
    let columns = (shape.n + n - 1) / n;
    arithmetic::lemma_div_ceil_is_at_most(shape.m as int, m);
    arithmetic::lemma_div_ceil_is_at_most(shape.n as int, n);
    assert(rows * m >= shape.m && (rows > 0 ==> (rows - 1) * m < shape.m)) by (nonlinear_arith)
        requires
            m > 0,
            rows == (shape.m + m - 1) / m,
    ;
    assert(columns * n >= shape.n && (columns > 0 ==> (columns - 1) * n < shape.n))
        by (nonlinear_arith)
        requires
            n > 0,
            columns == (shape.n + n - 1) / n,
    ;
}

/// A kernel is compiled for the tiling and the engine of the plan and for the operands of the problem.
pub proof fn law_gemm_is_compiled_for_the_plan(
    plan: GemmPlan,
    shape: MatmulShape,
    weights_data_type: DataType,
    alignment: crate::backends::common::gpu_types::gemm::GemmAlignment,
    a_prologue: GemmAPrologueKind,
    a_group_size: Option<u32>,
    specialization: GemmSpecialization,
)
    requires
        call_ensures(
            GemmSpecialization::from_plan,
            (plan, shape, weights_data_type, shape.d_transform, alignment, a_prologue, a_group_size),
            Ok::<
                GemmSpecialization,
                crate::backends::metal::matmul::gemm::plan::GemmSpecializationError,
            >(specialization),
        ),
    ensures
        specialization.tiling == plan.tiling,
        specialization.use_mxu == (plan.engine == GemmEngine::Mxu),
        specialization.use_mxu == plan.tiling.is_mxu_variant(),
        specialization.weights_data_type == weights_data_type,
        specialization.output_transform == shape.d_transform,
        specialization.alignment == alignment,
        specialization.transpose_b == shape.b_transpose,
        specialization.b_prologue == shape.b_prologue,
        specialization.bits_per_b == shape.b_bits,
        specialization.b_group_size == shape.b_group_size,
        specialization.signed_codes == shape.signed_codes,
        specialization.a_prologue == a_prologue,
        specialization.a_group_size == a_group_size,
        a_prologue is FullPrecision <==> a_group_size is None,
        a_group_size matches Some(size) ==> size == 32 || size == 64 || size == 128,
        shape.b_bits is Some ==> shape.b_transpose,
        shape.b_group_size matches Some(size) ==> (!specialization.use_mxu
            ==> plan.tiling.simdgroup_block_k() <= size),
        shape.b_group_size matches Some(size) ==> (specialization.use_mxu && shape.b_prologue
            !is FullPrecision ==> plan.tiling.fits_quant_group_size(size)),
        shape.b_kind !is Integer && plan.split_k <= 1 ==> specialization.stage_weight_scales
            && !specialization.hoist_operand_addressing,
{
}

/// A kernel for routed rows is compiled for the operands of the problem, with a tile of sixteen rows.
pub proof fn law_routed_gemm_is_compiled_for_the_plan(
    plan: GemmPlan,
    shape: MatmulShape,
    alignment: crate::backends::common::gpu_types::gemm::GemmAlignment,
    specialization: RoutedGemmSpecialization,
)
    requires
        call_ensures(
            RoutedGemmSpecialization::from_plan,
            (plan, shape, shape.d_transform, alignment),
            Ok::<
                RoutedGemmSpecialization,
                crate::backends::metal::matmul::gemm::plan::GemmSpecializationError,
            >(specialization),
        ),
    ensures
        shape.expert_routed,
        shape.b_transpose,
        shape.a_full_precision,
        specialization.tiling == plan.tiling,
        plan.tiling.block_m() == 16,
        plan.tiling.block_n() == 64,
        !plan.tiling.is_mxu_variant(),
        specialization.output_transform == shape.d_transform,
        specialization.alignment == alignment,
        specialization.b_prologue == shape.b_prologue,
        specialization.bits_per_b == shape.b_bits,
        specialization.b_group_size == shape.b_group_size,
        specialization.signed_codes == shape.signed_codes,
        specialization.expert_bias == shape.expert_bias,
        shape.b_group_size matches Some(size) ==> plan.tiling.block_k() <= size,
{
}

/// Routed rows are tiled as deep as their groups of codes allow, sixteen or 32.
pub proof fn law_routed_tile_fits_its_groups(group_size: Option<u32>, tiling: GemmTiling)
    requires
        call_ensures(policy::routed_tile, (group_size,), tiling),
    ensures
        tiling.block_m() == 16,
        tiling.block_n() == 64,
        tiling.block_k() == if group_size == Some(16u32) {
            16u32
        } else {
            32u32
        },
{
}

/// Routes are grouped anew exactly where the last grouping was another one; buffers hold a first row for
/// each expert and one behind the last, a cursor for each expert, each route, and three words for each
/// tile, of which there are at most as many as routes.
pub proof fn law_routes_are_grouped_once(
    routes: ExpertRoutes,
    expert_ids: u64,
    route_count: u32,
    block_m: u32,
    cached: Option<ExpertRoutePlanKey>,
    prepared: PreparedExpertRoutes,
)
    requires
        routes.expert_count < u32::MAX,
        call_ensures(prepare, (&routes, expert_ids, route_count, block_m, cached), prepared),
    ensures
        prepared.key.expert_ids == expert_ids,
        prepared.key.route_count == route_count,
        prepared.key.block_m == block_m,
        prepared.key.expert_count == routes.expert_count,
        prepared.key.routes_per_token == routes.routes_per_token,
        prepared.scratch is None <==> cached == Some(prepared.key),
        prepared.retain <==> prepared.scratch is Some,
        prepared.scratch matches Some(scratch) ==> scratch.offsets == routes.expert_count + 1
            && scratch.cursors == routes.expert_count && scratch.grouped_routes == route_count
            && scratch.tiles == 3 * route_count && scratch.tile_count == 1,
{
}

/// Two groupings are the same where routes, experts, and block height are.
pub proof fn law_same_routes_share_a_grouping(
    routes: ExpertRoutes,
    expert_ids: u64,
    route_count: u32,
    block_m: u32,
    first: PreparedExpertRoutes,
    second: PreparedExpertRoutes,
)
    requires
        routes.expert_count < u32::MAX,
        call_ensures(prepare, (&routes, expert_ids, route_count, block_m, None), first),
        call_ensures(
            prepare,
            (&routes, expert_ids, route_count, block_m, Some(first.key)),
            second,
        ),
    ensures
        first.retain,
        !second.retain,
        second.scratch is None,
{
}

/// Where an engine is refused it is refused for the plan too, and for the same reason; a problem holds what it
/// is made of.
pub proof fn law_engines_are_checked_alike(
    shape: MatmulShape,
    weights: DataType,
    output: DataType,
    supports_mxu: bool,
    profile: crate::backends::metal::device_profile::DeviceProfile,
    problem: GemmProblem,
    engine: GemmEngine,
    checked: Result<(), GemmPlanError>,
    planned: Result<GemmPlan, GemmPlanError>,
)
    requires
        call_ensures(GemmProblem::new, (shape, weights, output, supports_mxu, profile), problem),
        call_ensures(GemmProblem::validate_engine, (&problem, engine), checked),
        call_ensures(GemmProblem::select_plan_for_engine, (problem, engine), planned),
    ensures
        checked is Ok <==> planned is Ok,
        checked matches Err(left) ==> (planned matches Err(right) && left == right),
        problem.shape == shape,
        problem.weights_data_type == weights,
        problem.output_data_type == output,
        problem.supports_mxu == supports_mxu,
        problem.profile == profile,
{
}

/// A plan is legal only where its engine runs the problem with one of its own tilings, its parts divide the
/// depth, and a kernel exists that reads the groups of the weights.
pub proof fn law_legal_plans_can_be_run(problem: GemmProblem, plan: GemmPlan, legal: bool)
    requires
        call_ensures(GemmProblem::plan_is_legal, (problem, plan), legal),
    ensures
        legal ==> {
            &&& plan.split_k > 0
            &&& problem.shape.k % plan.split_k == 0
            &&& plan.engine == GemmEngine::Mxu <==> plan.tiling.is_mxu_variant()
            &&& plan.engine == GemmEngine::Mxu ==> problem.supports_mxu && !problem.shape.expert_routed
                && problem.shape.b_kind != MatmulBKind::Mxfp4
            &&& problem.shape.b_bits is Some ==> problem.shape.b_transpose
            &&& problem.shape.b_group_size matches Some(size) ==> (plan.engine == GemmEngine::Simdgroup
                ==> plan.tiling.simdgroup_block_k() <= size)
        },
        !legal && plan.split_k == 1 && problem.shape.b_kind == MatmulBKind::Dense
            && problem.shape.b_bits is None && problem.shape.b_group_size is None
            && !problem.shape.expert_routed ==> (plan.engine == GemmEngine::Mxu)
            != plan.tiling.is_mxu_variant() || (plan.engine == GemmEngine::Mxu && !problem.supports_mxu),
{
}

/// Scales are staged where six groups or more are multiplied at once, but for low tiles of four-bit codes in
/// groups of 32; addresses are computed once unless the tile is the largest and the weights have no
/// correction.
pub proof fn law_tuned_addressing(plan: GemmPlan, shape: MatmulShape, stage: bool, hoist: bool)
    requires
        plan.split_k > 0,
        shape.b_group_size matches Some(size) ==> size > 0,
        call_ensures(GemmPlan::should_stage_weight_scales, (plan, shape), stage),
        call_ensures(GemmPlan::should_hoist_operand_addressing, (plan, shape), hoist),
    ensures
        ({
            let small = shape.b_bits == Some(4u32) && shape.b_group_size == Some(32u32)
                && plan.tiling.block_m() <= 32;
            let counted = plan.tiling.is_mxu_variant() && plan.tiling.block_m() == 32
                && plan.tiling.block_n() == 64;
            &&& small ==> !stage
            &&& !small && !counted ==> stage
            &&& !small && counted ==> match shape.b_group_size {
                Some(size) => stage <==> shape.k / plan.split_k / size >= 6,
                None => stage,
            }
        }),
        !hoist <==> plan.tiling.is_mxu_variant() && plan.tiling.block_m() == 128 && !(
        shape.b_prologue is ScaleBiasDequant || shape.b_prologue is ScaleZeroPointDequant),
{
}

/// The right operand tells how it is stored.
pub proof fn law_right_operand_tells_its_storage(
    b: MatmulB,
    kind: MatmulBKind,
    prologue: GemmBPrologueKind,
    bits: Option<u32>,
    size: Option<u32>,
    signed: bool,
)
    requires
        call_ensures(MatmulB::kind, (&b,), kind),
        call_ensures(MatmulB::b_prologue, (&b,), prologue),
        call_ensures(MatmulB::bits_per_b, (&b,), bits),
        call_ensures(MatmulB::group_size, (&b,), size),
        call_ensures(MatmulB::signed_codes, (&b,), signed),
    ensures
        match b {
            MatmulB::FullPrecision { .. } => kind is Dense && prologue is FullPrecision && bits is None
                && size is None && !signed,
            MatmulB::Microfloat { metadata, .. } => kind is Mxfp4 && prologue is FullPrecision && bits
                == Some(4u32) && size == Some(metadata.group_size()) && !signed,
            MatmulB::ScaleBiasDequant { mode, group_size, signed_codes, .. } => kind is Integer
                && prologue is ScaleBiasDequant && bits == Some(mode.bits()) && size == Some(group_size)
                && signed == signed_codes,
            MatmulB::ScaleZeroPointDequant { mode, group_size, signed_codes, .. } => kind is Integer
                && prologue is ScaleZeroPointDequant && bits == Some(mode.bits()) && size == Some(
                group_size,
            ) && signed == signed_codes,
            MatmulB::ScaleSymmetricDequant { mode, group_size, signed_codes, .. } => kind is Integer
                && prologue is ScaleSymmetricDequant && bits == Some(mode.bits()) && size == Some(
                group_size,
            ) && signed == signed_codes,
        },
{
}

/// Rows are chosen, routed or neither.
pub proof fn law_routings_are_told_apart(
    routing: MatmulRouting,
    rows: Option<usize>,
    routes: Option<ExpertRoutes>,
)
    requires
        call_ensures(MatmulRouting::sparse_readout_rows, (routing,), rows),
        call_ensures(MatmulRouting::expert_routes, (routing,), routes),
    ensures
        rows is Some <==> routing is SparseReadout,
        routes is Some <==> routing is Experts,
        routing matches MatmulRouting::Experts(given) ==> routes == Some(given),
        !(rows is Some && routes is Some),
{
}

/// Kernels of the matrix unit step over integer codes group by group, and over everything else block by block.
pub proof fn law_kernels_step_over_groups(
    shape: MatmulShape,
    engine: GemmEngine,
    tiling: GemmTiling,
    depth: Option<u32>,
)
    requires
        call_ensures(selection::outer_block_k, (shape, engine, tiling), depth),
    ensures
        engine == GemmEngine::Simdgroup ==> depth == Some(tiling.block_k()),
        shape.b_kind is Dense ==> depth == Some(tiling.block_k()),
        engine == GemmEngine::Mxu && shape.b_kind is Integer ==> match shape.b_group_size {
            Some(0u32) => depth is None,
            Some(size) => depth == Some(size),
            None => depth is None,
        },
{
}

/// A specialization is refused for what no kernel can do.
pub proof fn law_specializations_are_refused_for_a_reason(
    specialization: GemmSpecialization,
    result: Result<(), crate::backends::metal::matmul::gemm::plan::GemmSpecializationError>,
)
    requires
        call_ensures(GemmSpecialization::validate, (&specialization,), result),
    ensures
        result is Ok <==> {
            &&& specialization.a_prologue is FullPrecision ==> specialization.a_group_size is None
            &&& specialization.a_prologue is Int8Symmetric ==> (specialization.a_group_size
                matches Some(size) && (size == 32 || size == 64 || size == 128))
            &&& specialization.use_mxu == specialization.tiling.is_mxu_variant()
            &&& specialization.b_group_size matches Some(size) ==> (specialization.use_mxu
                && specialization.b_prologue !is FullPrecision
                ==> specialization.tiling.fits_quant_group_size(size))
            &&& specialization.b_group_size matches Some(size) ==> (!specialization.use_mxu
                ==> specialization.tiling.simdgroup_block_k() <= size)
            &&& specialization.bits_per_b is Some ==> specialization.transpose_b
        },
{
}

} // verus!
