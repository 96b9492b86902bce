//! Which plan a GEMM gets: eligibility, fallbacks and legality.
use vstd::prelude::*;

use crate::arithmetic;
use crate::arithmetic::{div_ceil_u32, max_u32, min_u32, saturating_mul};
use crate::backends::common::gpu_types::gemm::{
    GemmAPrologueKind, GemmAlignment, GemmBPrologueKind, GemmTiling,
};
use crate::backends::common::gpu_types::quantization::ACTIVATION_SCALE_GROUP_SIZE;
use crate::backends::common::matmul::arguments::MatmulBKind;
use crate::backends::common::matmul::routing::MatmulShape;
use crate::backends::metal::device_profile::DeviceProfile;
use crate::backends::metal::matmul::gemm::plan::{GemmEngine, GemmPlan, GemmPlanError};
use crate::backends::metal::matmul::gemm::policy;
use crate::backends::metal::matmul::gemm::specialization::GemmSpecialization;
use crate::data_type::DataType;

verus! {

/// A multiplication for which a plan is sought.
#[derive(Clone, Copy, Debug, PartialEq, Eq)]
pub struct GemmProblem {
    pub shape: MatmulShape,
    pub weights_data_type: DataType,
    pub output_data_type: DataType,
    pub supports_mxu: bool,
    pub profile: DeviceProfile,
}

/// The group size of the weights, or zero where they are not packed.
pub open spec fn group_size_or_zero(shape: MatmulShape) -> u32 {
    match shape.b_group_size {
        Some(group_size) => group_size,
        None => 0,
    }
}

fn group_size_of(shape: MatmulShape) -> (size: u32)
    ensures
        size == group_size_or_zero(shape),
{
    match shape.b_group_size {
        Some(group_size) => group_size,
        None => 0,
    }
}

pub open spec fn spec_select_mxu_quant_tiling(shape: MatmulShape) -> GemmTiling {
    let tiling = policy::mxu_mn_tile(!shape.a_full_precision, shape.m, shape.n);
    if tiling.fits_quant_group_size(group_size_or_zero(shape)) {
        tiling
    } else {
        policy::MXU_DEFAULT_TILE
    }
}

fn select_mxu_quant_tiling(shape: MatmulShape) -> (tiling: GemmTiling)
    ensures
        tiling == spec_select_mxu_quant_tiling(shape),
{
    let tiling: GemmTiling = policy::mxu_mn_tile(!shape.a_full_precision, shape.m, shape.n);
    if tiling.fits_quant_group_size(group_size_of(shape)) {
        tiling
    } else {
        policy::MXU_DEFAULT_TILE
    }
}

/// The matrix unit can run the multiplication.
pub open spec fn spec_mxu_is_eligible(shape: MatmulShape) -> bool {
    &&& !shape.expert_routed
    &&& shape.b_kind !is Mxfp4
    &&& {
        ||| !shape.a_full_precision
        ||| shape.b_prologue is FullPrecision
        ||| shape.b_transpose && shape.b_leading_dimension is None && shape.k
            % spec_select_mxu_quant_tiling(shape).block_k() == 0
    }
}

fn mxu_is_eligible(shape: MatmulShape) -> (eligible: bool)
    ensures
        eligible == spec_mxu_is_eligible(shape),
{
    if shape.expert_routed || shape.b_kind == MatmulBKind::Mxfp4 {
        return false;
    }
    if !shape.a_full_precision || shape.b_prologue == GemmBPrologueKind::FullPrecision {
        return true;
    }
    shape.b_transpose && shape.b_leading_dimension.is_none() && shape.k % select_mxu_quant_tiling(
        shape,
    ).block_k() == 0
}

pub open spec fn spec_select_tiling(
    shape: MatmulShape,
    engine: GemmEngine,
    profile: DeviceProfile,
) -> GemmTiling {
    match engine {
        GemmEngine::Simdgroup => if shape.b_kind !is Dense {
            policy::simdgroup_quant_tile(shape.m, shape.n, group_size_or_zero(shape), profile)
        } else {
            policy::simdgroup_fp_tile(shape.m, shape.n, shape.k)
        },
        GemmEngine::Mxu => if !shape.a_full_precision || shape.b_kind !is Dense {
            spec_select_mxu_quant_tiling(shape)
        } else if shape.b_transpose {
            policy::mxu_fp_tile(shape.m, shape.n, shape.k)
        } else {
            policy::mxu_mn_tile(false, shape.m, shape.n)
        },
    }
}

fn select_tiling(shape: MatmulShape, engine: GemmEngine, profile: DeviceProfile) -> (tiling:
    GemmTiling)
    ensures
        tiling == spec_select_tiling(shape, engine, profile),
{
    match engine {
        GemmEngine::Simdgroup => if shape.b_kind != MatmulBKind::Dense {
            policy::simdgroup_quant_tile(shape.m, shape.n, group_size_of(shape), profile)
        } else {
            policy::simdgroup_fp_tile(shape.m, shape.n, shape.k)
        },
        GemmEngine::Mxu => if !shape.a_full_precision || shape.b_kind != MatmulBKind::Dense {
            select_mxu_quant_tiling(shape)
        } else if shape.b_transpose {
            policy::mxu_fp_tile(shape.m, shape.n, shape.k)
        } else {
            policy::mxu_mn_tile(false, shape.m, shape.n)
        },
    }
}

pub open spec fn spec_outer_block_k(
    shape: MatmulShape,
    engine: GemmEngine,
    tiling: GemmTiling,
) -> Option<u32> {
    if engine is Mxu && shape.is_integer_quantized() {
        if group_size_or_zero(shape) != 0 {
            shape.b_group_size
        } else {
            None
        }
    } else {
        Some(tiling.block_k())
    }
}

/// The depth that a kernel steps over at a time, where it has one.
pub fn outer_block_k(shape: MatmulShape, engine: GemmEngine, tiling: GemmTiling) -> (depth: Option<
    u32,
>)
    ensures
        depth == spec_outer_block_k(shape, engine, tiling),
{
    if engine == GemmEngine::Mxu && shape.is_integer_quantized() {
        match shape.b_group_size {
            Some(group_size) => if group_size != 0 {
                Some(group_size)
            } else {
                None
            },
            None => None,
        }
    } else {
        Some(tiling.block_k())
    }
}

/// The greatest number of at most `limit` parts of equal depth, each a multiple of `align`.
pub open spec fn largest_split(k: u32, align: u32, limit: u32) -> u32
    decreases limit,
{
    if limit <= 1 {
        1
    } else if k as int % (limit * align) == 0 {
        limit
    } else {
        largest_split(k, align, (limit - 1) as u32)
    }
}

impl GemmProblem {
    /// A problem.
    pub fn new(
        shape: MatmulShape,
        weights_data_type: DataType,
        output_data_type: DataType,
        supports_mxu: bool,
        profile: DeviceProfile,
    ) -> (problem: GemmProblem)
        ensures
            problem == (GemmProblem {
                shape,
                weights_data_type,
                output_data_type,
                supports_mxu,
                profile,
            }),
    {
        GemmProblem { shape, weights_data_type, output_data_type, supports_mxu, profile }
    }

    /// A bias can be added to parts of the product: it is not added here, or the parts are summed
    /// four columns at a time in the type of the weights.
    pub open spec fn spec_split_k_output_supported(self) -> bool {
        let transform = self.shape.d_transform;
        let bias_remains = transform.bias && !(self.shape.is_integer_quantized() && transform.rht);
        !bias_remains || (self.shape.n % 4 == 0 && self.weights_data_type
            == self.output_data_type)
    }

    fn split_k_output_supported(&self) -> (supported: bool)
        ensures
            supported == self.spec_split_k_output_supported(),
    {
        let mut output_transform = self.shape.d_transform;
        if self.shape.is_integer_quantized() && output_transform.rht && output_transform.bias {
            output_transform.bias = false;
        }
        !output_transform.bias || (self.shape.n % 4 == 0 && self.weights_data_type
            == self.output_data_type)
    }

    /// The number of blocks of the undivided product.
    pub open spec fn base_tiles(self, tiling: GemmTiling) -> u32 {
        arithmetic::saturating_product(
            ((self.shape.n + tiling.block_n() - 1) / tiling.block_n() as int) as u32,
            ((self.shape.m + tiling.block_m() - 1) / tiling.block_m() as int) as u32,
        )
    }

    /// The depth of which every part is a multiple, where kernels step over the depth by `step`.
    pub open spec fn split_align(self, engine: GemmEngine, step: u32) -> u32 {
        let shape = self.shape;
        let group_size = group_size_or_zero(shape);
        let packed = if shape.b_prologue is ScaleZeroPointDequant && shape.b_bits == Some(4u32) {
            arithmetic::saturating_product(2, group_size)
        } else {
            0
        };
        max_u32(max_u32(max_u32(step, group_size), packed), ACTIVATION_SCALE_GROUP_SIZE)
    }

    /// The greatest number of parts that the policy and the depth allow.
    pub open spec fn split_limit(self, engine: GemmEngine, tiling: GemmTiling, align: u32) -> u32 {
        let shape = self.shape;
        let target = policy::split_k_target_tiles(!shape.a_full_precision, tiling, shape.b_bits);
        let wanted = max_u32(target / self.base_tiles(tiling), 1);
        let aligned = min_u32(wanted, max_u32(shape.k / align, 1));
        if !shape.a_full_precision && engine is Mxu {
            min_u32(aligned, max_u32(shape.k / tiling.block_k(), 1))
        } else {
            aligned
        }
    }

    /// The depth can be divided at all.
    pub open spec fn is_splittable(self, tiling: GemmTiling) -> bool {
        let shape = self.shape;
        &&& !shape.expert_routed
        &&& shape.b_kind !is Mxfp4
        &&& shape.is_integer_quantized() || (shape.b_transpose && shape.b_leading_dimension is None)
        &&& self.spec_split_k_output_supported()
        &&& self.base_tiles(tiling) != 0
        &&& (shape.m * shape.n) % 4 == 0
    }

    pub open spec fn spec_select_split_k(self, engine: GemmEngine, tiling: GemmTiling) -> u32 {
        match spec_outer_block_k(self.shape, engine, tiling) {
            Some(step) => if self.is_splittable(tiling) {
                let align = self.split_align(engine, step);
                largest_split(self.shape.k, align, self.split_limit(engine, tiling, align))
            } else {
                1
            },
            None => 1,
        }
    }

    fn select_split_k(&self, engine: GemmEngine, tiling: GemmTiling) -> (split_k: u32)
        ensures
            split_k == self.spec_select_split_k(engine, tiling),
    {
        let shape: MatmulShape = self.shape;
        if shape.expert_routed || shape.b_kind == MatmulBKind::Mxfp4 {
            return 1;
        }
        let splittable: bool = shape.is_integer_quantized() || (shape.b_transpose
            && shape.b_leading_dimension.is_none());
        if !splittable || !self.split_k_output_supported() {
            return 1;
        }
        let base_tiles: u32 = saturating_mul(
            div_ceil_u32(shape.n, tiling.block_n()),
            div_ceil_u32(shape.m, tiling.block_m()),
        );
        proof {
            assert(shape.m * shape.n <= u64::MAX) by (nonlinear_arith)
                requires
                    shape.m <= u32::MAX,
                    shape.n <= u32::MAX,
            ;
            assert(shape.m * shape.n >= 0) by (nonlinear_arith)
                requires
                    shape.m >= 0,
                    shape.n >= 0,
            ;
        }
        if base_tiles == 0 || (shape.m as u64 * shape.n as u64) % 4 != 0 {
            return 1;
        }
        let step: u32 = match outer_block_k(shape, engine, tiling) {
            Some(step) => step,
            None => {
                return 1;
            },
        };
        let group_size: u32 = group_size_of(shape);
        let mut align: u32 = if engine == GemmEngine::Mxu || !shape.is_integer_quantized() {
            step
        } else {
            max_u32(step, group_size)
        };
        let four_bits: bool = match shape.b_bits {
            Some(4) => true,
            _ => false,
        };
        if shape.b_prologue == GemmBPrologueKind::ScaleZeroPointDequant && four_bits {
            align = max_u32(align, saturating_mul(2, group_size));
        }
        let align: u32 = max_u32(max_u32(align, ACTIVATION_SCALE_GROUP_SIZE), group_size);
        assert(align == self.split_align(engine, step));
        let target_tiles: u32 = policy::split_k_target_tiles(
            !shape.a_full_precision,
            tiling,
            shape.b_bits,
        );
        let mut split_k: u32 = min_u32(
            max_u32(target_tiles / base_tiles, 1),
            max_u32(shape.k / align, 1),
        );
        if !shape.a_full_precision && engine == GemmEngine::Mxu {
            split_k = min_u32(split_k, max_u32(shape.k / tiling.block_k(), 1));
        }
        assert(split_k == self.split_limit(engine, tiling, align));
        let ghost limit = split_k;
        while split_k > 1
            invariant_except_break
                1 <= split_k,
                align > 0,
                split_k > 1 ==> split_k <= shape.k / align,
                largest_split(shape.k, align, split_k) == largest_split(shape.k, align, limit),
            ensures
                split_k == largest_split(shape.k, align, limit),
            decreases split_k,
        {
            proof {
                assert(split_k * align <= shape.k) by (nonlinear_arith)
                    requires
                        split_k <= shape.k / align,
                        align > 0,
                ;
                assert(split_k * align > 0) by (nonlinear_arith)
                    requires
                        split_k > 0,
                        align > 0,
                ;
            }
            if shape.k % (split_k * align) == 0 {
                break;
            }
            split_k -= 1;
        }
        split_k
    }

    /// The plan with the tiling and the split that suit the engine.
    pub open spec fn plan_for(self, engine: GemmEngine) -> GemmPlan {
        let tiling = spec_select_tiling(self.shape, engine, self.profile);
        GemmPlan { engine, tiling, split_k: self.spec_select_split_k(engine, tiling) }
    }

    fn finish_plan(&self, engine: GemmEngine, tiling: GemmTiling) -> (plan: GemmPlan)
        ensures
            plan == (GemmPlan {
                engine,
                tiling,
                split_k: self.spec_select_split_k(engine, tiling),
            }),
    {
        GemmPlan { engine, tiling, split_k: self.select_split_k(engine, tiling) }
    }

    /// The engine that runs the problem: the matrix unit wherever it can.
    pub open spec fn preferred_engine(self) -> GemmEngine {
        if self.supports_mxu && spec_mxu_is_eligible(self.shape) {
            GemmEngine::Mxu
        } else {
            GemmEngine::Simdgroup
        }
    }

    pub open spec fn spec_select_plan(self) -> GemmPlan {
        self.plan_for(self.preferred_engine())
    }

    /// The plan that runs the problem.
    #[verifier::when_used_as_spec(spec_select_plan)]
    pub fn select_plan(self) -> (plan: GemmPlan)
        ensures
            plan == self.select_plan(),
    {
        let engine: GemmEngine = if self.supports_mxu && mxu_is_eligible(self.shape) {
            GemmEngine::Mxu
        } else {
            GemmEngine::Simdgroup
        };
        self.finish_plan(engine, select_tiling(self.shape, engine, self.profile))
    }

    /// The plan that runs the problem on a given engine.
    pub fn select_plan_for_engine(self, engine: GemmEngine) -> (result: Result<
        GemmPlan,
        GemmPlanError,
    >)
        ensures
            result == match self.engine_fault(engine) {
                Some(error) => Err::<GemmPlan, GemmPlanError>(error),
                None => Ok(self.plan_for(engine)),
            },
    {
        match self.validate_engine(engine) {
            Ok(()) => Ok(self.finish_plan(engine, select_tiling(self.shape, engine, self.profile))),
            Err(error) => Err(error),
        }
    }

    /// The weights are stored row by row without gaps, a row for each column of the product.
    pub open spec fn has_contiguous_transposed_b(self) -> bool {
        self.shape.b_transpose && self.shape.b_leading_dimension is None
    }

    /// Why the engine cannot run the problem.
    pub open spec fn engine_fault(self, engine: GemmEngine) -> Option<GemmPlanError> {
        if engine is Mxu && !self.supports_mxu {
            Some(GemmPlanError::MxuUnavailable)
        } else if self.shape.expert_routed && (engine is Mxu || !self.shape.a_full_precision
            || !self.has_contiguous_transposed_b()) {
            Some(GemmPlanError::UnsupportedExpertRouting)
        } else if self.shape.b_kind is Mxfp4 && !self.shape.a_full_precision {
            Some(GemmPlanError::UnsupportedMicrofloatActivation)
        } else if self.shape.b_kind is Mxfp4 && engine is Mxu {
            Some(GemmPlanError::UnsupportedMicrofloatEngine)
        } else if self.shape.b_kind !is Dense && !self.has_contiguous_transposed_b() {
            Some(GemmPlanError::UnsupportedPackedLayout)
        } else {
            None
        }
    }

    /// Checks that the engine can run the problem.
    pub fn validate_engine(&self, engine: GemmEngine) -> (result: Result<(), GemmPlanError>)
        ensures
            result == match self.engine_fault(engine) {
                Some(error) => Err::<(), GemmPlanError>(error),
                None => Ok(()),
            },
    {
        let mxu: bool = engine == GemmEngine::Mxu;
        let loose: bool = !self.shape.b_transpose || self.shape.b_leading_dimension.is_some();
        if mxu && !self.supports_mxu {
            return Err(GemmPlanError::MxuUnavailable);
        }
        if self.shape.expert_routed && (mxu || !self.shape.a_full_precision || loose) {
            return Err(GemmPlanError::UnsupportedExpertRouting);
        }
        if self.shape.b_kind == MatmulBKind::Mxfp4 && !self.shape.a_full_precision {
            return Err(GemmPlanError::UnsupportedMicrofloatActivation);
        }
        if self.shape.b_kind == MatmulBKind::Mxfp4 && mxu {
            return Err(GemmPlanError::UnsupportedMicrofloatEngine);
        }
        if self.shape.b_kind != MatmulBKind::Dense && loose {
            return Err(GemmPlanError::UnsupportedPackedLayout);
        }
        Ok(())
    }

    /// The extents that are whole numbers of blocks.
    pub open spec fn alignment(self, tiling: GemmTiling) -> GemmAlignment {
        GemmAlignment {
            m: !self.shape.expert_routed && self.shape.m % tiling.block_m() == 0,
            n: self.shape.n % tiling.block_n() == 0,
            k: self.shape.k % tiling.block_k() == 0,
        }
    }

    /// The engine can run the plan, its split divides the depth, and a kernel exists for it.
    pub open spec fn spec_plan_is_legal(self, plan: GemmPlan) -> bool {
        &&& self.engine_fault(plan.engine) is None
        &&& plan.engine is Mxu <==> plan.tiling.is_mxu_variant()
        &&& plan.split_k != 0
        &&& self.shape.k % plan.split_k == 0
        &&& GemmSpecialization::of_plan(
            plan,
            self.shape,
            self.weights_data_type,
            self.shape.d_transform,
            self.alignment(plan.tiling),
            GemmAPrologueKind::FullPrecision,
            None,
        ).fault() is None
    }

    /// Whether the plan can run the problem.
    pub fn plan_is_legal(self, plan: GemmPlan) -> (legal: bool)
        requires
            GemmSpecialization::uses_tuned_addressing(plan, self.shape) && plan.counts_groups(
                self.shape,
            ) ==> self.shape.b_group_size != Some(0u32),
        ensures
            legal == self.spec_plan_is_legal(plan),
    {
        let mxu: bool = plan.engine == GemmEngine::Mxu;
        if self.validate_engine(plan.engine).is_err() || mxu != plan.tiling.is_mxu_variant()
            || plan.split_k == 0 || self.shape.k % plan.split_k != 0 {
            return false;
        }
        let alignment: GemmAlignment = GemmAlignment::new(
            !self.shape.expert_routed && self.shape.m % plan.tiling.block_m() == 0,
            self.shape.n % plan.tiling.block_n() == 0,
            self.shape.k % plan.tiling.block_k() == 0,
        );
        GemmSpecialization::from_plan(
            plan,
            self.shape,
            self.weights_data_type,
            self.shape.d_transform,
            alignment,
            GemmAPrologueKind::FullPrecision,
            None,
        ).is_ok()
    }
}

/// The fields of the shape that describe the weights agree with each other, and groups are at least
/// sixteen codes long.
pub open spec fn weights_are_consistent(shape: MatmulShape) -> bool {
    match shape.b_kind {
        MatmulBKind::Dense => shape.b_prologue is FullPrecision && shape.b_bits is None
            && shape.b_group_size is None,
        MatmulBKind::Integer => shape.b_prologue !is FullPrecision && shape.b_bits is Some && (
        shape.b_group_size matches Some(group_size) && group_size >= 16),
        MatmulBKind::Mxfp4 => shape.b_bits is Some && (shape.b_group_size matches Some(group_size)
            && group_size >= 16),
    }
}

proof fn lemma_largest_split(k: u32, align: u32, limit: u32)
    requires
        align > 0,
    ensures
        1 <= largest_split(k, align, limit),
        limit >= 1 ==> largest_split(k, align, limit) <= limit,
        k % largest_split(k, align, limit) == 0,
        largest_split(k, align, limit) == 1 || k as int % (largest_split(k, align, limit) * align)
            == 0,
    decreases limit,
{
    if limit > 1 {
        if k as int % (limit * align) == 0 {
            let step = limit * align;
            assert(step > 0) by (nonlinear_arith)
                requires
                    limit > 0,
                    align > 0,
                    step == limit * align,
            ;
            vstd::arithmetic::div_mod::lemma_fundamental_div_mod(k as int, step);
            let parts = k as int / step;
            assert(k as int == limit * (align * parts)) by (nonlinear_arith)
                requires
                    k as int == step * parts,
                    step == limit * align,
            ;
            vstd::arithmetic::div_mod::lemma_mod_multiples_basic(align * parts, limit as int);
            assert((align * parts) * limit == limit * (align * parts)) by (nonlinear_arith);
        } else {
            lemma_largest_split(k, align, (limit - 1) as u32);
        }
    } else {
        assert(k % 1 == 0);
    }
}

/// The depth is divided into parts of equal length: at least one, and each of a length of which the
/// quantization groups and the steps of the kernel are divisors where there are several.
pub proof fn law_split_divides_the_depth(problem: GemmProblem, engine: GemmEngine, tiling: GemmTiling)
    ensures
        problem.spec_select_split_k(engine, tiling) >= 1,
        problem.shape.k % problem.spec_select_split_k(engine, tiling) == 0,
        problem.spec_select_split_k(engine, tiling) > 1 ==> (spec_outer_block_k(
            problem.shape,
            engine,
            tiling,
        ) matches Some(step) && problem.shape.k as int % (problem.spec_select_split_k(
            engine,
            tiling,
        ) * problem.split_align(engine, step)) == 0),
{
    assert(problem.shape.k % 1 == 0);
    if let Some(step) = spec_outer_block_k(problem.shape, engine, tiling) {
        let align = problem.split_align(engine, step);
        lemma_largest_split(problem.shape.k, align, problem.split_limit(engine, tiling, align));
    }
}

/// Every selected plan uses tiles of its own engine and divides the depth evenly, and where the
/// layout of the operands suits the engine, a kernel exists for it.
pub proof fn law_selected_plan_is_legal(problem: GemmProblem)
    ensures
        problem.select_plan().engine is Mxu <==> problem.select_plan().tiling.is_mxu_variant(),
        problem.select_plan().split_k >= 1,
        problem.shape.k % problem.select_plan().split_k == 0,
        weights_are_consistent(problem.shape) && problem.engine_fault(
            problem.preferred_engine(),
        ) is None ==> problem.spec_plan_is_legal(problem.select_plan()),
{
    let plan = problem.select_plan();
    law_split_divides_the_depth(problem, plan.engine, plan.tiling);
}

} // verus!
