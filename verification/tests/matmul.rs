//! Multiplications: what is accepted, and how it is dispatched.
use uzu_engine::backends::common::gpu_types::gemm::{
    GemmAPrologueKind, GemmAlignment, GemmBPrologueKind, GemmDTransform, GemmDTransformBit,
    GemmTiling, gemm_tiling_simdgroups_per_column, gemm_tiling_simdgroups_per_row,
};
use uzu_engine::backends::common::gpu_types::quantization::QuantizationMode;
use uzu_engine::backends::common::matmul::arguments::{
    MatmulA, MatmulArguments, MatmulB, MatmulBKind, MatmulDOps,
};
use uzu_engine::backends::common::matmul::error::{
    IncompatibleReason, MatmulError, MatmulPath, RoutingFault, StorageFault,
};
use uzu_engine::backends::common::matmul::routing::{
    A8ActivationPlan, ActivationFormat, ExpertInput, ExpertRoutes, MatmulRouting, MatmulShape,
};
use uzu_engine::backends::common::matmul::validation::validate_matmul_arguments;
use uzu_engine::backends::common::microfloat::{
    MicrofloatEncoding, MicrofloatFormat, MicrofloatMetadata,
};
use uzu_engine::backends::metal::device_profile::{
    DeviceIdentity, DeviceProfile, DeviceSize, GpuFamily,
};
use uzu_engine::backends::metal::matmul::dispatch::{
    DispatchContext, MatmulDispatch, MatmulMetalKernel,
};
use uzu_engine::backends::metal::matmul::gemm::microfloat::MicrofloatGemmDispatch;
use uzu_engine::backends::metal::matmul::gemm::plan::{
    GemmEngine, GemmPlan, GemmPlanError, GemmSpecializationError,
};
use uzu_engine::backends::metal::matmul::gemm::policy::{
    mxu_fp_tile, mxu_mn_tile, routed_tile, simdgroup_fp_tile, simdgroup_quant_tile,
    split_k_target_tiles,
};
use uzu_engine::backends::metal::matmul::gemm::route_plan::prepare;
use uzu_engine::backends::metal::matmul::gemm::selection::{GemmProblem, outer_block_k};
use uzu_engine::backends::metal::matmul::gemm::specialization::{
    GemmSpecialization, RoutedGemmSpecialization,
};
use uzu_engine::backends::metal::matmul::gemv::kernel::{GemvKernel, GemvWeights};
use uzu_engine::backends::metal::matmul::gemv::specialization::GemvSpecialization;
use uzu_engine::backends::metal::matmul::gemv::tile::{GemvCandidates, GemvPolicy, GemvTile};
use uzu_engine::data_type::DataType;

const BF16: DataType = DataType::BF16;

fn none() -> GemmDTransform {
    GemmDTransform::empty()
}

fn d_ops(transform: GemmDTransform, per_matrix_bias: Option<usize>) -> MatmulDOps {
    MatmulDOps {
        transform,
        gate_act: transform.gate_act_mul,
        output_bias: transform.bias.then_some(16),
        per_matrix_bias,
        rht_factors: transform.rht.then_some(32),
    }
}

/// Four rows of 64 elements against eight columns, in two bytes each.
fn dense() -> MatmulArguments {
    MatmulArguments {
        a: MatmulA::FullPrecision { values: 512, offset: 0 },
        b: MatmulB::FullPrecision { b: 1024 },
        b_leading_dimension: None,
        b_transpose: true,
        d: 64,
        d_transform: d_ops(none(), None),
        routing: MatmulRouting::Dense,
        m: 4,
        n: 8,
        k: 64,
    }
}

fn routes(input: ExpertInput) -> ExpertRoutes {
    ExpertRoutes { expert_ids: 16, routes_per_token: 2, expert_count: 3, input }
}

fn routed() -> MatmulArguments {
    MatmulArguments {
        b: MatmulB::FullPrecision { b: 3072 },
        routing: MatmulRouting::Experts(routes(ExpertInput::Routes)),
        ..dense()
    }
}

fn check(arguments: &MatmulArguments) -> Result<(), MatmulError> {
    validate_matmul_arguments(arguments, BF16, BF16, BF16, MatmulPath::Gemm)
}

fn routing_fault(routing: RoutingFault) -> Result<(), MatmulError> {
    Err(MatmulError::UnsupportedRouting { path: MatmulPath::Gemm, routing })
}

fn storage_fault(storage: StorageFault) -> Result<(), MatmulError> {
    Err(MatmulError::InvalidStorage { path: MatmulPath::Gemm, storage })
}

#[test]
fn operands_must_hold_all_elements() {
    assert_eq!(check(&dense()), Ok(()));
    let input = |values, offset| MatmulArguments {
        a: MatmulA::FullPrecision { values, offset },
        ..dense()
    };
    assert_eq!(check(&input(511, 0)), storage_fault(StorageFault::ShortInput));
    assert_eq!(check(&input(513, 2)), storage_fault(StorageFault::ShortInput));
    assert_eq!(check(&input(514, 2)), Ok(()));
    assert_eq!(check(&input(514, 1)), storage_fault(StorageFault::MisalignedInput));
    let output = MatmulArguments { d: 63, ..dense() };
    assert_eq!(check(&output), storage_fault(StorageFault::ShortOutput));
    let gated = GemmDTransform { gate_act_mul: true, ..none() };
    let halved = MatmulArguments {
        d: 32,
        d_transform: d_ops(gated, None),
        ..dense()
    };
    assert_eq!(check(&halved), Ok(()));
}

#[test]
fn each_expert_routing_has_its_error() {
    assert_eq!(check(&routed()), Ok(()));
    let with = d_ops;
    let biased = MatmulArguments { d_transform: with(none(), Some(64)), ..dense() };
    assert_eq!(check(&biased), routing_fault(RoutingFault::BiasWithoutRoutes));
    let rht = GemmDTransform { rht: true, ..none() };
    let rotated = MatmulArguments { d_transform: with(rht, None), ..routed() };
    assert_eq!(check(&rotated), routing_fault(RoutingFault::OutputRht));
    let factors = MatmulDOps { transform: none(), ..with(rht, None) };
    let rotated = MatmulArguments { d_transform: factors, ..routed() };
    assert_eq!(check(&rotated), routing_fault(RoutingFault::OutputRht));
    let no_factors = MatmulDOps { rht_factors: None, ..with(rht, None) };
    let unrotated = MatmulArguments { d_transform: no_factors, ..routed() };
    assert_eq!(check(&unrotated), Ok(()));
    let ids = ExpertRoutes { expert_ids: 15, ..routes(ExpertInput::Routes) };
    let short_ids = MatmulArguments { routing: MatmulRouting::Experts(ids), ..routed() };
    assert_eq!(check(&short_ids), routing_fault(RoutingFault::ShortExpertIds));
    let uneven = ExpertRoutes {
        expert_ids: 16,
        routes_per_token: 3,
        expert_count: 3,
        input: ExpertInput::Tokens,
    };
    let uneven = MatmulArguments { routing: MatmulRouting::Experts(uneven), ..routed() };
    assert_eq!(check(&uneven), routing_fault(RoutingFault::UnevenRoutes));
    let short_bias = MatmulArguments { d_transform: with(none(), Some(47)), ..routed() };
    assert_eq!(check(&short_bias), routing_fault(RoutingFault::ShortBiasBank));
    let bias = MatmulArguments { d_transform: with(none(), Some(48)), ..routed() };
    assert_eq!(check(&bias), Ok(()));
    let short_bank = MatmulArguments { b: MatmulB::FullPrecision { b: 3071 }, ..routed() };
    assert_eq!(check(&short_bank), routing_fault(RoutingFault::ShortFullPrecisionBank));
    // A token is read once for both of its routes.
    let tokens = MatmulArguments {
        a: MatmulA::FullPrecision { values: 256, offset: 0 },
        routing: MatmulRouting::Experts(routes(ExpertInput::Tokens)),
        ..routed()
    };
    assert_eq!(check(&tokens), Ok(()));
}

fn zero_points(b: usize, scales: usize, zero_points: usize, group_size: u32) -> MatmulB {
    MatmulB::ScaleZeroPointDequant {
        b,
        scales,
        zero_points,
        mode: QuantizationMode::U4,
        group_size,
        signed_codes: false,
    }
}

#[test]
fn integer_banks_must_hold_all_experts() {
    let bank = |b| MatmulArguments { b, ..routed() };
    // 3 banks of 8 rows: 32 bytes of codes, 2 groups, 1 byte of zero points.
    assert_eq!(check(&bank(zero_points(768, 96, 24, 32))), Ok(()));
    let short = || routing_fault(RoutingFault::ShortIntegerBank);
    assert_eq!(check(&bank(zero_points(767, 96, 24, 32))), short());
    assert_eq!(check(&bank(zero_points(768, 95, 24, 32))), short());
    assert_eq!(check(&bank(zero_points(768, 96, 23, 32))), short());
    assert_eq!(
        check(&bank(zero_points(768, 96, 24, 0))),
        routing_fault(RoutingFault::InvalidIntegerGroups)
    );
    let biases = |biases| MatmulB::ScaleBiasDequant {
        b: 1536,
        scales: 96,
        biases,
        mode: QuantizationMode::U8,
        group_size: 32,
        signed_codes: false,
    };
    assert_eq!(check(&bank(biases(96))), Ok(()));
    assert_eq!(check(&bank(biases(95))), short());
}

fn metadata(matrices: u32) -> MicrofloatMetadata {
    let encoding = MicrofloatEncoding::new(MicrofloatFormat::Mxfp4, 4, 32).unwrap();
    MicrofloatMetadata::bank(encoding, matrices, 8, 64).unwrap()
}

fn microfloat(matrices: u32, codes: usize) -> MatmulB {
    let metadata = metadata(matrices);
    MatmulB::Microfloat {
        codes,
        scales: metadata.required_scale_bytes(),
        outer_scales: 2 * matrices as usize,
        metadata,
    }
}

#[test]
fn microfloat_operands_must_match_their_matrix() {
    let with = |b| MatmulArguments { b, ..dense() };
    assert_eq!(metadata(1).required_code_bytes(), 256);
    assert_eq!(metadata(1).required_scale_bytes(), 16);
    assert_eq!(check(&with(microfloat(1, 256))), Ok(()));
    let mismatch = || routing_fault(RoutingFault::MicrofloatMismatch);
    assert_eq!(check(&with(microfloat(1, 255))), mismatch());
    let columns = MatmulArguments { b_transpose: false, ..with(microfloat(1, 256)) };
    assert_eq!(check(&columns), mismatch());
    let rows = MatmulArguments { n: 4, ..with(microfloat(1, 256)) };
    assert_eq!(check(&rows), mismatch());
    let few = MatmulArguments { b: microfloat(2, 512), ..routed() };
    assert_eq!(check(&few), mismatch());
    let enough = MatmulArguments { b: microfloat(3, 768), ..routed() };
    assert_eq!(check(&enough), Ok(()));
}

#[test]
fn a_shape_is_read_from_its_operands() {
    let shape = MatmulShape::from_arguments(&MatmulArguments {
        b: zero_points(768, 96, 24, 32),
        d_transform: d_ops(none(), Some(48)),
        ..routed()
    });
    assert_eq!((shape.m, shape.n, shape.k), (4, 8, 64));
    assert_eq!(shape.b_kind, MatmulBKind::Integer);
    assert_eq!(shape.b_prologue, GemmBPrologueKind::ScaleZeroPointDequant);
    assert_eq!((shape.b_bits, shape.b_group_size), (Some(4), Some(32)));
    assert!(shape.expert_routed && shape.expert_bias && shape.a_full_precision);
    assert!(shape.is_integer_quantized());
    let dense = MatmulShape::from_arguments(&dense());
    assert_eq!((dense.b_kind, dense.b_bits), (MatmulBKind::Dense, None));
    assert!(!dense.is_integer_quantized() && !dense.expert_routed);
}

fn shape(m: u32, n: u32, k: u32) -> MatmulShape {
    MatmulShape { m, n, k, ..MatmulShape::from_arguments(&dense()) }
}

fn quantized(m: u32, n: u32, k: u32, bits: u32, group: u32) -> MatmulShape {
    MatmulShape {
        b_kind: MatmulBKind::Integer,
        b_prologue: GemmBPrologueKind::ScaleSymmetricDequant,
        b_bits: Some(bits),
        b_group_size: Some(group),
        signed_codes: true,
        ..shape(m, n, k)
    }
}

fn profile(identity: DeviceIdentity) -> DeviceProfile {
    DeviceProfile::new(identity, DeviceSize::Small, false)
}

#[test]
fn tiles_follow_the_shape() {
    assert_eq!(mxu_mn_tile(false, 1, 63), GemmTiling::Tile64x32x256_Simdgroups4x1);
    assert_eq!(mxu_mn_tile(false, 63, 64), GemmTiling::Tile32x64x256_Simdgroups2x2);
    assert_eq!(mxu_mn_tile(false, 64, 128), GemmTiling::Tile64x64x256_Simdgroups2x2);
    assert_eq!(mxu_mn_tile(false, 256, 128), GemmTiling::Tile128x128x256_Simdgroups4x4);
    assert_eq!(mxu_mn_tile(false, 256, 127), GemmTiling::Tile64x64x256_Simdgroups2x2);
    assert_eq!(mxu_mn_tile(true, 16, 64), GemmTiling::Tile16x32x256_Simdgroups1x1);
    assert_eq!(mxu_mn_tile(true, 511, 64), GemmTiling::Tile64x64x256_Simdgroups2x2);
    assert_eq!(mxu_mn_tile(true, 512, 64), GemmTiling::Tile128x128x256_Simdgroups4x4);

    assert_eq!(mxu_fp_tile(15, 2560, 2560), GemmTiling::Tile16x32x256_Simdgroups1x1);
    assert_eq!(mxu_fp_tile(15, 4096, 4096), GemmTiling::Tile32x64x256_Simdgroups2x2);
    assert_eq!(mxu_fp_tile(15, 1024, 2048), GemmTiling::Tile16x128x256_Simdgroups1x4);
    assert_eq!(mxu_fp_tile(15, 33000, 1024), GemmTiling::Tile16x32x256_Simdgroups1x1);
    assert_eq!(mxu_fp_tile(15, 16384, 4096), GemmTiling::Tile16x128x256_Simdgroups1x4);
    assert_eq!(mxu_fp_tile(15, 15360, 2560), GemmTiling::Tile16x128x256_Simdgroups1x4);
    assert_eq!(mxu_fp_tile(15, 15359, 2560), GemmTiling::Tile32x64x256_Simdgroups2x2);
    assert_eq!(mxu_fp_tile(16, 1024, 2048), GemmTiling::Tile32x64x256_Simdgroups2x2);

    assert_eq!(simdgroup_fp_tile(64, 33, 65), GemmTiling::Tile64x64x16_Simdgroups2x2);
    assert_eq!(simdgroup_fp_tile(32, 33, 66), GemmTiling::Tile64x32x32_Simdgroups2x2);
    assert_eq!(simdgroup_fp_tile(u32::MAX, 1, 1), GemmTiling::Tile64x64x16_Simdgroups2x2);

    let quant = |m, n, group, identity| simdgroup_quant_tile(m, n, group, profile(identity));
    assert_eq!(quant(1, 1, 16, DeviceIdentity::M1), GemmTiling::Tile64x64x16_Simdgroups2x2);
    assert_eq!(quant(9, 1, 32, DeviceIdentity::M1), GemmTiling::Tile32x32x32_Simdgroups2x2);
    assert_eq!(quant(16, 1, 32, DeviceIdentity::M1), GemmTiling::Tile8x32x32_Simdgroups1x1);
    assert_eq!(quant(9, 1, 32, DeviceIdentity::M4), GemmTiling::Tile8x32x32_Simdgroups1x1);
    assert_eq!(quant(64, 6144, 32, DeviceIdentity::M1), GemmTiling::Tile64x64x32_Simdgroups2x2);
    assert_eq!(quant(64, 6145, 32, DeviceIdentity::M1), GemmTiling::Tile32x32x32_Simdgroups2x2);
    assert_eq!(routed_tile(Some(16)), GemmTiling::Tile16x64x16_Simdgroups1x2);
    assert_eq!(routed_tile(None), GemmTiling::Tile16x64x32_Simdgroups1x2);
}

#[test]
fn depths_are_split_until_all_processors_work() {
    let tile32 = GemmTiling::Tile32x64x256_Simdgroups2x2;
    let tile16 = GemmTiling::Tile16x32x256_Simdgroups1x1;
    assert_eq!(split_k_target_tiles(false, tile32, Some(4)), 512);
    assert_eq!(split_k_target_tiles(true, tile32, Some(4)), 512);
    assert_eq!(split_k_target_tiles(true, tile32, Some(8)), 1024);
    assert_eq!(split_k_target_tiles(true, tile16, None), 1024);
    assert_eq!(split_k_target_tiles(true, GemmTiling::Tile64x64x256_Simdgroups2x2, None), 256);

    let plan = |shape| GemmProblem::new(shape, BF16, BF16, false, profile(DeviceIdentity::M1)).select_plan();
    // Two tiles leave work for 256 parts of the depth, which has 4096 / 32 of them.
    assert_eq!(
        plan(shape(64, 64, 4096)),
        GemmPlan {
            engine: GemmEngine::Simdgroup,
            tiling: GemmTiling::Tile64x32x32_Simdgroups2x2,
            split_k: 128,
        }
    );
    assert_eq!(plan(shape(1, 63, 4096)).split_k, 1);
    let strided = MatmulShape { b_leading_dimension: Some(4096), ..shape(64, 64, 4096) };
    assert_eq!(plan(strided).split_k, 1);
    assert_eq!(
        outer_block_k(quantized(1, 1, 64, 4, 32), GemmEngine::Mxu, tile32),
        Some(32)
    );
    assert_eq!(outer_block_k(shape(1, 1, 64), GemmEngine::Mxu, tile32), Some(256));
}

#[test]
fn each_engine_that_cannot_run_has_its_error() {
    let ask = |shape, mxu, engine| {
        GemmProblem::new(shape, BF16, BF16, mxu, profile(DeviceIdentity::M5)).select_plan_for_engine(engine).err()
    };
    let simdgroup = GemmEngine::Simdgroup;
    assert_eq!(ask(shape(8, 64, 64), true, GemmEngine::Mxu), None);
    assert_eq!(ask(shape(8, 64, 64), false, GemmEngine::Mxu), Some(GemmPlanError::MxuUnavailable));
    let experts = MatmulShape { expert_routed: true, ..shape(8, 64, 64) };
    assert_eq!(
        ask(experts, true, GemmEngine::Mxu),
        Some(GemmPlanError::UnsupportedExpertRouting)
    );
    let mxfp4 = MatmulShape {
        b_kind: MatmulBKind::Mxfp4,
        b_group_size: Some(32),
        ..shape(8, 64, 64)
    };
    assert_eq!(
        ask(mxfp4, true, GemmEngine::Mxu),
        Some(GemmPlanError::UnsupportedMicrofloatEngine)
    );
    let int8 = MatmulShape { a_full_precision: false, ..mxfp4 };
    assert_eq!(ask(int8, true, simdgroup), Some(GemmPlanError::UnsupportedMicrofloatActivation));
    let columns = MatmulShape { b_transpose: false, ..quantized(8, 64, 64, 4, 32) };
    assert_eq!(ask(columns, true, simdgroup), Some(GemmPlanError::UnsupportedPackedLayout));
    assert_eq!(
        GemmPlanError::MxuUnavailable.message(),
        "MXU engine is not available for this GEMM"
    );
}

fn specialize(
    tiling: GemmTiling,
    engine: GemmEngine,
    shape: MatmulShape,
    a_group_size: Option<u32>,
) -> Result<GemmSpecialization, GemmSpecializationError> {
    GemmSpecialization::from_plan(
        GemmPlan { engine, tiling, split_k: 1 },
        shape,
        BF16,
        none(),
        GemmAlignment::new(true, true, true),
        if a_group_size.is_some() {
            GemmAPrologueKind::Int8Symmetric
        } else {
            GemmAPrologueKind::FullPrecision
        },
        a_group_size,
    )
}

#[test]
fn each_specialization_that_cannot_run_has_its_error() {
    let tile = GemmTiling::Tile64x32x32_Simdgroups2x2;
    let simdgroup = GemmEngine::Simdgroup;
    let plain = specialize(tile, simdgroup, shape(8, 64, 64), None).unwrap();
    assert!(plain.stage_weight_scales && !plain.hoist_operand_addressing && !plain.use_mxu);
    assert_eq!(
        specialize(tile, simdgroup, shape(8, 64, 64), Some(16)).err(),
        Some(GemmSpecializationError::InvalidAGroupSize { a_group_size: Some(16) })
    );
    assert_eq!(
        specialize(tile, GemmEngine::Mxu, shape(8, 64, 64), None).err(),
        Some(GemmSpecializationError::TilingUseMxuMismatch { tiling: tile, use_mxu: true })
    );
    assert_eq!(
        specialize(tile, simdgroup, quantized(8, 64, 64, 4, 16), None).err(),
        Some(GemmSpecializationError::SimdgroupKExceedsGroupSize {
            simdgroup_k: 32,
            group_size: 16,
        })
    );
    let columns = MatmulShape { b_transpose: false, ..quantized(8, 64, 64, 4, 32) };
    assert_eq!(
        specialize(tile, simdgroup, columns, None).err(),
        Some(GemmSpecializationError::PackedRequiresTransposedB)
    );
    let large = GemmTiling::Tile128x128x256_Simdgroups4x4;
    assert_eq!(
        specialize(large, GemmEngine::Mxu, quantized(8, 64, 256, 4, 128), None).err(),
        Some(GemmSpecializationError::MxuQuantTileTooLarge { tiling: large, group_size: 128 })
    );
    let routed = |tiling, shape| {
        RoutedGemmSpecialization::from_plan(
            GemmPlan { engine: simdgroup, tiling, split_k: 1 },
            shape,
            none(),
            GemmAlignment::new(false, true, true),
        )
    };
    let experts = MatmulShape { expert_routed: true, ..quantized(8, 64, 64, 4, 16) };
    assert!(routed(GemmTiling::Tile16x64x16_Simdgroups1x2, experts).is_ok());
    assert_eq!(
        routed(tile, experts).err(),
        Some(GemmSpecializationError::UnsupportedExpertRouting)
    );
    assert_eq!(
        routed(GemmTiling::Tile16x64x32_Simdgroups1x2, experts).err(),
        Some(GemmSpecializationError::SimdgroupKExceedsGroupSize {
            simdgroup_k: 32,
            group_size: 16,
        })
    );
}

#[test]
fn scales_are_staged_where_that_pays() {
    let plan = |tiling, split_k| GemmPlan { engine: GemmEngine::Mxu, tiling, split_k };
    let tile32 = GemmTiling::Tile32x64x256_Simdgroups2x2;
    assert!(!plan(tile32, 1).should_stage_weight_scales(quantized(1, 64, 4096, 4, 32)));
    assert!(plan(tile32, 1).should_stage_weight_scales(quantized(1, 64, 384, 8, 64)));
    assert!(!plan(tile32, 2).should_stage_weight_scales(quantized(1, 64, 384, 8, 64)));
    let large = GemmTiling::Tile128x128x256_Simdgroups4x4;
    assert!(plan(large, 1).should_stage_weight_scales(quantized(1, 64, 384, 4, 32)));
    assert!(!plan(large, 1).should_hoist_operand_addressing(quantized(1, 64, 384, 4, 32)));
    assert!(plan(tile32, 1).should_hoist_operand_addressing(quantized(1, 64, 384, 4, 32)));
}

#[test]
fn tilings_say_what_they_hold() {
    let tile = GemmTiling::Tile16x128x256_Simdgroups1x4;
    assert_eq!((tile.block_m(), tile.block_n(), tile.block_k()), (16, 128, 256));
    assert_eq!((tile.simdgroups_m(), tile.simdgroups_n()), (1, 4));
    assert!(tile.is_mxu_variant());
    assert!(!GemmTiling::Tile64x64x32_Simdgroups2x2.is_mxu_variant());
    assert_eq!(gemm_tiling_simdgroups_per_row(tile), 1);
    assert_eq!(gemm_tiling_simdgroups_per_column(tile), 4);
    let transform = GemmDTransform { scale: true, bias: true, gate_act_mul: true, ..none() };
    assert_eq!(none().bits(), 0);
    assert_eq!(transform.bits().count_ones(), 3);
    assert_eq!(GemmAlignment::new(true, false, true).bits().count_ones(), 2);
    assert_eq!(profile(DeviceIdentity::M1).gpu_family(), GpuFamily::Legacy);
    assert_eq!(profile(DeviceIdentity::M2).gpu_family(), GpuFamily::Apple8);
    assert_eq!(profile(DeviceIdentity::M4).gpu_family(), GpuFamily::Apple9);
    assert_eq!(profile(DeviceIdentity::M5).gpu_family(), GpuFamily::Apple10);
}

#[test]
fn microfloat_multiplications_take_full_precision_alone() {
    let call = MicrofloatGemmDispatch::encode(&MatmulArguments {
        a: MatmulA::FullPrecision { values: 514, offset: 2 },
        b: microfloat(1, 256),
        ..dense()
    })
    .unwrap();
    assert_eq!((call.specialization.group_size, call.input_offset), (32, 2));
    assert_eq!((call.input, call.codes, call.output_bias), (514, 256, None));
    let mut dispatch = MicrofloatGemmDispatch::new(BF16, BF16, BF16);
    assert_eq!(dispatch.find(&call.specialization), None);
    let index = dispatch.insert(call.specialization);
    assert_eq!(dispatch.find(&call.specialization), Some(index));
    let rht = GemmDTransform { rht: true, ..none() };
    let rotated = MatmulArguments {
        b: microfloat(1, 256),
        d_transform: d_ops(rht, None),
        ..dense()
    };
    assert_eq!(
        MicrofloatGemmDispatch::encode(&rotated).err(),
        Some(MatmulError::UnsupportedDOp {
            bit: GemmDTransformBit::Rht,
            path: MatmulPath::MicrofloatGemm,
        })
    );
    let int8 = MatmulArguments { a: int8(), b: microfloat(1, 256), ..dense() };
    assert_eq!(
        MicrofloatGemmDispatch::encode(&int8).err(),
        Some(MatmulError::IncompatibleA {
            path: MatmulPath::MicrofloatGemm,
            reason: IncompatibleReason::PreparedActivationsRequireIntegerWeights,
        })
    );
}

fn int8() -> MatmulA {
    MatmulA::Int8Symmetric { values: 256, scales: 16, group_sums: None, group_size: 32 }
}

fn tile() -> GemvTile {
    GemvTile {
        num_simdgroups: 8,
        k_split: 1,
        results_per_simdgroup: 4,
        input_row_tile: 1,
        reduction_lanes: 32,
        group_lanes: 1,
    }
}

fn policy() -> GemvPolicy {
    GemvPolicy { default_tile: tile(), fp_k_block: 128, default_results_per_simdgroup: 4 }
}

fn gemv(shape: &MatmulShape) -> Option<GemvSpecialization> {
    GemvSpecialization::select_tile(shape, BF16, BF16, BF16, tile(), policy())
}

#[test]
fn few_rows_are_multiplied_by_vectors() {
    let selected = gemv(&shape(8, 64, 256)).unwrap();
    assert_eq!(selected.output_row_tile(), 32);
    assert!(selected.input_aligned && selected.full_tile);
    assert_eq!(selected.tile(), tile());
    assert!(!gemv(&shape(8, 65, 255)).unwrap().input_aligned);
    assert!(gemv(&shape(9, 64, 256)).is_none());
    assert!(gemv(&shape(8, 3, 256)).is_none());
    assert!(gemv(&MatmulShape { b_transpose: false, ..shape(8, 64, 256) }).is_none());
    assert!(gemv(&MatmulShape { a_full_precision: false, ..shape(8, 64, 256) }).is_none());
    assert!(gemv(&MatmulShape { b_leading_dimension: Some(255), ..shape(8, 64, 256) }).is_none());
    assert!(gemv(&MatmulShape { b_leading_dimension: Some(256), ..shape(8, 64, 256) }).is_some());
    let accumulate = GemmDTransform { accumulate: true, ..none() };
    assert!(gemv(&MatmulShape { d_transform: accumulate, ..shape(8, 48, 256) }).is_none());
    let mixed = GemvSpecialization::select_tile(
        &shape(8, 64, 256),
        DataType::F32,
        BF16,
        BF16,
        tile(),
        policy(),
    );
    assert!(mixed.is_none());
    let wide = GemvTile { input_row_tile: 2, ..tile() };
    let readout = MatmulShape { sparse_readout: true, ..shape(8, 64, 256) };
    assert!(GemvSpecialization::select_tile(&readout, BF16, BF16, BF16, wide, policy()).is_none());
}

#[test]
fn a_vector_kernel_is_compiled_once() {
    let mut kernel = GemvKernel::new(BF16, BF16, BF16);
    let first = gemv(&shape(8, 64, 256)).unwrap();
    let second = gemv(&shape(7, 64, 255)).unwrap();
    assert_eq!(kernel.find(&first), None);
    let index = kernel.insert(first);
    assert_eq!(kernel.find(&first), Some(index));
    assert_eq!(kernel.find(&second), None);
    let other = kernel.insert(second);
    assert_ne!(index, other);
    assert_eq!(kernel.find(&first), Some(index));
}

#[test]
fn a_vector_call_names_its_operands() {
    let selected = gemv(&shape(4, 64, 64)).unwrap();
    let tokens = routes(ExpertInput::Routes);
    let arguments = MatmulArguments {
        n: 65,
        b: zero_points(1, 2, 3, 32),
        d_transform: d_ops(none(), Some(6)),
        routing: MatmulRouting::Experts(tokens),
        ..dense()
    };
    let call = GemvKernel::encode(&arguments, &selected).unwrap();
    assert_eq!(
        call.weights,
        GemvWeights {
            weights: 1,
            scales: Some(2),
            zero_points: Some(3),
            biases: None,
            outer_scales: None,
        }
    );
    assert_eq!(call.output_group_count, 3);
    assert_eq!((call.routes_per_token, call.expert_count), (2, 3));
    assert_eq!((call.expert_ids, call.gather_indices), (Some(16), None));
    assert!(call.input_is_route_major);
    assert_eq!((call.output_bias, call.per_matrix_bias, call.rht_factors), (None, Some(6), None));
    assert_eq!(call.d, dense().d);
    let rotated = GemmDTransform { bias: true, rht: true, ..none() };
    let rotated = MatmulArguments { d_transform: d_ops(rotated, None), ..dense() };
    let call = GemvKernel::encode(&rotated, &selected).unwrap();
    assert_eq!((call.output_bias, call.per_matrix_bias, call.rht_factors), (Some(16), None, Some(32)));
    let gated = GemmDTransform { gate_act_mul: true, ..none() };
    let gated = MatmulArguments {
        d_transform: d_ops(gated, None),
        ..dense()
    };
    assert_eq!(
        GemvKernel::encode(&gated, &selected).err(),
        Some(MatmulError::UnsupportedDOp {
            bit: GemmDTransformBit::GateActMul,
            path: MatmulPath::Gemv,
        })
    );
    assert_eq!(
        GemvKernel::encode(&MatmulArguments { a: int8(), ..dense() }, &selected).err(),
        Some(MatmulError::IncompatibleA {
            path: MatmulPath::Gemv,
            reason: IncompatibleReason::PreparedActivationsRequireGemm,
        })
    );
}

#[test]
fn routes_are_grouped_once() {
    let first = prepare(&routes(ExpertInput::Routes), 7, 10, 16, None);
    let scratch = first.scratch.unwrap();
    assert_eq!((scratch.offsets, scratch.tiles), (4, 30));
    assert_eq!((scratch.cursors, scratch.grouped_routes, scratch.tile_count), (3, 10, 1));
    assert!(first.retain);
    let again = prepare(&routes(ExpertInput::Routes), 7, 10, 16, Some(first.key));
    assert!(again.scratch.is_none() && !again.retain);
    let other = prepare(&routes(ExpertInput::Routes), 7, 10, 32, Some(first.key));
    assert!(other.scratch.is_some());
}

fn context(supports_mxu: bool) -> DispatchContext {
    DispatchContext {
        profile: profile(DeviceIdentity::M5),
        supports_mxu,
        policy: policy(),
        candidates: GemvCandidates { gathered: None, quantized: None, full_precision: tile() },
    }
}

fn kernel() -> MatmulMetalKernel {
    MatmulMetalKernel::new(BF16, BF16, BF16).unwrap()
}

#[test]
fn only_floating_types_are_multiplied() {
    assert_eq!(
        MatmulMetalKernel::new(BF16, DataType::I8, BF16).err(),
        Some(MatmulError::UnsupportedDataType(DataType::I8))
    );
    assert!(MatmulMetalKernel::new(DataType::F32, BF16, DataType::F32).is_ok());
}

#[test]
fn many_rows_are_multiplied_by_matrices() {
    let few = kernel().choose_dispatch(&shape(1, 64, 256), &context(false));
    assert!(matches!(few, MatmulDispatch::Gemv(_)));
    let many = kernel().choose_dispatch(&shape(9, 64, 256), &context(false));
    assert!(matches!(many, MatmulDispatch::Gemm(_)));
    let gathered = MatmulArguments {
        a: MatmulA::FullPrecision { values: 9 * 128, offset: 0 },
        m: 9,
        d: 144,
        routing: MatmulRouting::SparseReadout { b_rows: 64 },
        ..dense()
    };
    assert_eq!(
        kernel().plan_encode(&gathered, &context(false)).err(),
        Some(MatmulError::GatheredGemm { m: 9, n: 8 })
    );
}

#[test]
fn activations_are_quantized_for_signed_integer_weights() {
    let a8 = |shape: MatmulShape| MatmulShape { a_full_precision: false, ..shape };
    let symmetric = a8(quantized(64, 64, 256, 4, 64));
    let plan = kernel().a8_activation_plan(&symmetric, true).unwrap();
    assert_eq!(plan.sum_group_size, None);
    let corrected = MatmulShape {
        b_prologue: GemmBPrologueKind::ScaleZeroPointDequant,
        ..a8(quantized(64, 64, 256, 4, 32))
    };
    assert_eq!(
        kernel().a8_activation_plan(&corrected, true),
        Some(A8ActivationPlan {
            activation_group_size: plan.activation_group_size,
            sum_group_size: Some(32),
        })
    );
    assert_eq!(kernel().a8_activation_plan(&symmetric, false), None);
    let unsigned = MatmulShape { signed_codes: false, ..symmetric };
    assert_eq!(kernel().a8_activation_plan(&unsigned, true), None);
    let groups = a8(quantized(64, 64, 256, 4, 16));
    assert_eq!(kernel().a8_activation_plan(&groups, true), None);

    let many = quantized(64, 64, 256, 4, 64);
    let ask = |mxu| kernel().select_activation_format(&many, &context(mxu), &context(mxu));
    assert_eq!(ask(true), ActivationFormat::Int8);
    assert_eq!(ask(false), ActivationFormat::Bf16);
}

#[test]
fn refused_multiplications_are_explained() {
    assert_eq!(
        MatmulError::UnsupportedDataType(BF16).message(),
        "Unsupported data type: BF16"
    );
    assert_eq!(MatmulError::UnsupportedGroupSize(96).message(), "Unsupported group size: 96");
    let gated = MatmulError::UnsupportedDOp {
        bit: GemmDTransformBit::GateActMul,
        path: MatmulPath::Gemv,
    };
    assert_eq!(
        gated.message(),
        "Unsupported D-transform op GemmDTransform(GATE_ACT_MUL) on path Gemv"
    );
    let prepared = MatmulError::IncompatibleA {
        path: MatmulPath::MicrofloatGemm,
        reason: IncompatibleReason::PreparedActivationsRequireIntegerWeights,
    };
    assert_eq!(
        prepared.message(),
        "Incompatible A operand for MicrofloatGemm: prepared int8 activations require integer weights"
    );
    assert_eq!(
        GemmSpecializationError::InvalidAGroupSize { a_group_size: Some(16) }.message(),
        "unsupported A group size Some(16); expected None or 32/64/128"
    );
    let tiling = GemmTiling::Tile64x64x32_Simdgroups2x2;
    assert_eq!(
        GemmSpecializationError::TilingUseMxuMismatch { tiling, use_mxu: true }.message(),
        "tiling Tile64x64x32_Simdgroups2x2 does not match use_mxu=true"
    );
}
