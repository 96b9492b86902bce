//! Measured routes of few-row multiplications.
use uzu_engine::backends::common::gpu_types::gemm::{GemmBPrologueKind, GemmDTransform};
use uzu_engine::backends::common::matmul::arguments::MatmulBKind;
use uzu_engine::backends::common::matmul::routing::MatmulShape;
use uzu_engine::backends::metal::device_profile::{DeviceIdentity, DeviceProfile, DeviceSize};
use uzu_engine::backends::metal::matmul::dispatch::{
    DispatchContext, MatmulDispatch, MatmulMetalKernel,
};
use uzu_engine::backends::metal::matmul::gemm::selection::GemmProblem;
use uzu_engine::backends::metal::matmul::gemv::specialization::GemvSpecialization;
use uzu_engine::backends::metal::matmul::gemv::tile::{GemvCandidates, GemvPolicy, GemvTile};
use uzu_engine::backends::metal::matmul::qmv::routes::route;
use uzu_engine::backends::metal::matmul::qmv::table::QmvRoute;
use uzu_engine::data_type::DataType;
use xxhash_rust::xxh3::xxh3_64;

const FROZEN_PLAN_FINGERPRINT: u64 = 5_839_212_743_558_880_136;

const DEVICES: [(&str, DeviceIdentity); 7] = [
    ("m1", DeviceIdentity::M1),
    ("m2", DeviceIdentity::M2),
    ("m2-pro", DeviceIdentity::M2Pro),
    ("m3-max", DeviceIdentity::M3Max),
    ("m4", DeviceIdentity::M4),
    ("m4-pro", DeviceIdentity::M4Pro),
    ("m5-max", DeviceIdentity::M5Max),
];

const FORMATS: [(&str, u32, u32, GemmBPrologueKind); 4] = [
    ("W4/ZP G32", 4, 32, GemmBPrologueKind::ScaleZeroPointDequant),
    ("W4/ZP G64", 4, 64, GemmBPrologueKind::ScaleZeroPointDequant),
    ("W8/Symmetric G32", 8, 32, GemmBPrologueKind::ScaleSymmetricDequant),
    ("W8/Symmetric G64", 8, 64, GemmBPrologueKind::ScaleSymmetricDequant),
];

const SHAPES: [(&str, u32, u32); 7] = [
    ("down", 5120, 17408),
    ("gate", 6144, 5120),
    ("gate-up", 34816, 5120),
    ("projection-in", 16480, 5120),
    ("projection-out", 5120, 6144),
    ("qkv", 8192, 5120),
    ("readout", 248320, 5120),
];

fn problem(m: u32, n: u32, k: u32, bits: u32, group: u32, prologue: GemmBPrologueKind) -> MatmulShape {
    MatmulShape {
        m,
        n,
        k,
        b_transpose: true,
        b_leading_dimension: None,
        b_kind: MatmulBKind::Integer,
        b_prologue: prologue,
        b_bits: Some(bits),
        b_group_size: Some(group),
        signed_codes: false,
        a_full_precision: true,
        sparse_readout: false,
        expert_routed: false,
        expert_bias: false,
        d_transform: GemmDTransform::empty(),
    }
}

fn device_profile(identity: DeviceIdentity) -> DeviceProfile {
    let large = matches!(identity, DeviceIdentity::M3Max | DeviceIdentity::M5Max);
    DeviceProfile::new(
        identity,
        if large {
            DeviceSize::Large
        } else {
            DeviceSize::Small
        },
        matches!(identity, DeviceIdentity::M5Max),
    )
}

fn policy() -> GemvPolicy {
    GemvPolicy {
        default_tile: GemvTile::quantized(8, 4, 1, 32, 2),
        fp_k_block: 128,
        default_results_per_simdgroup: 4,
    }
}

fn context(profile: DeviceProfile, quantized: Option<GemvTile>) -> DispatchContext {
    DispatchContext {
        profile,
        supports_mxu: profile.supports_mxu,
        policy: policy(),
        candidates: GemvCandidates {
            gathered: None,
            quantized,
            full_precision: GemvTile::quantized(8, 4, 1, 32, 1),
        },
    }
}

fn bf16_kernel() -> MatmulMetalKernel {
    MatmulMetalKernel::new(DataType::BF16, DataType::BF16, DataType::BF16).unwrap()
}

#[test]
fn table_is_complete_and_fingerprint_is_stable() {
    let mut canonical = Vec::new();
    let mut tuned = 0;
    let mut main_gemv = 0;
    let mut main_gemm = 0;
    for &(device_name, identity) in &DEVICES {
        for &(format_name, bits, group, prologue) in &FORMATS {
            for m in 2..=7 {
                for &(shape_name, n, k) in &SHAPES {
                    let profile = device_profile(identity);
                    let problem = problem(m, n, k, bits, group, prologue);
                    let selected = route(profile, &problem, true).expect("route coverage");
                    match selected {
                        QmvRoute::Tuned(_) => tuned += 1,
                        QmvRoute::MainGemv(_) => main_gemv += 1,
                        QmvRoute::MainGemm(_) => main_gemm += 1,
                    }
                    canonical.push(format!(
                        "{device_name}|{format_name}|{shape_name}|{m}|{n}|{k}|{selected:?}"
                    ));
                    let runtime = bf16_kernel().choose_dispatch(&problem, &context(profile, None));
                    match selected {
                        QmvRoute::Tuned(tile) | QmvRoute::MainGemv(tile) => {
                            let specialization = GemvSpecialization::select_tile(
                                &problem,
                                DataType::BF16,
                                DataType::BF16,
                                DataType::BF16,
                                tile,
                                policy(),
                            )
                            .expect("stored GEMV tile must be legal");
                            assert_eq!(specialization.tile(), tile);
                            assert!(
                                matches!(runtime, MatmulDispatch::Gemv(actual) if actual == specialization)
                            );
                        },
                        QmvRoute::MainGemm(plan) => {
                            let problem = GemmProblem::new(
                                problem,
                                DataType::BF16,
                                DataType::BF16,
                                profile.supports_mxu,
                                profile,
                            );
                            assert!(problem.plan_is_legal(plan), "stored GEMM plan must be legal");
                            assert!(matches!(runtime, MatmulDispatch::Gemm(actual) if actual == plan));
                        },
                    }
                }
            }
        }
    }
    canonical.sort();
    assert_eq!(canonical.len(), 1176);
    let expanded = canonical.join("\n");
    assert_eq!(tuned, 864);
    assert_eq!(main_gemv, 221);
    assert_eq!(main_gemm, 91);
    assert_eq!(xxh3_64(expanded.as_bytes()), FROZEN_PLAN_FINGERPRINT);
}

#[test]
fn exact_lookup_rejects_non_matrix_inputs() {
    let profile = device_profile(DeviceIdentity::M1);
    let p = problem(2, 5120, 17408, 4, 64, GemmBPrologueKind::ScaleZeroPointDequant);
    assert!(route(profile, &p, true).is_some());
    for mutate in [
        |p: &mut MatmulShape| p.m = 1,
        |p: &mut MatmulShape| p.n = 1,
        |p: &mut MatmulShape| p.b_bits = Some(8),
        |p: &mut MatmulShape| p.sparse_readout = true,
    ] {
        let mut rejected = p;
        mutate(&mut rejected);
        assert!(route(profile, &rejected, true).is_none());
    }
    assert!(route(profile, &p, false).is_none());

    let mut rht = p;
    rht.d_transform = GemmDTransform { rht: true, ..GemmDTransform::empty() };
    rht.signed_codes = true;
    let selected = route(profile, &rht, true).expect("RHT must preserve the exact route");
    let QmvRoute::Tuned(tile) = selected else {
        panic!("test anchor must use a tuned tile");
    };
    let select = |shape: &MatmulShape| {
        GemvSpecialization::select_tile(
            shape,
            DataType::BF16,
            DataType::BF16,
            DataType::BF16,
            tile,
            policy(),
        )
    };
    assert!(select(&rht).is_some());
    rht.n -= 1;
    assert!(select(&rht).is_none());

    let m5_without_mxu = DeviceProfile::new(DeviceIdentity::M5Max, DeviceSize::Large, false);
    let p = problem(7, 6144, 5120, 8, 64, GemmBPrologueKind::ScaleSymmetricDequant);
    assert!(matches!(
        route(device_profile(DeviceIdentity::M5Max), &p, true),
        Some(QmvRoute::MainGemm(_))
    ));
    assert_eq!(route(m5_without_mxu, &p, true), None);
}

#[test]
fn normal_routing_handles_inputs_outside_the_frozen_matrix() {
    let profile = device_profile(DeviceIdentity::M1);
    for (m, n, k) in [(1, 5120, 17408), (2, 4096, 5120)] {
        let problem = problem(m, n, k, 4, 64, GemmBPrologueKind::ScaleZeroPointDequant);
        assert_eq!(route(profile, &problem, true), None);
        let context = context(profile, Some(GemvTile::quantized(8, 2, 1, 32, 2)));
        let specialization = GemvSpecialization::select_shape(
            &problem,
            DataType::BF16,
            DataType::BF16,
            DataType::BF16,
            context.policy,
            context.candidates,
        )
        .expect("normal M1 policy should select GEMV for this anchor");
        assert!(matches!(
            bf16_kernel().choose_dispatch(&problem, &context),
            MatmulDispatch::Gemv(actual) if actual == specialization
        ));
    }
}

#[test]
fn family_lookup_requires_one_unanimous_route() {
    let m1_max = DeviceProfile::new(DeviceIdentity::M1Max, DeviceSize::Large, false);
    let m1_route = problem(4, 8192, 5120, 4, 64, GemmBPrologueKind::ScaleZeroPointDequant);
    assert_eq!(
        route(m1_max, &m1_route, true),
        route(device_profile(DeviceIdentity::M1), &m1_route, true)
    );

    let family = DeviceProfile::new(DeviceIdentity::M2Max, DeviceSize::Small, false);
    let unanimous = problem(6, 5120, 17408, 4, 64, GemmBPrologueKind::ScaleZeroPointDequant);
    assert_eq!(
        route(family, &unanimous, true),
        route(device_profile(DeviceIdentity::M2), &unanimous, true)
    );

    let disagreement = problem(3, 5120, 6144, 4, 64, GemmBPrologueKind::ScaleZeroPointDequant);
    assert_eq!(route(family, &disagreement, true), None);
    assert!(route(device_profile(DeviceIdentity::M2), &disagreement, true).is_some());
}

#[test]
fn block_unaligned_quantized_k_stays_on_gemv() {
    let shape = problem(1, 64, 1152, 4, 64, GemmBPrologueKind::ScaleZeroPointDequant);
    let profile = DeviceProfile::new(DeviceIdentity::M5Max, DeviceSize::Large, true);
    let context = context(profile, Some(GemvTile::quantized(8, 4, 1, 32, 2)));
    assert!(
        GemvSpecialization::select_shape(
            &shape,
            DataType::BF16,
            DataType::BF16,
            DataType::BF16,
            context.policy,
            context.candidates,
        )
        .is_some()
    );
}

#[test]
fn specialization_preserves_quantized_route_and_accumulate_tail() {
    let profile = DeviceProfile::new(DeviceIdentity::M5Max, DeviceSize::Large, true);
    let context = context(profile, Some(GemvTile::quantized(8, 4, 1, 32, 2)));
    let select = |n: u32, transform: GemmDTransform| {
        let mut shape = problem(4, n, 4096, 4, 32, GemmBPrologueKind::ScaleZeroPointDequant);
        shape.d_transform = transform;
        GemvSpecialization::select_shape(
            &shape,
            DataType::BF16,
            DataType::BF16,
            DataType::BF16,
            context.policy,
            context.candidates,
        )
    };
    let clean = select(8192, GemmDTransform::empty()).expect("quantized specialization");
    assert!(clean.output_row_tile() > context.policy.default_results_per_simdgroup);
    let accumulate = GemmDTransform { accumulate: true, ..GemmDTransform::empty() };
    assert_eq!(select(8192 + clean.output_row_tile() / 2, accumulate), None);
}
