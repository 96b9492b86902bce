//! Mixtures of experts.
use uzu_engine::backends::cpu::router_topk::select_top_k;
use uzu_engine::config::weight_matrix::{AnyWeightMatrixSpec, FullPrecisionSpec, Layout};
use uzu_engine::data_type::DataType;
use uzu_engine::encodable_block::moe::{
    ActivationType, MixtureOfExpertsConfig, MoeBlock, MoeBlockError, valid_model_dim,
    validate_expert_counts,
};
use uzu_engine::encodable_block::moe_tiles::{cpu_tile_counts, cpu_tile_scan};

#[test]
fn rejects_invalid_routed_expert_counts() {
    assert!(validate_expert_counts(512, 128).is_ok());
    for routed_experts in [0, 513] {
        let error = validate_expert_counts(routed_experts, 1);
        assert!(matches!(error, Err(MoeBlockError::InvalidRoutedExpertCount)));
    }
}

#[test]
fn rejects_invalid_active_expert_counts() {
    for (routed_experts, active_experts) in [(1, 0), (1, 2), (512, 129)] {
        let error = validate_expert_counts(routed_experts, active_experts);
        assert!(matches!(error, Err(MoeBlockError::InvalidActiveExpertCount)));
    }
}

#[test]
fn rejects_router_dimensions_beyond_its_threadgroup_cache() {
    assert!(valid_model_dim(4096));
    for model_dim in [0, 2, 4100] {
        assert!(!valid_model_dim(model_dim));
    }
}

fn config() -> MixtureOfExpertsConfig {
    MixtureOfExpertsConfig {
        num_routed_experts: 32,
        num_active_routed_experts: 4,
        num_shared_experts: 0,
        expert_hidden_dim: 64,
        has_gate: false,
        router_has_biases: true,
        has_up_biases: true,
        has_down_biases: true,
        activation: ActivationType::SILU,
        softmax_routing: true,
    }
}

fn full_precision() -> AnyWeightMatrixSpec {
    AnyWeightMatrixSpec::FullPrecisionSpec(FullPrecisionSpec::output_input())
}

#[test]
fn a_block_is_planned_from_its_configuration() {
    let block = MoeBlock::new(&config(), 128, DataType::BF16, full_precision(), None, None).unwrap();
    assert_eq!(block.shape.fused_hidden_dim, 128);
    assert_eq!(block.up_projection.input_dim, 128);
    assert_eq!(block.up_projection.output_dim, 128);
    assert_eq!(block.down_projection.input_dim, 64);
    assert_eq!(block.down_projection.output_dim, 128);
    assert_eq!(block.up_projection.output_data_type, DataType::F32);
    assert_eq!(block.down_projection.input_data_type, DataType::F32);
    assert!(block.router.renormalize);
    assert!(matches!(block.up_projection.spec, AnyWeightMatrixSpec::FullPrecisionSpec(_)));
}

#[test]
fn each_unsupported_configuration_has_its_error() {
    let refuse = |change: fn(&mut MixtureOfExpertsConfig)| {
        let mut config = config();
        change(&mut config);
        MoeBlock::validate_config(&config, 128).err()
    };
    assert!(matches!(refuse(|c| c.expert_hidden_dim = 0), Some(MoeBlockError::InvalidExpertHiddenDim)));
    assert!(matches!(
        refuse(|c| c.expert_hidden_dim = 1 << 31),
        Some(MoeBlockError::InvalidExpertHiddenDim)
    ));
    assert!(matches!(
        refuse(|c| c.num_shared_experts = 1),
        Some(MoeBlockError::UnsupportedSharedExperts)
    ));
    assert!(matches!(refuse(|c| c.has_gate = true), Some(MoeBlockError::UnsupportedExpertGate)));
    assert!(matches!(
        refuse(|c| c.has_up_biases = false),
        Some(MoeBlockError::UnsupportedNoBiases)
    ));
    assert!(matches!(
        refuse(|c| c.activation = ActivationType::Other(7)),
        Some(MoeBlockError::UnsupportedExpertActivation(ActivationType::Other(7)))
    ));
    assert!(matches!(
        MoeBlock::validate_config(&config(), 130),
        Err(MoeBlockError::InvalidModelDim)
    ));
    let transposed = AnyWeightMatrixSpec::FullPrecisionSpec(FullPrecisionSpec {
        layout: Layout::InputOutput,
    });
    assert!(matches!(
        MoeBlock::new(&config(), 128, DataType::BF16, transposed, None, None),
        Err(MoeBlockError::UnsupportedRouterConfiguration(_))
    ));
}

fn bits(values: &[f32]) -> Vec<u32> {
    values.iter().map(|value| value.to_bits()).collect()
}

#[test]
fn the_greatest_logits_are_selected_and_ties_go_to_the_first() {
    let top = select_top_k(&bits(&[0.5, -1.0, 2.0, 2.0]), 3);
    assert_eq!(top.ids, vec![2, 3, 0]);
    assert_eq!(top.values, bits(&[2.0, 2.0, 0.5]));
}

#[test]
fn logits_that_are_not_finite_are_never_selected() {
    let logits = bits(&[f32::NAN, f32::INFINITY, -3.0, f32::NEG_INFINITY]);
    let top = select_top_k(&logits, 2);
    assert_eq!(top.ids, vec![2, -1]);
    assert_eq!(top.values, bits(&[-3.0, 0.0]));
}

#[test]
fn both_zeros_are_equal() {
    let top = select_top_k(&bits(&[-0.0, 0.0]), 2);
    assert_eq!(top.ids, vec![0, 1]);
}

#[test]
fn tiles_cover_the_rows_of_each_expert() {
    let counts = cpu_tile_counts(&[0, 0, 1, 17, 33], 16);
    assert_eq!(counts, vec![0, 1, 1, 1]);
    assert_eq!(cpu_tile_counts(&[0, 17], 16), vec![2]);
    assert_eq!(cpu_tile_scan(&[0, 2, 1]), (vec![0, 0, 2, 3], 3));
    assert_eq!(cpu_tile_scan(&[]), (vec![0], 0));
}

#[test]
fn refused_experts_are_explained() {
    assert_eq!(
        MoeBlockError::UnsupportedSharedExperts.message(""),
        "MoE shared experts are not supported"
    );
    assert_eq!(
        MoeBlockError::UnsupportedExpertActivation(ActivationType::Other(3)).message("RELU"),
        "Unsupported MoE expert activation: RELU"
    );
}
