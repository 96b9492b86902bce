//! Where the heads of attention lie.
use uzu_engine::backends::cpu::attention_prepare::{
    KeyValueShape, PrepareShape, RopePartner, attention_prepare, rope_partner,
};
use uzu_engine::backends::metal::attention_fallback::{
    AttentionFallback, AttentionKernelConfig, GroupStep,
};
use uzu_engine::data_type::DataType;
use uzu_engine::encodable_block::qkv_norm::{HeadKind, HeadNorm, NormStep, QKVNorm};

#[test]
fn rotated_elements_are_pairs() {
    assert_eq!(rope_partner(0, 8), RopePartner { index: 4, negated: true });
    assert_eq!(rope_partner(3, 8), RopePartner { index: 7, negated: true });
    assert_eq!(rope_partner(4, 8), RopePartner { index: 0, negated: false });
    for element in 0..8 {
        assert_eq!(rope_partner(rope_partner(element, 8).index, 8).index, element);
    }
}

/// Two tokens with two queries, one key and one value of two elements each.
fn shape(rope_dim: Option<usize>) -> PrepareShape {
    PrepareShape {
        num_q_heads: 2,
        kv: Some(KeyValueShape { num_kv_heads: 1, kv_token_offset: 1 }),
        head_dim: 2,
        rope_dim,
        input_row_stride: 9,
        batch_dim: 2,
    }
}

#[test]
fn heads_are_stored_where_attention_reads_them() {
    let qkv: Vec<u16> = (0..18).collect();
    let rotated: Vec<u16> = (100..118).collect();
    let mut queries = vec![999; 9];
    let mut keys = vec![999; 7];
    let mut values = vec![999; 7];
    attention_prepare(&shape(Some(2)), &qkv, &rotated, &mut queries, &mut keys, &mut values);
    assert_eq!(queries, vec![100, 101, 109, 110, 102, 103, 111, 112, 999]);
    assert_eq!(keys, vec![999, 999, 104, 105, 113, 114, 999]);
    assert_eq!(values, vec![999, 999, 6, 7, 15, 16, 999]);

    attention_prepare(&shape(None), &qkv, &rotated, &mut queries, &mut keys, &mut values);
    assert_eq!(queries, vec![0, 1, 9, 10, 2, 3, 11, 12, 999]);
    assert_eq!(keys, vec![999, 999, 4, 5, 13, 14, 999]);
}

#[test]
fn queries_alone_leave_the_caches_unchanged() {
    let qkv: Vec<u16> = (0..8).collect();
    let shape = PrepareShape {
        num_q_heads: 2,
        kv: None,
        head_dim: 4,
        rope_dim: None,
        input_row_stride: 8,
        batch_dim: 1,
    };
    let (mut queries, mut keys, mut values) = (vec![0; 8], vec![7; 2], vec![8; 2]);
    attention_prepare(&shape, &qkv, &qkv, &mut queries, &mut keys, &mut values);
    assert_eq!(queries, qkv);
    assert_eq!((keys, values), (vec![7, 7], vec![8, 8]));
}

fn config(head_dim: u32, data_type: DataType) -> AttentionKernelConfig {
    AttentionKernelConfig {
        head_dim,
        num_groups: 2,
        num_q_heads: 8,
        sliding_window_size: Some(128),
        is_kv_cache_ring: false,
        is_causal: true,
        has_sinks: false,
        data_type,
    }
}

#[test]
fn groups_are_multiplied_one_by_one() {
    let fallback = AttentionFallback::new(&config(512, DataType::BF16));
    assert!(fallback.kernels.has_sliding_window && fallback.kernels.is_causal);
    let plan = fallback.encode(3, 5);
    assert_eq!((plan.gqa_factor, plan.sequence_length), (4, 8));
    assert_eq!((plan.output_shape, plan.scores_shape), ((3, 8, 512), (8, 3, 8)));
    assert_eq!((plan.group_scores_shape, plan.group_output_shape), ((12, 8), (12, 512)));
    assert_eq!(plan.scores.len(), 2);
    assert_eq!(
        plan.scores[1],
        GroupStep {
            group_index: 1,
            a_offset: 12 * 512 * 2,
            b_offset: 512 * 2,
            b_leading_dimension: 1024,
            b_transpose: true,
            m: 12,
            n: 8,
            k: 512,
            scattered: 96,
        }
    );
    assert_eq!(
        plan.values[1],
        GroupStep {
            group_index: 1,
            a_offset: 12 * 8 * 2,
            b_offset: 512 * 2,
            b_leading_dimension: 1024,
            b_transpose: false,
            m: 12,
            n: 512,
            k: 8,
            scattered: 12 * 512,
        }
    );
}

#[test]
fn other_heads_have_their_own_kernels() {
    assert!(AttentionFallback::is_supported(&config(512, DataType::F32)));
    assert!(!AttentionFallback::is_supported(&config(128, DataType::F32)));
    assert!(!AttentionFallback::is_supported(&config(512, DataType::I8)));
}

const SCALED: HeadNorm = HeadNorm { has_scale: true, full_layer: false };
const UNSCALED: HeadNorm = HeadNorm { has_scale: false, full_layer: true };

#[test]
fn each_kind_of_head_is_normalized_in_place() {
    let norm = QKVNorm::new(Some(SCALED), None, Some(UNSCALED), 8, 2, 1600, 128);
    assert_eq!(
        norm.encode(),
        vec![
            NormStep {
                kind: HeadKind::Query,
                norm: SCALED,
                head_offset: 0,
                head_count: 8,
                input_row_stride: 1600,
            },
            NormStep {
                kind: HeadKind::Value,
                norm: UNSCALED,
                head_offset: 10,
                head_count: 2,
                input_row_stride: 1600,
            },
        ]
    );
}

#[test]
fn key_value_norm_uses_element_row_stride() {
    let norm = QKVNorm::new(Some(SCALED), Some(SCALED), Some(UNSCALED), 8, 2, 1600, 128);
    let steps = norm.encode_key_value();
    assert_eq!(steps.len(), 2);
    assert!(steps.iter().all(|step| step.input_row_stride == 512));
    assert_eq!((steps[0].kind, steps[0].head_offset), (HeadKind::Key, 0));
    assert_eq!((steps[1].kind, steps[1].head_offset), (HeadKind::Value, 2));
}
