//! Attention by two multiplications per group, for heads that no fused kernel takes.
use vstd::prelude::*;

use crate::data_type::DataType;

verus! {

/// The head width that has no fused kernel.
pub const HEAD_DIM: u32 = 512;

/// What decides which attention kernel runs.
#[derive(Clone, Copy, Debug, PartialEq, Eq)]
pub struct AttentionKernelConfig {
    pub head_dim: u32,
    pub num_groups: u32,
    pub num_q_heads: u32,
    pub sliding_window_size: Option<u32>,
    pub is_kv_cache_ring: bool,
    pub is_causal: bool,
    pub has_sinks: bool,
    pub data_type: DataType,
}

/// The kernels that are compiled for a configuration.
#[derive(Clone, Copy, Debug, PartialEq, Eq)]
pub struct FallbackKernels {
    pub is_kv_cache_ring: bool,
    pub is_causal: bool,
    pub has_trie: bool,
    pub has_sliding_window: bool,
    pub has_sinks: bool,
    pub data_type: DataType,
}

/// Attention by two multiplications per group.
#[derive(Clone, Copy, Debug, PartialEq, Eq)]
pub struct AttentionFallback {
    pub head_dim: u32,
    pub num_groups: u32,
    pub num_q_heads: u32,
    pub sliding_window_size: Option<u32>,
    pub data_type: DataType,
    pub kernels: FallbackKernels,
}

/// A multiplication of one group and the number of elements that are scattered behind it.
#[derive(Clone, Copy, Debug, PartialEq, Eq)]
pub struct GroupStep {
    pub group_index: u32,
    /// The byte offset of the left operand.
    pub a_offset: usize,
    /// The byte offset of the right operand.
    pub b_offset: usize,
    pub b_leading_dimension: u32,
    pub b_transpose: bool,
    pub m: u32,
    pub n: u32,
    pub k: u32,
    pub scattered: u32,
}

/// The work of one attention: the scores of each group, a softmax, and the values of each group.
#[derive(Debug, PartialEq, Eq)]
pub struct FallbackPlan {
    pub gqa_factor: u32,
    pub sequence_length: u32,
    /// The extents of the result.
    pub output_shape: (u32, u32, u32),
    /// The extents of the scores of all heads.
    pub scores_shape: (u32, u32, u32),
    /// The extents of the scores of one group.
    pub group_scores_shape: (u32, u32),
    /// The extents of the result of one group.
    pub group_output_shape: (u32, u32),
    pub scores: Vec<GroupStep>,
    pub values: Vec<GroupStep>,
}

impl AttentionFallback {
    pub open spec fn spec_is_supported(config: AttentionKernelConfig) -> bool {
        config.head_dim == HEAD_DIM && (config.data_type is BF16 || config.data_type is F32)
    }

    /// Whether the configuration has no fused kernel and can be run by multiplications.
    pub fn is_supported(config: &AttentionKernelConfig) -> (supported: bool)
        ensures
            supported == AttentionFallback::spec_is_supported(*config),
    {
        config.head_dim == HEAD_DIM && (config.data_type == DataType::BF16 || config.data_type
            == DataType::F32)
    }

    /// The kernels of a configuration.
    pub fn new(config: &AttentionKernelConfig) -> (fallback: AttentionFallback)
        ensures
            fallback == (AttentionFallback {
                head_dim: config.head_dim,
                num_groups: config.num_groups,
                num_q_heads: config.num_q_heads,
                sliding_window_size: config.sliding_window_size,
                data_type: config.data_type,
                kernels: FallbackKernels {
                    is_kv_cache_ring: config.is_kv_cache_ring,
                    is_causal: config.is_causal,
                    has_trie: false,
                    has_sliding_window: config.sliding_window_size is Some,
                    has_sinks: config.has_sinks,
                    data_type: config.data_type,
                },
            }),
    {
        AttentionFallback {
            head_dim: config.head_dim,
            num_groups: config.num_groups,
            num_q_heads: config.num_q_heads,
            sliding_window_size: config.sliding_window_size,
            data_type: config.data_type,
            kernels: FallbackKernels {
                is_kv_cache_ring: config.is_kv_cache_ring,
                is_causal: config.is_causal,
                has_trie: false,
                has_sliding_window: config.sliding_window_size.is_some(),
                has_sinks: config.has_sinks,
                data_type: config.data_type,
            },
        }
    }

    /// The query heads that share a group.
    pub open spec fn gqa_factor(self) -> int {
        self.num_q_heads as int / self.num_groups as int
    }

    /// The rows of a group.
    pub open spec fn group_rows(self, suffix_length: u32) -> int {
        self.gqa_factor() * suffix_length
    }

    /// The bytes of a head.
    pub open spec fn head_bytes(self) -> int {
        self.head_dim * self.data_type.size_in_bytes()
    }

    /// The multiplication of queries and keys.
    pub open spec fn score_step(self, suffix_length: u32, sequence_length: u32, group: int) -> GroupStep {
        let rows = self.group_rows(suffix_length);
        GroupStep {
            group_index: group as u32,
            a_offset: (group * rows * self.head_bytes()) as usize,
            b_offset: (group * self.head_bytes()) as usize,
            b_leading_dimension: (self.num_groups * self.head_dim) as u32,
            b_transpose: true,
            m: rows as u32,
            n: sequence_length,
            k: self.head_dim,
            scattered: (rows * sequence_length) as u32,
        }
    }

    /// The multiplication of scores and values.
    pub open spec fn value_step(self, suffix_length: u32, sequence_length: u32, group: int) -> GroupStep {
        let rows = self.group_rows(suffix_length);
        let row_bytes = sequence_length * self.data_type.size_in_bytes();
        GroupStep {
            group_index: group as u32,
            a_offset: (group * rows * row_bytes) as usize,
            b_offset: (group * self.head_bytes()) as usize,
            b_leading_dimension: (self.num_groups * self.head_dim) as u32,
            b_transpose: false,
            m: rows as u32,
            n: self.head_dim,
            k: sequence_length,
            scattered: (rows * self.head_dim) as u32,
        }
    }

    /// There is a group, and all extents and offsets of the attention can be counted.
    pub open spec fn fits(self, suffix_length: u32, prefix_length: u32) -> bool {
        let sequence_length = prefix_length + suffix_length;
        let rows = self.group_rows(suffix_length);
        &&& self.num_groups > 0
        &&& sequence_length <= u32::MAX
        &&& rows <= u32::MAX
        &&& rows * sequence_length <= u32::MAX
        &&& rows * self.head_dim <= u32::MAX
        &&& self.num_groups * self.head_dim <= u32::MAX
        &&& self.head_bytes() <= usize::MAX
        &&& sequence_length * self.data_type.size_in_bytes() <= usize::MAX
        &&& (self.num_groups - 1) * rows * self.head_bytes() <= usize::MAX
        &&& (self.num_groups - 1) * rows * (sequence_length * self.data_type.size_in_bytes())
            <= usize::MAX
        &&& (self.num_groups - 1) * rows <= usize::MAX
        &&& (self.num_groups - 1) * self.head_bytes() <= usize::MAX
    }

    /// Plans the work of one attention over `prefix_length` cached tokens and `suffix_length` new
    /// ones.
    pub fn encode(&self, suffix_length: u32, prefix_length: u32) -> (plan: FallbackPlan)
        requires
            self.fits(suffix_length, prefix_length),
        ensures
            plan.gqa_factor == self.gqa_factor(),
            plan.sequence_length == prefix_length + suffix_length,
            plan.output_shape == (suffix_length, self.num_q_heads, self.head_dim),
            plan.scores_shape == (self.num_q_heads, suffix_length, plan.sequence_length),
            plan.group_scores_shape == (
                self.group_rows(suffix_length) as u32,
                plan.sequence_length,
            ),
            plan.group_output_shape == (self.group_rows(suffix_length) as u32, self.head_dim),
            plan.scores@ == Seq::new(
                self.num_groups as nat,
                |group: int| self.score_step(suffix_length, plan.sequence_length, group),
            ),
            plan.values@ == Seq::new(
                self.num_groups as nat,
                |group: int| self.value_step(suffix_length, plan.sequence_length, group),
            ),
    {
        let sequence_length: u32 = prefix_length + suffix_length;
        let gqa_factor: u32 = self.num_q_heads / self.num_groups;
        let dt_bytes: usize = self.data_type.size_in_bytes();
        let head_bytes: usize = self.head_dim as usize * dt_bytes;
        let row_bytes: usize = sequence_length as usize * dt_bytes;
        let rows: u32 = gqa_factor * suffix_length;
        let leading: u32 = self.num_groups * self.head_dim;
        let mut scores: Vec<GroupStep> = Vec::new();
        let mut values: Vec<GroupStep> = Vec::new();
        let mut group: u32 = 0;
        while group < self.num_groups
            invariant
                group <= self.num_groups,
                self.fits(suffix_length, prefix_length),
                sequence_length == prefix_length + suffix_length,
                head_bytes == self.head_bytes(),
                row_bytes == sequence_length * self.data_type.size_in_bytes(),
                rows == self.group_rows(suffix_length),
                leading == self.num_groups * self.head_dim,
                scores@ == Seq::new(
                    group as nat,
                    |g: int| self.score_step(suffix_length, sequence_length, g),
                ),
                values@ == Seq::new(
                    group as nat,
                    |g: int| self.value_step(suffix_length, sequence_length, g),
                ),
            decreases self.num_groups - group,
        {
            proof {
                lemma_offset_fits(
                    group as int,
                    self.num_groups - 1,
                    rows as int,
                    head_bytes as int,
                );
                lemma_offset_fits(
                    group as int,
                    self.num_groups - 1,
                    rows as int,
                    row_bytes as int,
                );
                assert(0 <= group * head_bytes <= (self.num_groups - 1) * head_bytes)
                    by (nonlinear_arith)
                    requires
                        group <= self.num_groups - 1,
                        head_bytes >= 0,
                ;
            }
            scores.push(
                GroupStep {
                    group_index: group,
                    a_offset: group as usize * rows as usize * head_bytes,
                    b_offset: group as usize * head_bytes,
                    b_leading_dimension: leading,
                    b_transpose: true,
                    m: rows,
                    n: sequence_length,
                    k: self.head_dim,
                    scattered: rows * sequence_length,
                },
            );
            values.push(
                GroupStep {
                    group_index: group,
                    a_offset: group as usize * rows as usize * row_bytes,
                    b_offset: group as usize * head_bytes,
                    b_leading_dimension: leading,
                    b_transpose: false,
                    m: rows,
                    n: self.head_dim,
                    k: sequence_length,
                    scattered: rows * self.head_dim,
                },
            );
            group += 1;
            assert(scores@ =~= Seq::new(
                group as nat,
                |g: int| self.score_step(suffix_length, sequence_length, g),
            ));
            assert(values@ =~= Seq::new(
                group as nat,
                |g: int| self.value_step(suffix_length, sequence_length, g),
            ));
        }
        FallbackPlan {
            gqa_factor,
            sequence_length,
            output_shape: (suffix_length, self.num_q_heads, self.head_dim),
            scores_shape: (self.num_q_heads, suffix_length, sequence_length),
            group_scores_shape: (rows, sequence_length),
            group_output_shape: (rows, self.head_dim),
            scores,
            values,
        }
    }
}

proof fn lemma_offset_fits(group: int, groups: int, rows: int, bytes: int)
    requires
        0 <= group <= groups,
        rows >= 0,
        bytes >= 0,
    ensures
        0 <= group * rows <= groups * rows,
        0 <= group * rows * bytes <= groups * rows * bytes,
{
    assert(0 <= group * rows <= groups * rows) by (nonlinear_arith)
        requires
            0 <= group <= groups,
            rows >= 0,
    ;
    assert(0 <= group * rows * bytes <= groups * rows * bytes) by (nonlinear_arith)
        requires
            0 <= group * rows <= groups * rows,
            bytes >= 0,
    ;
}

/// The rows of one group follow those of the group before it: no row is read twice and none is left
/// out.
pub proof fn law_groups_are_contiguous(
    fallback: AttentionFallback,
    suffix_length: u32,
    prefix_length: u32,
    group: int,
)
    requires
        fallback.fits(suffix_length, prefix_length),
        0 <= group < fallback.num_groups - 1,
    ensures
        ({
            let sequence_length = (prefix_length + suffix_length) as u32;
            let rows = fallback.group_rows(suffix_length);
            &&& fallback.score_step(suffix_length, sequence_length, group + 1).a_offset
                == fallback.score_step(suffix_length, sequence_length, group).a_offset + rows
                * fallback.head_bytes()
            &&& fallback.value_step(suffix_length, sequence_length, group + 1).a_offset
                == fallback.value_step(suffix_length, sequence_length, group).a_offset + rows * (
            sequence_length * fallback.data_type.size_in_bytes())
        }),
{
    let sequence_length = prefix_length + suffix_length;
    let rows = fallback.group_rows(suffix_length);
    let groups = fallback.num_groups - 1;
    let head_bytes = fallback.head_bytes();
    let row_bytes = sequence_length * fallback.data_type.size_in_bytes();
    assert(rows >= 0 && head_bytes >= 0 && row_bytes >= 0) by (nonlinear_arith)
        requires
            fallback.gqa_factor() >= 0,
            suffix_length >= 0,
            rows == fallback.gqa_factor() * suffix_length,
            head_bytes == fallback.head_dim * fallback.data_type.size_in_bytes(),
            fallback.head_dim >= 0,
            fallback.data_type.size_in_bytes() >= 0,
            sequence_length >= 0,
            row_bytes == sequence_length * fallback.data_type.size_in_bytes(),
    ;
    lemma_offset_fits(group, groups, rows, head_bytes);
    lemma_offset_fits(group + 1, groups, rows, head_bytes);
    lemma_offset_fits(group, groups, rows, row_bytes);
    lemma_offset_fits(group + 1, groups, rows, row_bytes);
    assert((group + 1) * rows * head_bytes == group * rows * head_bytes + rows * head_bytes)
        by (nonlinear_arith);
    assert((group + 1) * rows * row_bytes == group * rows * row_bytes + rows * row_bytes)
        by (nonlinear_arith);
}

/// The rows of the right operand as it lies in memory.
pub open spec fn right_rows(step: GroupStep) -> u32 {
    if step.b_transpose {
        step.n
    } else {
        step.k
    }
}

/// The columns of the right operand as it lies in memory.
pub open spec fn right_columns(step: GroupStep) -> u32 {
    if step.b_transpose {
        step.k
    } else {
        step.n
    }
}

/// Where the left operand of a group starts that follows those of the groups before it.
pub open spec fn left_offset(step: GroupStep, group: int, element_bytes: int) -> int {
    group * (step.m * step.k * element_bytes)
}

/// Each group multiplies the queries of its heads with the keys of all tokens, cached and new, and the
/// scores of all tokens with their values. Keys and values lie in rows of one token each, next to
/// each other the heads of all groups.
pub proof fn law_groups_attend_to_all_tokens(
    fallback: AttentionFallback,
    suffix_length: u32,
    prefix_length: u32,
    plan: FallbackPlan,
    group: int,
)
    requires
        fallback.fits(suffix_length, prefix_length),
        call_ensures(AttentionFallback::encode, (&fallback, suffix_length, prefix_length), plan),
        0 <= group < fallback.num_groups,
    ensures
        plan.scores@.len() == fallback.num_groups,
        plan.values@.len() == fallback.num_groups,
        ({
            let tokens = prefix_length + suffix_length;
            let score = plan.scores@[group];
            let value = plan.values@[group];
            &&& score.group_index == group
            &&& value.group_index == group
            &&& score.n == tokens
            &&& value.k == tokens
            &&& score.k == fallback.head_dim
            &&& value.n == fallback.head_dim
            &&& score.m == value.m
            &&& right_rows(score) == tokens
            &&& right_rows(value) == tokens
            &&& right_columns(score) == fallback.head_dim
            &&& right_columns(value) == fallback.head_dim
            &&& score.b_transpose
            &&& !value.b_transpose
        }),
{
}

/// The heads of a group are its share of the query heads, one row for each new token; where the
/// groups share all heads evenly, no row is left out.
pub proof fn law_groups_share_the_query_heads(
    fallback: AttentionFallback,
    suffix_length: u32,
    prefix_length: u32,
    plan: FallbackPlan,
    group: int,
)
    requires
        fallback.fits(suffix_length, prefix_length),
        call_ensures(AttentionFallback::encode, (&fallback, suffix_length, prefix_length), plan),
        0 <= group < fallback.num_groups,
    ensures
        plan.gqa_factor * fallback.num_groups <= fallback.num_q_heads,
        fallback.num_q_heads < (plan.gqa_factor + 1) * fallback.num_groups,
        plan.scores@[group].m == plan.gqa_factor * suffix_length,
        fallback.num_q_heads % fallback.num_groups == 0 ==> plan.scores@[group].m
            * fallback.num_groups == fallback.num_q_heads * suffix_length,
{
    let groups = fallback.num_groups as int;
    let heads = fallback.num_q_heads as int;
    let factor = heads / groups;
    assert(factor * groups <= heads < (factor + 1) * groups) by (nonlinear_arith)
        requires
            groups > 0,
            factor == heads / groups,
    ;
    if heads % groups == 0 {
        assert(factor * suffix_length * groups == heads * suffix_length) by (nonlinear_arith)
            requires
                groups > 0,
                heads % groups == 0,
                factor == heads / groups,
        ;
    }
}

/// What a multiplication gives is what is scattered behind it, and has the extents that the plan gives
/// to the results of one group; those of all groups fill the extents of the whole.
pub proof fn law_groups_fill_the_results(
    fallback: AttentionFallback,
    suffix_length: u32,
    prefix_length: u32,
    plan: FallbackPlan,
    group: int,
)
    requires
        fallback.fits(suffix_length, prefix_length),
        call_ensures(AttentionFallback::encode, (&fallback, suffix_length, prefix_length), plan),
        0 <= group < fallback.num_groups,
    ensures
        ({
            let score = plan.scores@[group];
            let value = plan.values@[group];
            &&& score.scattered == score.m * score.n
            &&& value.scattered == value.m * value.n
            &&& plan.group_scores_shape == (score.m, score.n)
            &&& plan.group_output_shape == (value.m, value.n)
            &&& plan.sequence_length == prefix_length + suffix_length
            &&& plan.scores_shape == (fallback.num_q_heads, suffix_length, plan.sequence_length)
            &&& plan.output_shape == (suffix_length, fallback.num_q_heads, fallback.head_dim)
            &&& fallback.num_q_heads % fallback.num_groups == 0 ==> {
                &&& fallback.num_groups * score.scattered == fallback.num_q_heads * suffix_length * (
                prefix_length + suffix_length)
                &&& fallback.num_groups * value.scattered == suffix_length * fallback.num_q_heads
                    * fallback.head_dim
            }
        }),
{
    law_groups_share_the_query_heads(fallback, suffix_length, prefix_length, plan, group);
    let rows = fallback.group_rows(suffix_length);
    let tokens = prefix_length + suffix_length;
    lemma_product_is_not_negative(fallback.gqa_factor(), suffix_length as int);
    lemma_product_is_not_negative(rows, tokens);
    lemma_product_is_not_negative(rows, fallback.head_dim as int);
    if fallback.num_q_heads % fallback.num_groups == 0 {
        let groups = fallback.num_groups as int;
        let all = fallback.num_q_heads * suffix_length;
        let head_dim = fallback.head_dim as int;
        assert(groups * (rows * tokens) == all * tokens) by (nonlinear_arith)
            requires
                rows * groups == all,
        ;
        assert(groups * (rows * head_dim) == suffix_length * fallback.num_q_heads * head_dim)
            by (nonlinear_arith)
            requires
                rows * groups == all,
                all == fallback.num_q_heads * suffix_length,
        ;
    }
}

proof fn lemma_product_is_not_negative(left: int, right: int)
    requires
        left >= 0,
        right >= 0,
    ensures
        left * right >= 0,
{
    assert(left * right >= 0) by (nonlinear_arith)
        requires
            left >= 0,
            right >= 0,
    ;
}

/// The left operands of the groups lie one behind the other. The right operand of a group starts in the
/// first row at the head of the group; a row holds one head of each group.
pub proof fn law_groups_read_their_own_operands(
    fallback: AttentionFallback,
    suffix_length: u32,
    prefix_length: u32,
    plan: FallbackPlan,
    group: int,
)
    requires
        fallback.fits(suffix_length, prefix_length),
        call_ensures(AttentionFallback::encode, (&fallback, suffix_length, prefix_length), plan),
        0 <= group < fallback.num_groups,
    ensures
        ({
            let bytes = fallback.data_type.size_in_bytes();
            let score = plan.scores@[group];
            let value = plan.values@[group];
            &&& score.a_offset == left_offset(score, group, bytes as int)
            &&& value.a_offset == left_offset(value, group, bytes as int)
            &&& score.b_offset == group * (fallback.head_dim * bytes)
            &&& value.b_offset == group * (fallback.head_dim * bytes)
            &&& score.b_leading_dimension == fallback.num_groups * fallback.head_dim
            &&& value.b_leading_dimension == fallback.num_groups * fallback.head_dim
            &&& score.b_offset + fallback.head_dim * bytes <= score.b_leading_dimension * bytes
        }),
{
    let bytes = fallback.data_type.size_in_bytes() as int;
    let rows = fallback.group_rows(suffix_length);
    let tokens = prefix_length + suffix_length;
    let head_dim = fallback.head_dim as int;
    let groups = fallback.num_groups as int;
    lemma_product_is_not_negative(fallback.gqa_factor(), suffix_length as int);
    lemma_product_is_not_negative(head_dim, bytes);
    lemma_product_is_not_negative(tokens, bytes);
    lemma_product_is_not_negative(groups, head_dim);
    lemma_offset_fits(group, groups - 1, rows, head_dim * bytes);
    lemma_offset_fits(group, groups - 1, rows, tokens * bytes);
    assert(group * rows * (head_dim * bytes) == group * (rows * head_dim * bytes))
        by (nonlinear_arith);
    assert(group * rows * (tokens * bytes) == group * (rows * tokens * bytes)) by (nonlinear_arith);
    assert(0 <= group * (head_dim * bytes) <= (groups - 1) * (head_dim * bytes))
        by (nonlinear_arith)
        requires
            0 <= group <= groups - 1,
            head_dim * bytes >= 0,
    ;
    assert((groups - 1) * (head_dim * bytes) + head_dim * bytes == groups * head_dim * bytes)
        by (nonlinear_arith);
}

/// The kernels that run before and behind the multiplications are compiled for what the configuration
/// asks for.
pub proof fn law_kernels_follow_the_configuration(
    config: AttentionKernelConfig,
    fallback: AttentionFallback,
)
    requires
        call_ensures(AttentionFallback::new, (&config,), fallback),
    ensures
        fallback.head_dim == config.head_dim,
        fallback.num_groups == config.num_groups,
        fallback.num_q_heads == config.num_q_heads,
        fallback.sliding_window_size == config.sliding_window_size,
        fallback.data_type == config.data_type,
        fallback.kernels.data_type == config.data_type,
        fallback.kernels.is_kv_cache_ring == config.is_kv_cache_ring,
        fallback.kernels.is_causal == config.is_causal,
        fallback.kernels.has_sinks == config.has_sinks,
        !fallback.kernels.has_trie,
        fallback.kernels.has_sliding_window == (config.sliding_window_size is Some),
{
}

/// Only heads of 512 elements in one of two types are run by multiplications.
pub proof fn law_only_wide_heads_are_multiplied(config: AttentionKernelConfig, supported: bool)
    requires
        call_ensures(AttentionFallback::is_supported, (&config,), supported),
    ensures
        supported == (config.head_dim == 512 && (config.data_type == DataType::BF16
            || config.data_type == DataType::F32)),
{
}

} // verus!
