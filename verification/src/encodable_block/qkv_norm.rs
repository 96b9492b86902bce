//! Normalization of the heads of fused projections.
use vstd::prelude::*;

verus! {

/// How a kind of head is normalized.
#[derive(Clone, Copy, Debug, PartialEq, Eq)]
pub struct HeadNorm {
    /// Whether the normalized heads are scaled.
    pub has_scale: bool,
    /// Whether the whole layer is computed in single precision.
    pub full_layer: bool,
}

/// The kinds of heads of a fused projection, in the order in which they lie in a row.
#[derive(Clone, Copy, Debug, PartialEq, Eq, Structural)]
pub enum HeadKind {
    Query,
    Key,
    Value,
}

/// A normalization of heads that lie together.
#[derive(Clone, Copy, Debug, PartialEq, Eq)]
pub struct NormStep {
    pub kind: HeadKind,
    pub norm: HeadNorm,
    pub head_offset: u32,
    pub head_count: u32,
    pub input_row_stride: u32,
}

/// The normalizations of a fused projection.
#[derive(Clone, Copy, Debug, PartialEq, Eq)]
pub struct QKVNorm {
    pub query: Option<HeadNorm>,
    pub key: Option<HeadNorm>,
    pub value: Option<HeadNorm>,
    pub num_q_heads: u32,
    pub num_kv_heads: u32,
    pub projection_row_stride: u32,
    pub head_dim: u32,
}

/// The step of one kind of head, unless there is nothing to normalize.
pub open spec fn steps_of(
    kind: HeadKind,
    norm: Option<HeadNorm>,
    head_offset: int,
    head_count: u32,
    input_row_stride: u32,
) -> Seq<NormStep> {
    match norm {
        Some(norm) => if head_count == 0 {
            Seq::empty()
        } else {
            seq![
                NormStep {
                    kind,
                    norm,
                    head_offset: head_offset as u32,
                    head_count,
                    input_row_stride,
                },
            ]
        },
        None => Seq::empty(),
    }
}

impl QKVNorm {
    /// The normalizations of a fused projection. Values have no scales.
    pub fn new(
        query: Option<HeadNorm>,
        key: Option<HeadNorm>,
        value: Option<HeadNorm>,
        num_q_heads: u32,
        num_kv_heads: u32,
        projection_row_stride: u32,
        head_dim: u32,
    ) -> (norm: QKVNorm)
        requires
            value matches Some(value) ==> !value.has_scale,
        ensures
            norm == (QKVNorm {
                query,
                key,
                value,
                num_q_heads,
                num_kv_heads,
                projection_row_stride,
                head_dim,
            }),
    {
        QKVNorm {
            query,
            key,
            value,
            num_q_heads,
            num_kv_heads,
            projection_row_stride,
            head_dim,
        }
    }

    /// The elements of a row of packed heads.
    pub open spec fn packed_row_width(self, q_heads: u32) -> int {
        (q_heads + 2 * self.num_kv_heads) * self.head_dim
    }

    /// The steps over a row of `q_heads` queries and as many keys and values.
    pub open spec fn packed_steps(self, q_heads: u32, input_row_stride: u32) -> Seq<NormStep> {
        let kv = self.num_kv_heads;
        steps_of(HeadKind::Query, self.query, 0, q_heads, input_row_stride) + steps_of(
            HeadKind::Key,
            self.key,
            q_heads as int,
            kv,
            input_row_stride,
        ) + steps_of(HeadKind::Value, self.value, q_heads + kv, kv, input_row_stride)
    }

    /// The steps that normalize a projection of queries, keys and values.
    pub fn encode(&self) -> (steps: Vec<NormStep>)
        requires
            self.num_q_heads + 2 * self.num_kv_heads <= u32::MAX,
            self.packed_row_width(self.num_q_heads) <= self.projection_row_stride,
        ensures
            steps@ == self.packed_steps(self.num_q_heads, self.projection_row_stride),
    {
        self.encode_packed(self.num_q_heads, self.projection_row_stride)
    }

    /// The steps that normalize a projection of keys and values alone.
    pub fn encode_key_value(&self) -> (steps: Vec<NormStep>)
        requires
            2 * self.num_kv_heads * self.head_dim <= u32::MAX,
            2 * self.num_kv_heads <= u32::MAX,
        ensures
            steps@ == self.packed_steps(0, (2 * self.num_kv_heads * self.head_dim) as u32),
    {
        self.encode_packed(0, 2 * self.num_kv_heads * self.head_dim)
    }

    fn encode_packed(&self, q_heads: u32, input_row_stride: u32) -> (steps: Vec<NormStep>)
        requires
            q_heads + 2 * self.num_kv_heads <= u32::MAX,
            self.packed_row_width(q_heads) <= input_row_stride,
        ensures
            steps@ == self.packed_steps(q_heads, input_row_stride),
    {
        let kv: u32 = self.num_kv_heads;
        let mut steps: Vec<NormStep> = Vec::new();
        if let Some(norm) = self.query {
            if q_heads != 0 {
                steps.push(
                    NormStep {
                        kind: HeadKind::Query,
                        norm,
                        head_offset: 0,
                        head_count: q_heads,
                        input_row_stride,
                    },
                );
            }
        }
        if let Some(norm) = self.key {
            if kv != 0 {
                steps.push(
                    NormStep {
                        kind: HeadKind::Key,
                        norm,
                        head_offset: q_heads,
                        head_count: kv,
                        input_row_stride,
                    },
                );
            }
        }
        if let Some(norm) = self.value {
            if kv != 0 {
                steps.push(
                    NormStep {
                        kind: HeadKind::Value,
                        norm,
                        head_offset: q_heads + kv,
                        head_count: kv,
                        input_row_stride,
                    },
                );
            }
        }
        assert(steps@ =~= self.packed_steps(q_heads, input_row_stride));
        steps
    }
}

/// Every step stays inside the packed heads of a row, and no two steps share a head.
pub proof fn law_norm_steps_are_disjoint(
    norm: QKVNorm,
    q_heads: u32,
    input_row_stride: u32,
    first: int,
    second: int,
)
    requires
        q_heads + 2 * norm.num_kv_heads <= u32::MAX,
        0 <= first < second < norm.packed_steps(q_heads, input_row_stride).len(),
    ensures
        ({
            let steps = norm.packed_steps(q_heads, input_row_stride);
            &&& steps[first].head_offset + steps[first].head_count <= steps[second].head_offset
            &&& steps[second].head_offset + steps[second].head_count <= q_heads + 2
                * norm.num_kv_heads
        }),
{
}

/// The queries come first in a row, then the keys, then the values: a step reads the heads of its kind and
/// normalizes them as that kind is normalized.
pub open spec fn is_step_of(norm: QKVNorm, q_heads: u32, stride: int, step: NormStep) -> bool {
    &&& step.input_row_stride == stride
    &&& step.head_count > 0
    &&& match step.kind {
        HeadKind::Query => norm.query == Some(step.norm) && step.head_offset == 0 && step.head_count
            == q_heads,
        HeadKind::Key => norm.key == Some(step.norm) && step.head_offset == q_heads
            && step.head_count == norm.num_kv_heads,
        HeadKind::Value => norm.value == Some(step.norm) && step.head_offset == q_heads
            + norm.num_kv_heads && step.head_count == norm.num_kv_heads,
    }
}

/// How many kinds of heads are there and normalized.
pub open spec fn normalized_kinds(norm: QKVNorm, q_heads: u32) -> int {
    (if norm.query is Some && q_heads > 0 {
        1int
    } else {
        0
    }) + (if norm.key is Some && norm.num_kv_heads > 0 {
        1int
    } else {
        0
    }) + (if norm.value is Some && norm.num_kv_heads > 0 {
        1int
    } else {
        0
    })
}

/// Each kind of head of a projection that is normalized is normalized by one step, over the heads of that
/// kind.
pub proof fn law_every_kind_is_normalized_once(norm: QKVNorm, steps: Vec<NormStep>, at: int)
    requires
        norm.num_q_heads + 2 * norm.num_kv_heads <= u32::MAX,
        call_ensures(QKVNorm::encode, (&norm,), steps),
        0 <= at < steps@.len(),
    ensures
        is_step_of(norm, norm.num_q_heads, norm.projection_row_stride as int, steps@[at]),
        steps@.len() == normalized_kinds(norm, norm.num_q_heads),
        forall|other: int|
            0 <= other < steps@.len() && other != at ==> (#[trigger] steps@[other]).kind
                != steps@[at].kind,
{
}

/// A projection without queries holds the keys and then the values, in rows of their width.
pub proof fn law_keys_and_values_are_normalized_once(norm: QKVNorm, steps: Vec<NormStep>, at: int)
    requires
        2 * norm.num_kv_heads * norm.head_dim <= u32::MAX,
        2 * norm.num_kv_heads <= u32::MAX,
        call_ensures(QKVNorm::encode_key_value, (&norm,), steps),
        0 <= at < steps@.len(),
    ensures
        is_step_of(norm, 0, 2 * norm.num_kv_heads * norm.head_dim, steps@[at]),
        steps@.len() == normalized_kinds(norm, 0),
        forall|other: int|
            0 <= other < steps@.len() && other != at ==> (#[trigger] steps@[other]).kind
                != steps@[at].kind,
{
    assert(2 * norm.num_kv_heads * norm.head_dim >= 0) by (nonlinear_arith);
}

/// Where nothing is normalized there is no step.
pub proof fn law_all_kinds_have_their_steps(norm: QKVNorm, steps: Vec<NormStep>, pair: Vec<NormStep>)
    requires
        call_ensures(QKVNorm::encode, (&norm,), steps),
        call_ensures(QKVNorm::encode_key_value, (&norm,), pair),
    ensures
        steps@.len() == normalized_kinds(norm, norm.num_q_heads),
        pair@.len() == normalized_kinds(norm, 0),
{
}

} // verus!
