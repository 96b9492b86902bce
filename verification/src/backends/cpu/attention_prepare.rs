//! Splitting of fused projections into queries, keys and values.
//!
//! Elements are brain floats, given as their bit patterns.
use vstd::prelude::*;

verus! {

/// The keys and values of a projection.
#[derive(Clone, Copy, Debug, PartialEq, Eq)]
pub struct KeyValueShape {
    pub num_kv_heads: usize,
    /// The tokens that the caches of keys and values hold already.
    pub kv_token_offset: usize,
}

/// The extents of a fused projection.
#[derive(Clone, Copy, Debug, PartialEq, Eq)]
pub struct PrepareShape {
    pub num_q_heads: usize,
    pub kv: Option<KeyValueShape>,
    pub head_dim: usize,
    /// How many leading elements of a query or key are rotated.
    pub rope_dim: Option<usize>,
    /// The elements from one token's row to the next.
    pub input_row_stride: usize,
    pub batch_dim: usize,
}

impl PrepareShape {
    /// The heads of a row.
    pub open spec fn total_heads(self) -> int {
        match self.kv {
            Some(kv) => self.num_q_heads + 2 * kv.num_kv_heads,
            None => self.num_q_heads as int,
        }
    }

    /// The heads that are rotated: queries and keys.
    pub open spec fn rotated_heads(self) -> int {
        match self.kv {
            Some(kv) => self.num_q_heads + kv.num_kv_heads,
            None => self.num_q_heads as int,
        }
    }

    /// There is a head, heads have elements, an even number of them is rotated, and a row holds all
    /// heads.
    pub open spec fn wf(self) -> bool {
        &&& self.num_q_heads > 0 || self.kv is Some
        &&& self.head_dim > 0
        &&& self.kv matches Some(kv) ==> kv.num_kv_heads > 0
        &&& self.rope_dim matches Some(rope_dim) ==> 0 < rope_dim <= self.head_dim && rope_dim % 2
            == 0
        &&& self.input_row_stride >= self.total_heads() * self.head_dim
    }

    /// Where an element of a projection lies.
    pub open spec fn source(self, token: int, head: int, element: int) -> int {
        token * self.input_row_stride + head * self.head_dim + element
    }

    /// The rows of all tokens lie inside `length` elements.
    pub open spec fn is_inside(self, length: int) -> bool {
        self.batch_dim > 0 ==> (self.batch_dim - 1) * self.input_row_stride + self.total_heads()
            * self.head_dim <= length
    }

    /// The element of a projection, rotated where it is rotated.
    pub open spec fn prepared(
        self,
        qkv: Seq<u16>,
        rotated: Seq<u16>,
        token: int,
        head: int,
        element: int,
    ) -> u16 {
        let source = self.source(token, head, element);
        if head < self.rotated_heads() && (self.rope_dim matches Some(rope_dim) && element
            < rope_dim) {
            rotated[source]
        } else {
            qkv[source]
        }
    }

    /// The elements of all queries.
    pub open spec fn query_count(self) -> int {
        self.num_q_heads * self.batch_dim * self.head_dim
    }

    /// Where an element of a query goes: all tokens of a head lie together.
    pub open spec fn query_target(self, token: int, head: int, element: int) -> int {
        (head * self.batch_dim + token) * self.head_dim + element
    }

    /// The query that is stored at `index`.
    pub open spec fn query_at(self, qkv: Seq<u16>, rotated: Seq<u16>, index: int) -> u16 {
        let block = index / self.head_dim as int;
        self.prepared(
            qkv,
            rotated,
            block % self.batch_dim as int,
            block / self.batch_dim as int,
            index % self.head_dim as int,
        )
    }
}

/// The heads of all tokens before `token` in a cache of keys or values.
pub open spec fn cache_target(
    kv: KeyValueShape,
    shape: PrepareShape,
    token: int,
    head: int,
    element: int,
) -> int {
    ((kv.kv_token_offset + token) * kv.num_kv_heads + head) * shape.head_dim + element
}

/// Where the new keys or values begin in their cache.
pub open spec fn cache_start(kv: KeyValueShape, shape: PrepareShape) -> int {
    kv.kv_token_offset * kv.num_kv_heads * shape.head_dim
}

/// The new keys or values.
pub open spec fn cache_count(kv: KeyValueShape, shape: PrepareShape) -> int {
    shape.batch_dim * kv.num_kv_heads * shape.head_dim
}

/// The key or value that is stored `index` elements behind the start of the new ones;
/// `first_head` is the head of the projection that the first of them comes from.
pub open spec fn cached_at(
    kv: KeyValueShape,
    shape: PrepareShape,
    qkv: Seq<u16>,
    rotated: Seq<u16>,
    first_head: int,
    index: int,
) -> u16 {
    let block = index / shape.head_dim as int;
    shape.prepared(
        qkv,
        rotated,
        block / kv.num_kv_heads as int,
        first_head + block % kv.num_kv_heads as int,
        index % shape.head_dim as int,
    )
}

/// `after` holds the new elements in place of those of `before`, and the others unchanged.
pub open spec fn is_filled(
    before: Seq<u16>,
    after: Seq<u16>,
    start: int,
    count: int,
    element: spec_fn(int) -> u16,
) -> bool {
    &&& after.len() == before.len()
    &&& forall|i: int|
        0 <= i < after.len() ==> #[trigger] after[i] == if start <= i < start + count {
            element(i - start)
        } else {
            before[i]
        }
}

proof fn lemma_block(index: int, size: int, blocks: int)
    requires
        size > 0,
        0 <= index < blocks * size,
    ensures
        0 <= index / size < blocks,
        0 <= index % size < size,
{
    assert(0 <= index / size < blocks && 0 <= index % size < size) by (nonlinear_arith)
        requires
            size > 0,
            0 <= index < blocks * size,
    ;
}

proof fn lemma_source_is_inside(
    shape: PrepareShape,
    length: int,
    token: int,
    head: int,
    element: int,
)
    requires
        shape.wf(),
        shape.is_inside(length),
        0 <= token < shape.batch_dim,
        0 <= head < shape.total_heads(),
        0 <= element < shape.head_dim,
    ensures
        0 <= shape.source(token, head, element) < length,
        0 <= token * shape.input_row_stride <= shape.source(token, head, element),
        0 <= head * shape.head_dim <= shape.source(token, head, element),
{
    let stride = shape.input_row_stride as int;
    let size = shape.head_dim as int;
    let heads = shape.total_heads();
    assert(0 <= token * stride <= (shape.batch_dim - 1) * stride) by (nonlinear_arith)
        requires
            0 <= token <= shape.batch_dim - 1,
            stride >= 0,
    ;
    assert(0 <= head * size && head * size + element < heads * size) by (nonlinear_arith)
        requires
            0 <= head < heads,
            0 <= element < size,
    ;
}

/// The prepared element of a projection.
fn prepared_element(
    shape: &PrepareShape,
    qkv: &[u16],
    rotated: &[u16],
    token: usize,
    head: usize,
    element: usize,
) -> (value: u16)
    requires
        shape.wf(),
        shape.is_inside(qkv@.len() as int),
        rotated@.len() == qkv@.len(),
        token < shape.batch_dim,
        head < shape.total_heads(),
        element < shape.head_dim,
        shape.total_heads() <= usize::MAX,
    ensures
        value == shape.prepared(qkv@, rotated@, token as int, head as int, element as int),
{
    proof {
        lemma_source_is_inside(
            *shape,
            qkv@.len() as int,
            token as int,
            head as int,
            element as int,
        );
        assert(qkv@.len() == qkv.len());
    }
    let source: usize = token * shape.input_row_stride + head * shape.head_dim + element;
    let rotated_heads: usize = match shape.kv {
        Some(kv) => shape.num_q_heads + kv.num_kv_heads,
        None => shape.num_q_heads,
    };
    let rotates: bool = match shape.rope_dim {
        Some(rope_dim) => head < rotated_heads && element < rope_dim,
        None => false,
    };
    if rotates {
        rotated[source]
    } else {
        qkv[source]
    }
}

/// Stores the keys or the values, whose heads begin at `first_head`.
fn fill_cache(
    shape: &PrepareShape,
    kv: KeyValueShape,
    qkv: &[u16],
    rotated: &[u16],
    first_head: usize,
    cache: &mut Vec<u16>,
)
    requires
        shape.wf(),
        shape.kv == Some(kv),
        shape.is_inside(qkv@.len() as int),
        rotated@.len() == qkv@.len(),
        shape.total_heads() <= usize::MAX,
        first_head == shape.num_q_heads || first_head == shape.num_q_heads + kv.num_kv_heads,
        cache_start(kv, *shape) + cache_count(kv, *shape) <= old(cache)@.len(),
    ensures
        is_filled(
            old(cache)@,
            final(cache)@,
            cache_start(kv, *shape),
            cache_count(kv, *shape),
            |index: int| cached_at(kv, *shape, qkv@, rotated@, first_head as int, index),
        ),
{
    let ghost before = cache@;
    let size: usize = shape.head_dim;
    let heads: usize = kv.num_kv_heads;
    let length: usize = cache.len();
    proof {
        lemma_cache_products(kv, *shape, length as int);
    }
    let start: usize = kv.kv_token_offset * heads * size;
    let count: usize = shape.batch_dim * heads * size;
    let mut i: usize = 0;
    while i < count
        invariant
            i <= count,
            shape.wf(),
            shape.kv == Some(kv),
            shape.is_inside(qkv@.len() as int),
            rotated@.len() == qkv@.len(),
            shape.total_heads() <= usize::MAX,
            first_head == shape.num_q_heads || first_head == shape.num_q_heads + kv.num_kv_heads,
            size == shape.head_dim,
            heads == kv.num_kv_heads,
            start + count <= before.len(),
            before.len() <= usize::MAX,
            count == shape.batch_dim * heads * size,
            cache@.len() == before.len(),
            forall|j: int|
                0 <= j < before.len() ==> #[trigger] cache@[j] == if start <= j < start + i {
                    cached_at(kv, *shape, qkv@, rotated@, first_head as int, j - start)
                } else {
                    before[j]
                },
        decreases count - i,
    {
        proof {
            lemma_block(i as int, size as int, shape.batch_dim * heads);
        }
        let block: usize = i / size;
        proof {
            lemma_block(block as int, heads as int, shape.batch_dim as int);
        }
        let value: u16 = prepared_element(
            shape,
            qkv,
            rotated,
            block / heads,
            first_head + block % heads,
            i % size,
        );
        cache.set(start + i, value);
        i += 1;
    }
}

proof fn lemma_cache_products(kv: KeyValueShape, shape: PrepareShape, length: int)
    requires
        shape.head_dim > 0,
        kv.num_kv_heads > 0,
        cache_start(kv, shape) + cache_count(kv, shape) <= length,
    ensures
        0 <= kv.kv_token_offset * kv.num_kv_heads <= cache_start(kv, shape) <= length,
        0 <= shape.batch_dim * kv.num_kv_heads <= cache_count(kv, shape) <= length,
{
    lemma_product(kv.kv_token_offset as int, kv.num_kv_heads as int, shape.head_dim as int);
    lemma_product(shape.batch_dim as int, kv.num_kv_heads as int, shape.head_dim as int);
}

proof fn lemma_product(first: int, second: int, third: int)
    requires
        first >= 0,
        second >= 0,
        third > 0,
    ensures
        0 <= first * second <= first * second * third,
{
    assert(0 <= first * second) by (nonlinear_arith)
        requires
            first >= 0,
            second >= 0,
    ;
    assert(first * second <= first * second * third) by (nonlinear_arith)
        requires
            first * second >= 0,
            third > 0,
    ;
}

/// The element that a rotated element is combined with, and whether it is negated.
#[derive(Clone, Copy, Debug, PartialEq, Eq)]
pub struct RopePartner {
    pub index: usize,
    pub negated: bool,
}

pub open spec fn partner_of(element: int, rope_dim: int) -> int {
    if element < rope_dim / 2 {
        element + rope_dim / 2
    } else {
        element - rope_dim / 2
    }
}

/// The element of the other half that `element` is combined with; the first half subtracts it.
pub fn rope_partner(element: usize, rope_dim: usize) -> (partner: RopePartner)
    requires
        rope_dim % 2 == 0,
        element < rope_dim,
    ensures
        partner.index == partner_of(element as int, rope_dim as int),
        partner.index < rope_dim,
        partner.negated == (element < rope_dim / 2),
{
    let half: usize = rope_dim / 2;
    if element < half {
        RopePartner { index: element + half, negated: true }
    } else {
        RopePartner { index: element - half, negated: false }
    }
}

/// Rotation combines elements in pairs: an element is the partner of its partner, and one of the two
/// subtracts the other.
pub proof fn law_rope_partners_are_pairs(element: int, rope_dim: int)
    requires
        rope_dim % 2 == 0,
        0 <= element < rope_dim,
    ensures
        partner_of(partner_of(element, rope_dim), rope_dim) == element,
        (element < rope_dim / 2) != (partner_of(element, rope_dim) < rope_dim / 2),
{
}

/// Splits a fused projection. `rotated` holds, at the place of each element of a query or key that
/// is rotated, its rotated value.
///
/// Keys and values are appended to their caches; without them the caches are left as they are.
pub fn attention_prepare(
    shape: &PrepareShape,
    qkv: &[u16],
    rotated: &[u16],
    queries: &mut Vec<u16>,
    keys: &mut Vec<u16>,
    values: &mut Vec<u16>,
)
    requires
        shape.wf(),
        shape.is_inside(qkv@.len() as int),
        rotated@.len() == qkv@.len(),
        shape.total_heads() <= usize::MAX,
        shape.query_count() <= old(queries)@.len(),
        shape.kv matches Some(kv) ==> cache_start(kv, *shape) + cache_count(kv, *shape)
            <= old(keys)@.len() && cache_start(kv, *shape) + cache_count(kv, *shape)
            <= old(values)@.len(),
    ensures
        is_filled(
            old(queries)@,
            final(queries)@,
            0,
            shape.query_count(),
            |index: int| shape.query_at(qkv@, rotated@, index),
        ),
        match shape.kv {
            Some(kv) => {
                &&& is_filled(
                    old(keys)@,
                    final(keys)@,
                    cache_start(kv, *shape),
                    cache_count(kv, *shape),
                    |index: int|
                        cached_at(
                            kv,
                            *shape,
                            qkv@,
                            rotated@,
                            shape.num_q_heads as int,
                            index,
                        ),
                )
                &&& is_filled(
                    old(values)@,
                    final(values)@,
                    cache_start(kv, *shape),
                    cache_count(kv, *shape),
                    |index: int|
                        cached_at(
                            kv,
                            *shape,
                            qkv@,
                            rotated@,
                            shape.num_q_heads + kv.num_kv_heads,
                            index,
                        ),
                )
            },
            None => final(keys)@ == old(keys)@ && final(values)@ == old(values)@,
        },
{
    let ghost before = queries@;
    let size: usize = shape.head_dim;
    let length: usize = queries.len();
    proof {
        lemma_product(shape.num_q_heads as int, shape.batch_dim as int, size as int);
    }
    let count: usize = shape.num_q_heads * shape.batch_dim * size;
    let mut i: usize = 0;
    while i < count
        invariant
            i <= count,
            shape.wf(),
            shape.is_inside(qkv@.len() as int),
            rotated@.len() == qkv@.len(),
            shape.total_heads() <= usize::MAX,
            size == shape.head_dim,
            count == shape.query_count() <= before.len(),
            queries@.len() == before.len(),
            forall|j: int|
                0 <= j < before.len() ==> #[trigger] queries@[j] == if 0 <= j < i {
                    shape.query_at(qkv@, rotated@, j)
                } else {
                    before[j]
                },
        decreases count - i,
    {
        proof {
            lemma_block(i as int, size as int, shape.num_q_heads * shape.batch_dim);
            if shape.batch_dim == 0 {
                assert(shape.num_q_heads * shape.batch_dim == 0) by (nonlinear_arith)
                    requires
                        shape.batch_dim == 0,
                ;
            }
        }
        let block: usize = i / size;
        proof {
            lemma_block(block as int, shape.batch_dim as int, shape.num_q_heads as int);
        }
        let value: u16 = prepared_element(
            shape,
            qkv,
            rotated,
            block % shape.batch_dim,
            block / shape.batch_dim,
            i % size,
        );
        queries.set(i, value);
        i += 1;
    }
    if let Some(kv) = shape.kv {
        fill_cache(shape, kv, qkv, rotated, shape.num_q_heads, keys);
        fill_cache(shape, kv, qkv, rotated, shape.num_q_heads + kv.num_kv_heads, values);
    }
}

proof fn lemma_split(block: int, size: int, element: int)
    requires
        size > 0,
        0 <= element < size,
    ensures
        (block * size + element) / size == block,
        (block * size + element) % size == element,
{
    vstd::arithmetic::div_mod::lemma_fundamental_div_mod_converse(
        block * size + element,
        size,
        block,
        element,
    );
}

/// Every query of the projection is stored once, all tokens of a head together.
pub proof fn law_queries_are_stored_head_by_head(
    shape: PrepareShape,
    qkv: Seq<u16>,
    rotated: Seq<u16>,
    token: int,
    head: int,
    element: int,
)
    requires
        shape.wf(),
        0 <= token < shape.batch_dim,
        0 <= head < shape.num_q_heads,
        0 <= element < shape.head_dim,
    ensures
        0 <= shape.query_target(token, head, element) < shape.query_count(),
        shape.query_at(qkv, rotated, shape.query_target(token, head, element)) == shape.prepared(
            qkv,
            rotated,
            token,
            head,
            element,
        ),
{
    let block = head * shape.batch_dim + token;
    lemma_split(block, shape.head_dim as int, element);
    lemma_split(head, shape.batch_dim as int, token);
    assert(0 <= block < shape.num_q_heads * shape.batch_dim) by (nonlinear_arith)
        requires
            0 <= token < shape.batch_dim,
            0 <= head < shape.num_q_heads,
            block == head * shape.batch_dim + token,
    ;
    assert(0 <= block * shape.head_dim + element < shape.num_q_heads * shape.batch_dim
        * shape.head_dim) by (nonlinear_arith)
        requires
            0 <= block < shape.num_q_heads * shape.batch_dim,
            0 <= element < shape.head_dim,
    ;
}

/// Every key and every value of the projection is stored once, all heads of a token together, behind
/// the tokens that were there.
pub proof fn law_cache_is_stored_token_by_token(
    shape: PrepareShape,
    kv: KeyValueShape,
    qkv: Seq<u16>,
    rotated: Seq<u16>,
    first_head: int,
    token: int,
    head: int,
    element: int,
)
    requires
        shape.wf(),
        shape.kv == Some(kv),
        0 <= token < shape.batch_dim,
        0 <= head < kv.num_kv_heads,
        0 <= element < shape.head_dim,
    ensures
        ({
            let index = cache_target(kv, shape, token, head, element) - cache_start(kv, shape);
            &&& 0 <= index < cache_count(kv, shape)
            &&& cached_at(kv, shape, qkv, rotated, first_head, index) == shape.prepared(
                qkv,
                rotated,
                token,
                first_head + head,
                element,
            )
        }),
{
    let heads = kv.num_kv_heads as int;
    let size = shape.head_dim as int;
    let block = token * heads + head;
    let index = cache_target(kv, shape, token, head, element) - cache_start(kv, shape);
    assert(index == block * size + element) by (nonlinear_arith)
        requires
            index == ((kv.kv_token_offset + token) * heads + head) * size + element
                - kv.kv_token_offset * heads * size,
            block == token * heads + head,
    ;
    lemma_split(block, size, element);
    lemma_split(token, heads, head);
    assert(0 <= block < shape.batch_dim * heads) by (nonlinear_arith)
        requires
            0 <= token < shape.batch_dim,
            0 <= head < heads,
            block == token * heads + head,
    ;
    assert(0 <= block * size + element < shape.batch_dim * heads * size) by (nonlinear_arith)
        requires
            0 <= block < shape.batch_dim * heads,
            0 <= element < size,
    ;
}

/// A projection is split: the queries are stored head by head, the keys and values token by token behind
/// those that were there. The leading elements of queries and keys are rotated, all others are stored
/// as they are.
pub proof fn law_projection_is_split(
    shape: PrepareShape,
    qkv: &[u16],
    rotated: &[u16],
    queries: &mut Vec<u16>,
    keys: &mut Vec<u16>,
    values: &mut Vec<u16>,
    token: int,
    head: int,
    element: int,
)
    requires
        shape.wf(),
        shape.num_q_heads * shape.batch_dim * shape.head_dim <= old(queries)@.len(),
        shape.kv matches Some(kv) ==> kv.kv_token_offset * kv.num_kv_heads * shape.head_dim
            + shape.batch_dim * kv.num_kv_heads * shape.head_dim <= old(keys)@.len(),
        shape.kv matches Some(kv) ==> kv.kv_token_offset * kv.num_kv_heads * shape.head_dim
            + shape.batch_dim * kv.num_kv_heads * shape.head_dim <= old(values)@.len(),
        call_ensures(attention_prepare, (&shape, qkv, rotated, queries, keys, values), ()),
        0 <= token < shape.batch_dim,
        0 <= head,
        0 <= element < shape.head_dim,
    ensures
        ({
            let row = token * shape.input_row_stride;
            let rotates = shape.rope_dim matches Some(rope_dim) && element < rope_dim;
            let width = shape.head_dim;
            let query = row + head * width + element;
            &&& head < shape.num_q_heads ==> final(queries)@[(head * shape.batch_dim + token) * width
                + element] == if rotates {
                rotated@[query]
            } else {
                qkv@[query]
            }
            &&& shape.kv matches Some(kv) ==> (head < kv.num_kv_heads ==> {
                let target = ((kv.kv_token_offset + token) * kv.num_kv_heads + head) * width + element;
                let key = row + (shape.num_q_heads + head) * width + element;
                let value = row + (shape.num_q_heads + kv.num_kv_heads + head) * width + element;
                &&& final(keys)@[target] == if rotates {
                    rotated@[key]
                } else {
                    qkv@[key]
                }
                &&& final(values)@[target] == qkv@[value]
            })
        }),
{
    if head < shape.num_q_heads {
        law_queries_are_stored_head_by_head(shape, qkv@, rotated@, token, head, element);
    }
    if let Some(kv) = shape.kv {
        if head < kv.num_kv_heads {
            let first = shape.num_q_heads as int;
            law_cache_is_stored_token_by_token(
                shape,
                kv,
                qkv@,
                rotated@,
                first,
                token,
                head,
                element,
            );
            law_cache_is_stored_token_by_token(
                shape,
                kv,
                qkv@,
                rotated@,
                first + kv.num_kv_heads,
                token,
                head,
                element,
            );
        }
    }
}

/// What the caches held, and what lies behind the new elements, is left as it was; so is everything where
/// a projection holds no keys and values.
pub proof fn law_split_leaves_the_rest(
    shape: PrepareShape,
    qkv: &[u16],
    rotated: &[u16],
    queries: &mut Vec<u16>,
    keys: &mut Vec<u16>,
    values: &mut Vec<u16>,
    at: int,
)
    requires
        call_ensures(attention_prepare, (&shape, qkv, rotated, queries, keys, values), ()),
    ensures
        final(queries)@.len() == old(queries)@.len(),
        final(keys)@.len() == old(keys)@.len(),
        final(values)@.len() == old(values)@.len(),
        shape.num_q_heads * shape.batch_dim * shape.head_dim <= at < old(queries)@.len()
            ==> final(queries)@[at] == old(queries)@[at],
        shape.kv is None ==> final(keys)@ == old(keys)@ && final(values)@ == old(values)@,
        shape.kv matches Some(kv) ==> {
            let start = kv.kv_token_offset * kv.num_kv_heads * shape.head_dim;
            let end = start + shape.batch_dim * kv.num_kv_heads * shape.head_dim;
            &&& 0 <= at < old(keys)@.len() && !(start <= at < end) ==> final(keys)@[at] == old(
                keys,
            )@[at]
            &&& 0 <= at < old(values)@.len() && !(start <= at < end) ==> final(values)@[at] == old(
                values,
            )@[at]
        },
{
    assert(shape.num_q_heads * shape.batch_dim * shape.head_dim >= 0) by (nonlinear_arith);
}

/// A rotated element is combined with the one half a rotation away, which the first half subtracts.
pub proof fn law_partners_are_half_a_rotation_apart(
    element: usize,
    rope_dim: usize,
    partner: RopePartner,
)
    requires
        rope_dim % 2 == 0,
        element < rope_dim,
        call_ensures(rope_partner, (element, rope_dim), partner),
    ensures
        partner.negated <==> partner.index > element,
        partner.negated ==> 2 * (partner.index - element) == rope_dim,
        !partner.negated ==> 2 * (element - partner.index) == rope_dim,
{
}

} // verus!
