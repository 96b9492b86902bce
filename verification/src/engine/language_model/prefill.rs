//! How a prompt is cut into the batches of the prefill pass.
use vstd::prelude::*;

use crate::arithmetic::div_ceil;

verus! {

/// The most tokens that one prefill batch may hold.
pub const MAX_BATCH_SIZE: usize = 1024;

/// A run of prompt tokens that is encoded at once.
#[derive(Clone, Copy, Debug, PartialEq, Eq)]
pub struct PrefillPart {
    /// The index of the first token in the prompt.
    pub start: usize,
    /// The number of tokens.
    pub length: usize,
    /// Whether the next token is sampled behind the last token of the part.
    pub sample_last: bool,
}

/// A batch that begins at `start`, cut so that the row whose logits are sampled stands alone where
/// `split_logits_row` asks for it.
pub open spec fn batch_parts(
    start: int,
    length: int,
    last_batch: bool,
    split_logits_row: bool,
) -> Seq<PrefillPart> {
    if last_batch && split_logits_row && length > 1 {
        seq![
            PrefillPart { start: start as usize, length: (length - 1) as usize, sample_last: false },
            PrefillPart { start: (start + length - 1) as usize, length: 1, sample_last: true },
        ]
    } else {
        seq![PrefillPart { start: start as usize, length: length as usize, sample_last: last_batch }]
    }
}

/// The number of batches that `length` tokens fill.
pub open spec fn batch_count(length: int) -> int {
    (length + MAX_BATCH_SIZE - 1) / MAX_BATCH_SIZE as int
}

/// The parts of the first `batches` batches of a prompt of `length` tokens.
pub open spec fn leading_parts(length: int, split_logits_row: bool, batches: nat) -> Seq<PrefillPart>
    decreases batches,
{
    if batches == 0 {
        Seq::empty()
    } else {
        let start = (batches - 1) * MAX_BATCH_SIZE;
        let rest = length - start;
        leading_parts(length, split_logits_row, (batches - 1) as nat) + batch_parts(
            start,
            if rest < MAX_BATCH_SIZE {
                rest
            } else {
                MAX_BATCH_SIZE as int
            },
            batches == batch_count(length),
            split_logits_row,
        )
    }
}

/// The parts in which a prompt of `length` tokens is encoded.
pub open spec fn parts_of(length: int, split_logits_row: bool) -> Seq<PrefillPart> {
    leading_parts(length, split_logits_row, batch_count(length) as nat)
}

/// The index behind the last token of the first `count` parts.
pub open spec fn covered(parts: Seq<PrefillPart>, count: int) -> int
    recommends
        0 <= count <= parts.len(),
{
    if count <= 0 {
        0
    } else {
        parts[count - 1].start + parts[count - 1].length
    }
}

/// Each part starts where the one before it ends, is not empty and fits a batch.
pub open spec fn parts_are_contiguous(parts: Seq<PrefillPart>) -> bool {
    forall|i: int|
        0 <= i < parts.len() ==> {
            &&& (#[trigger] parts[i]).start == covered(parts, i)
            &&& 0 < parts[i].length <= MAX_BATCH_SIZE
        }
}

/// Cuts one batch of a prompt, which starts at `start`, into its parts.
pub fn prefill_chunk_parts(
    start: usize,
    length: usize,
    last_batch: bool,
    split_logits_row: bool,
) -> (parts: Vec<PrefillPart>)
    requires
        start + length <= usize::MAX,
    ensures
        parts@ == batch_parts(start as int, length as int, last_batch, split_logits_row),
{
    let mut parts: Vec<PrefillPart> = Vec::new();
    if last_batch && split_logits_row && length > 1 {
        parts.push(PrefillPart { start, length: length - 1, sample_last: false });
        parts.push(PrefillPart { start: start + (length - 1), length: 1, sample_last: true });
    } else {
        parts.push(PrefillPart { start, length, sample_last: last_batch });
    }
    assert(parts@ =~= batch_parts(start as int, length as int, last_batch, split_logits_row));
    parts
}

/// Cuts a prompt into the parts of its prefill pass.
pub fn prefill_parts(length: usize, split_logits_row: bool) -> (parts: Vec<PrefillPart>)
    ensures
        parts@ == parts_of(length as int, split_logits_row),
{
    let batches: usize = div_ceil(length, MAX_BATCH_SIZE);
    let mut parts: Vec<PrefillPart> = Vec::new();
    let mut batch: usize = 0;
    while batch < batches
        invariant
            batches == batch_count(length as int),
            batch <= batches,
            parts@ == leading_parts(length as int, split_logits_row, batch as nat),
        decreases batches - batch,
    {
        assert(batch * MAX_BATCH_SIZE < length);
        let start: usize = batch * MAX_BATCH_SIZE;
        let rest: usize = length - start;
        let batch_length: usize = if rest < MAX_BATCH_SIZE {
            rest
        } else {
            MAX_BATCH_SIZE
        };
        let mut batch_parts: Vec<PrefillPart> = prefill_chunk_parts(
            start,
            batch_length,
            batch + 1 == batches,
            split_logits_row,
        );
        parts.append(&mut batch_parts);
        batch += 1;
    }
    parts
}

/// The parts follow each other without a gap or an overlap from the start of the prompt to its
/// end, and the next token is sampled behind the last one alone.
pub proof fn law_parts_cover_the_prompt(length: int, split_logits_row: bool)
    requires
        0 < length <= usize::MAX,
    ensures
        ({
            let parts = parts_of(length, split_logits_row);
            &&& parts.len() > 0
            &&& parts_are_contiguous(parts)
            &&& covered(parts, parts.len() as int) == length
            &&& forall|i: int|
                0 <= i < parts.len() ==> ((#[trigger] parts[i]).sample_last <==> i == parts.len()
                    - 1)
        }),
{
    lemma_leading_parts(length, split_logits_row, batch_count(length) as nat);
}

proof fn lemma_leading_parts(length: int, split_logits_row: bool, batches: nat)
    requires
        0 < length <= usize::MAX,
        batches <= batch_count(length),
    ensures
        ({
            let parts = leading_parts(length, split_logits_row, batches);
            &&& batches > 0 ==> parts.len() > 0
            &&& parts_are_contiguous(parts)
            &&& covered(parts, parts.len() as int) == if batches * MAX_BATCH_SIZE < length {
                batches * MAX_BATCH_SIZE
            } else {
                length
            }
            &&& forall|i: int|
                0 <= i < parts.len() ==> ((#[trigger] parts[i]).sample_last <==> i == parts.len()
                    - 1 && batches == batch_count(length))
        }),
    decreases batches,
{
    if batches > 0 {
        let previous = leading_parts(length, split_logits_row, (batches - 1) as nat);
        lemma_leading_parts(length, split_logits_row, (batches - 1) as nat);
        let parts = leading_parts(length, split_logits_row, batches);
        let start = (batches - 1) * MAX_BATCH_SIZE;
        assert(start < length);
        assert(covered(previous, previous.len() as int) == start);
        assert forall|i: int| 0 <= i < parts.len() implies {
            &&& (#[trigger] parts[i]).start == covered(parts, i)
            &&& 0 < parts[i].length <= MAX_BATCH_SIZE
            &&& parts[i].sample_last <==> i == parts.len() - 1 && batches == batch_count(length)
        } by {
            if i < previous.len() {
                assert(parts[i] == previous[i]);
                if i > 0 {
                    assert(parts[i - 1] == previous[i - 1]);
                }
            } else if i == previous.len() && i > 0 {
                assert(parts[i - 1] == previous[i - 1]);
            }
        }
    }
}

/// Batches of 1024 tokens are encoded whole: where the sampled row does not stand alone, every part but
/// the last is one of them. Where it stands alone, the last part is the last token and the parts
/// before it are what the prompt would be cut into without it.
pub proof fn law_batches_are_full(length: int, split_logits_row: bool)
    requires
        0 < length <= usize::MAX,
    ensures
        ({
            let parts = parts_of(length, split_logits_row);
            let last = parts.len() - 1;
            &&& !split_logits_row ==> forall|i: int|
                0 <= i < last ==> (#[trigger] parts[i]).length == 1024
            &&& !split_logits_row ==> parts[last].length + 1024 * last == length
            &&& split_logits_row ==> parts[last].length == 1 && parts[last].start == length - 1
            &&& split_logits_row ==> forall|i: int|
                0 <= i < last ==> (#[trigger] parts[i]).start == 1024 * i && (parts[i].length == 1024 || i
                    == last - 1)
        }),
{
    let batches = batch_count(length) as nat;
    lemma_full_batches(length, split_logits_row, batches);
    law_parts_cover_the_prompt(length, split_logits_row);
}

proof fn lemma_full_batches(length: int, split_logits_row: bool, batches: nat)
    requires
        0 < length <= usize::MAX,
        batches <= batch_count(length),
    ensures
        ({
            let parts = leading_parts(length, split_logits_row, batches);
            let whole = if batches == batch_count(length) {
                batches - 1
            } else {
                batches as int
            };
            let rest = length - 1024 * whole;
            &&& whole <= parts.len()
            &&& forall|i: int|
                0 <= i < whole ==> (#[trigger] parts[i]).start == 1024 * i && parts[i].length == 1024
            &&& batches < batch_count(length) ==> parts.len() == batches
            &&& batches == batch_count(length) ==> if split_logits_row && rest > 1 {
                parts.len() == batches + 1 && parts[whole].start == 1024 * whole && parts[whole].length
                    == rest - 1 && parts[whole + 1].length == 1 && parts[whole + 1].start == length - 1
            } else {
                parts.len() == batches && parts[whole].start == 1024 * whole && parts[whole].length
                    == rest
            }
        }),
    decreases batches,
{
    if batches > 0 {
        let previous = leading_parts(length, split_logits_row, (batches - 1) as nat);
        lemma_full_batches(length, split_logits_row, (batches - 1) as nat);
        let parts = leading_parts(length, split_logits_row, batches);
        assert forall|i: int| 0 <= i < previous.len() implies #[trigger] parts[i] == previous[i] by {}
    }
}

} // verus!
