//! Selection of the experts with the greatest logits.
//!
//! Logits are single precision numbers, given as their bit patterns.
use vstd::prelude::*;

verus! {

/// The bit pattern of the lowest exponent that no finite number has.
pub const INFINITE_EXPONENT: u32 = 0x7f80_0000;

/// The weight of the sign bit.
pub const SIGN_BIT: u32 = 0x8000_0000;

/// The bit pattern is that of a finite number.
pub open spec fn spec_is_finite(bits: u32) -> bool {
    bits % SIGN_BIT < INFINITE_EXPONENT
}

/// Whether the bit pattern is that of a finite number.
#[verifier::when_used_as_spec(spec_is_finite)]
pub fn is_finite(bits: u32) -> (finite: bool)
    ensures
        finite == spec_is_finite(bits),
{
    bits % SIGN_BIT < INFINITE_EXPONENT
}

/// A number that orders bit patterns of finite numbers as the numbers: its magnitude is that of the
/// pattern without the sign, so that both zeros are equal.
pub open spec fn spec_order_key(bits: u32) -> int {
    if bits < SIGN_BIT {
        bits as int
    } else {
        SIGN_BIT - bits
    }
}

fn order_key(bits: u32) -> (key: i64)
    ensures
        key == spec_order_key(bits),
{
    if bits < SIGN_BIT {
        bits as i64
    } else {
        -((bits - SIGN_BIT) as i64)
    }
}

/// Expert `left` is preferred to `right`: its logit is greater, or equal and it comes first.
pub open spec fn is_preferred(logits: Seq<u32>, left: int, right: int) -> bool {
    let left_key = spec_order_key(logits[left]);
    let right_key = spec_order_key(logits[right]);
    left_key > right_key || (left_key == right_key && left < right)
}

/// `selected` lists at most `k` of the first `experts` experts, the preferred ones first; each has a
/// finite logit, and each one with a finite logit that is left out is preferred to none of them and
/// is left out only for want of room.
pub open spec fn is_selection(logits: Seq<u32>, experts: int, k: int, selected: Seq<usize>) -> bool {
    &&& selected.len() <= k
    &&& forall|i: int|
        0 <= i < selected.len() ==> (#[trigger] selected[i]) < experts && spec_is_finite(
            logits[selected[i] as int],
        )
    &&& forall|i: int, j: int|
        0 <= i < j < selected.len() ==> is_preferred(
            logits,
            (#[trigger] selected[i]) as int,
            (#[trigger] selected[j]) as int,
        )
    &&& forall|expert: int|
        0 <= expert < experts && #[trigger] spec_is_finite(logits[expert]) && !selected.contains(
            expert as usize,
        ) ==> selected.len() == k && forall|i: int|
            0 <= i < selected.len() ==> is_preferred(
                logits,
                (#[trigger] selected[i]) as int,
                expert,
            )
}

/// The selected experts of a token: their ids and logits, and `-1` and zero where fewer than `k`
/// logits are finite.
#[derive(Debug, PartialEq, Eq)]
pub struct TopK {
    pub ids: Vec<i32>,
    pub values: Vec<u32>,
}

/// Selects the experts with finite logits that are preferred to all others.
fn select_experts(logits: &[u32], k: usize) -> (selected: Vec<usize>)
    ensures
        is_selection(logits@, logits@.len() as int, k as int, selected@),
{
    let mut selected: Vec<usize> = Vec::new();
    let mut expert: usize = 0;
    while expert < logits.len()
        invariant
            expert <= logits@.len(),
            is_selection(logits@, expert as int, k as int, selected@),
        decreases logits@.len() - expert,
    {
        let bits: u32 = logits[expert];
        if is_finite(bits) && k > 0 {
            insert_expert(logits, k, expert, &mut selected);
        }
        expert += 1;
    }
    selected
}

/// Adds an expert to those that were selected before it.
fn insert_expert(logits: &[u32], k: usize, expert: usize, selected: &mut Vec<usize>)
    requires
        k > 0,
        expert < logits@.len(),
        spec_is_finite(logits@[expert as int]),
        is_selection(logits@, expert as int, k as int, old(selected)@),
    ensures
        is_selection(logits@, expert + 1, k as int, final(selected)@),
{
    let ghost before = selected@;
    let key: i64 = order_key(logits[expert]);
    let mut position: usize = selected.len();
    while position > 0 && order_key(logits[selected[position - 1]]) < key
        invariant
            position <= selected@.len(),
            selected@ == before,
            expert < logits@.len(),
            key == spec_order_key(logits@[expert as int]),
            forall|i: int| 0 <= i < before.len() ==> (#[trigger] before[i]) < expert,
            forall|i: int|
                position <= i < before.len() ==> is_preferred(
                    logits@,
                    expert as int,
                    (#[trigger] before[i]) as int,
                ),
        decreases position,
    {
        position -= 1;
    }
    proof {
        assert forall|i: int| 0 <= i < position implies is_preferred(
            logits@,
            (#[trigger] before[i]) as int,
            expert as int,
        ) by {
            if i < position - 1 {
                assert(is_preferred(logits@, before[i] as int, before[position - 1] as int));
            }
        }
    }
    selected.insert(position, expert);
    let ghost inserted = selected@;
    proof {
        lemma_inserted(logits@, before, expert, position as int);
        assert(inserted == before.insert(position as int, expert));
    }
    if selected.len() > k {
        let dropped: Option<usize> = selected.pop();
        proof {
            lemma_trimmed(logits@, k as int, before, inserted, expert, selected@);
        }
    } else {
        proof {
            assert forall|other: int|
                0 <= other < expert + 1 && #[trigger] spec_is_finite(logits@[other])
                    && !inserted.contains(other as usize) implies inserted.len() == k && forall|
                i: int,
            |
                0 <= i < inserted.len() ==> is_preferred(
                    logits@,
                    (#[trigger] inserted[i]) as int,
                    other,
                ) by {
                assert(inserted[position as int] == expert);
                assert(other != expert);
                if before.contains(other as usize) {
                    let i = choose|i: int| 0 <= i < before.len() && before[i] == other as usize;
                    if i < position {
                        assert(inserted[i] == before[i]);
                    } else {
                        assert(inserted[i + 1] == before[i]);
                    }
                    assert(false);
                }
                assert(before.len() == k);
            }
        }
    }
}

proof fn lemma_inserted(logits: Seq<u32>, before: Seq<usize>, expert: usize, position: int)
    requires
        0 <= position <= before.len(),
        expert < logits.len(),
        spec_is_finite(logits[expert as int]),
        forall|i: int|
            0 <= i < before.len() ==> (#[trigger] before[i]) < expert && spec_is_finite(
                logits[before[i] as int],
            ),
        forall|i: int, j: int|
            0 <= i < j < before.len() ==> is_preferred(
                logits,
                (#[trigger] before[i]) as int,
                (#[trigger] before[j]) as int,
            ),
        forall|i: int|
            0 <= i < position ==> is_preferred(
                logits,
                (#[trigger] before[i]) as int,
                expert as int,
            ),
        forall|i: int|
            position <= i < before.len() ==> is_preferred(
                logits,
                expert as int,
                (#[trigger] before[i]) as int,
            ),
    ensures
        ({
            let inserted = before.insert(position, expert);
            &&& forall|i: int|
                0 <= i < inserted.len() ==> (#[trigger] inserted[i]) <= expert && spec_is_finite(
                    logits[inserted[i] as int],
                )
            &&& forall|i: int, j: int|
                0 <= i < j < inserted.len() ==> is_preferred(
                    logits,
                    (#[trigger] inserted[i]) as int,
                    (#[trigger] inserted[j]) as int,
                )
        }),
{
    let inserted = before.insert(position, expert);
    let source = |i: int| if i < position { i } else { i - 1 };
    assert forall|i: int| 0 <= i < inserted.len() implies (#[trigger] inserted[i]) <= expert
        && spec_is_finite(logits[inserted[i] as int]) by {
        if i != position {
            assert(inserted[i] == before[source(i)]);
        }
    }
    assert forall|i: int, j: int| 0 <= i < j < inserted.len() implies is_preferred(
        logits,
        (#[trigger] inserted[i]) as int,
        (#[trigger] inserted[j]) as int,
    ) by {
        if i == position {
            assert(inserted[j] == before[j - 1]);
        } else if j == position {
            assert(inserted[i] == before[i]);
        } else {
            assert(inserted[i] == before[source(i)] && inserted[j] == before[source(j)]);
        }
    }
}

/// The last of one expert too many can be left out.
proof fn lemma_trimmed(
    logits: Seq<u32>,
    k: int,
    before: Seq<usize>,
    inserted: Seq<usize>,
    expert: usize,
    trimmed: Seq<usize>,
)
    requires
        k > 0,
        expert < logits.len(),
        is_selection(logits, expert as int, k, before),
        exists|position: int|
            0 <= position <= before.len() && inserted == #[trigger] before.insert(position, expert),
        inserted.len() == k + 1,
        forall|i: int|
            0 <= i < inserted.len() ==> (#[trigger] inserted[i]) <= expert && spec_is_finite(
                logits[inserted[i] as int],
            ),
        forall|i: int, j: int|
            0 <= i < j < inserted.len() ==> is_preferred(
                logits,
                (#[trigger] inserted[i]) as int,
                (#[trigger] inserted[j]) as int,
            ),
        trimmed == inserted.drop_last(),
    ensures
        is_selection(logits, expert + 1, k, trimmed),
{
    let position = choose|position: int|
        0 <= position <= before.len() && inserted == #[trigger] before.insert(position, expert);
    let last = inserted.last();
    assert forall|i: int, j: int| 0 <= i < j < trimmed.len() implies is_preferred(
        logits,
        (#[trigger] trimmed[i]) as int,
        (#[trigger] trimmed[j]) as int,
    ) by {
        assert(trimmed[i] == inserted[i] && trimmed[j] == inserted[j]);
    }
    assert forall|i: int| 0 <= i < trimmed.len() implies (#[trigger] trimmed[i]) < expert + 1
        && spec_is_finite(logits[trimmed[i] as int]) by {
        assert(trimmed[i] == inserted[i]);
    }
    assert forall|other: int|
        0 <= other < expert + 1 && #[trigger] spec_is_finite(logits[other]) && !trimmed.contains(
            other as usize,
        ) implies trimmed.len() == k && forall|i: int|
        0 <= i < trimmed.len() ==> is_preferred(logits, (#[trigger] trimmed[i]) as int, other) by {
        if other == last {
            assert forall|i: int| 0 <= i < trimmed.len() implies is_preferred(
                logits,
                (#[trigger] trimmed[i]) as int,
                other,
            ) by {
                assert(trimmed[i] == inserted[i] && last == inserted[k]);
            }
        } else {
            if other == expert {
                assert(inserted[position] == expert);
                if position < k {
                    assert(trimmed[position] == expert);
                }
                assert(false);
            }
            if before.contains(other as usize) {
                let i = choose|i: int| 0 <= i < before.len() && before[i] == other as usize;
                let at = if i < position { i } else { i + 1 };
                assert(inserted[at] == before[i]);
                if at < k {
                    assert(trimmed[at] == other as usize);
                }
                assert(false);
            }
            assert forall|i: int| 0 <= i < trimmed.len() implies is_preferred(
                logits,
                (#[trigger] trimmed[i]) as int,
                other,
            ) by {
                assert(trimmed[i] == inserted[i]);
                if i < position {
                    assert(inserted[i] == before[i]);
                } else if i > position {
                    assert(inserted[i] == before[i - 1]);
                } else {
                    assert(inserted[k] == before[k - 1]);
                    assert(is_preferred(logits, before[k - 1] as int, other));
                    assert(is_preferred(logits, inserted[i] as int, inserted[k] as int));
                }
            }
        }
    }
}

/// Selects the `k` experts with the greatest finite logits of a token; of equal ones the first.
pub fn select_top_k(logits: &[u32], k: usize) -> (top: TopK)
    requires
        logits@.len() <= i32::MAX,
    ensures
        top.ids@.len() == k,
        top.values@.len() == k,
        exists|selected: Seq<usize>| #[trigger]
            is_selection(logits@, logits@.len() as int, k as int, selected) && (forall|i: int|
                0 <= i < k ==> #[trigger] top.ids@[i] == if i < selected.len() {
                    selected[i] as int
                } else {
                    -1
                }) && (forall|i: int|
                0 <= i < k ==> #[trigger] top.values@[i] == if i < selected.len() {
                    logits@[selected[i] as int]
                } else {
                    0
                }),
{
    let selected: Vec<usize> = select_experts(logits, k);
    let mut ids: Vec<i32> = Vec::new();
    let mut values: Vec<u32> = Vec::new();
    let mut i: usize = 0;
    while i < k
        invariant
            i <= k,
            logits@.len() <= i32::MAX,
            is_selection(logits@, logits@.len() as int, k as int, selected@),
            ids@.len() == i,
            values@.len() == i,
            forall|j: int|
                0 <= j < i ==> #[trigger] ids@[j] == if j < selected@.len() {
                    selected@[j] as int
                } else {
                    -1
                },
            forall|j: int|
                0 <= j < i ==> #[trigger] values@[j] == if j < selected@.len() {
                    logits@[selected@[j] as int]
                } else {
                    0
                },
        decreases k - i,
    {
        if i < selected.len() {
            let expert: usize = selected[i];
            ids.push(expert as i32);
            values.push(logits[expert]);
        } else {
            ids.push(-1);
            values.push(0);
        }
        i += 1;
    }
    TopK { ids, values }
}

/// The order of the bit patterns is a strict order of the experts: of two experts exactly one is
/// preferred to the other.
pub proof fn law_preference_is_strict(logits: Seq<u32>, left: int, right: int)
    requires
        left != right,
    ensures
        is_preferred(logits, left, right) != is_preferred(logits, right, left),
{
}

/// Two selections of the same logits begin alike.
proof fn lemma_same_prefix(
    logits: Seq<u32>,
    experts: int,
    k: int,
    first: Seq<usize>,
    second: Seq<usize>,
    count: int,
)
    requires
        0 <= experts <= usize::MAX,
        is_selection(logits, experts, k, first),
        is_selection(logits, experts, k, second),
        0 <= count <= first.len(),
    ensures
        count <= second.len(),
        forall|i: int| 0 <= i < count ==> first[i] == second[i],
    decreases count,
{
    if count > 0 {
        let last = count - 1;
        lemma_same_prefix(logits, experts, k, first, second, last);
        let left = first[last];
        if last >= second.len() {
            if second.contains(left) {
                let j = choose|j: int| 0 <= j < second.len() && second[j] == left;
                assert(first[j] == left);
                assert(is_preferred(logits, first[j] as int, first[last] as int));
            }
            assert(spec_is_finite(logits[left as int]));
            assert(false);
        }
        let right = second[last];
        if left != right {
            law_preference_is_strict(logits, left as int, right as int);
            lemma_not_preferred(logits, experts, k, first, second, last);
            lemma_not_preferred(logits, experts, k, second, first, last);
        }
    }
}

/// Where two selections begin alike, neither goes on with an expert that is preferred to that of
/// the other.
proof fn lemma_not_preferred(
    logits: Seq<u32>,
    experts: int,
    k: int,
    first: Seq<usize>,
    second: Seq<usize>,
    at: int,
)
    requires
        0 <= experts <= usize::MAX,
        is_selection(logits, experts, k, first),
        is_selection(logits, experts, k, second),
        0 <= at < first.len(),
        at < second.len(),
        forall|i: int| 0 <= i < at ==> first[i] == second[i],
    ensures
        !is_preferred(logits, first[at] as int, second[at] as int),
{
    let left = first[at];
    let right = second[at];
    if left == right {
    } else if second.contains(left) {
        let j = choose|j: int| 0 <= j < second.len() && second[j] == left;
        if j < at {
            assert(is_preferred(logits, first[j] as int, first[at] as int));
        } else if j > at {
            assert(is_preferred(logits, second[at] as int, second[j] as int));
        }
    } else {
        assert(spec_is_finite(logits[left as int]));
        assert(is_preferred(logits, second[at] as int, left as int));
    }
}

/// The logits determine the selection.
pub proof fn law_selection_is_unique(
    logits: Seq<u32>,
    experts: int,
    k: int,
    first: Seq<usize>,
    second: Seq<usize>,
)
    requires
        0 <= experts <= usize::MAX,
        is_selection(logits, experts, k, first),
        is_selection(logits, experts, k, second),
    ensures
        first == second,
{
    lemma_same_prefix(logits, experts, k, first, second, first.len() as int);
    lemma_same_prefix(logits, experts, k, second, first, second.len() as int);
    assert(first =~= second);
}

/// The exponent field of a single precision number.
pub open spec fn exponent_field(bits: u32) -> int {
    (bits as int / 0x80_0000) % 0x100
}

/// The fraction field of a single precision number.
pub open spec fn fraction_field(bits: u32) -> int {
    bits as int % 0x80_0000
}

/// The magnitude of a finite single precision number, in units of the least positive one: numbers with
/// an exponent of zero are subnormal, others have a leading one before the fraction.
pub open spec fn magnitude(bits: u32) -> int {
    if exponent_field(bits) == 0 {
        fraction_field(bits)
    } else {
        (0x80_0000 + fraction_field(bits)) * vstd::arithmetic::power2::pow2((exponent_field(bits) - 1) as nat)
    }
}

/// The finite single precision number that a bit pattern stands for, in units of the least positive
/// one.
pub open spec fn number(bits: u32) -> int {
    if bits as int / 0x8000_0000 == 1 {
        -magnitude(bits)
    } else {
        magnitude(bits)
    }
}

/// Patterns of non-negative numbers are ordered as their magnitudes.
proof fn lemma_magnitude_rises(lesser: u32, greater: u32)
    requires
        lesser < greater < 0x8000_0000,
    ensures
        magnitude(lesser) < magnitude(greater),
{
    let (e, f) = (exponent_field(lesser), fraction_field(lesser));
    let (g, h) = (exponent_field(greater), fraction_field(greater));
    assert(lesser == e * 0x80_0000 + f && greater == g * 0x80_0000 + h);
    assert(e <= g);
    assert(e == g ==> f < h);
    if e > 0 {
        vstd::arithmetic::power2::lemma_pow2_pos((e - 1) as nat);
    }
    if g > 0 {
        vstd::arithmetic::power2::lemma_pow2_pos((g - 1) as nat);
    }
    if e == g {
        if e > 0 {
            let unit = vstd::arithmetic::power2::pow2((e - 1) as nat) as int;
            assert((0x80_0000 + f) * unit < (0x80_0000 + h) * unit) by (nonlinear_arith)
                requires
                    f < h,
                    unit > 0,
            ;
        }
    } else {
        let unit = vstd::arithmetic::power2::pow2((g - 1) as nat) as int;
        assert((0x80_0000 + h) * unit >= 0x80_0000 * unit) by (nonlinear_arith)
            requires
                h >= 0,
                unit > 0,
        ;
        if e > 0 {
            let lower = vstd::arithmetic::power2::pow2((e - 1) as nat) as int;
            vstd::arithmetic::power2::lemma_pow2_adds((e - 1) as nat, 1);
            vstd::arithmetic::power2::lemma2_to64();
            if e < g - 1 {
                vstd::arithmetic::power2::lemma_pow2_strictly_increases(e as nat, (g - 1) as nat);
            }
            assert(vstd::arithmetic::power2::pow2(e as nat) == 2 * lower);
            assert(2 * lower <= unit);
            assert((0x80_0000 + f) * lower < 0x80_0000 * unit) by (nonlinear_arith)
                requires
                    f < 0x80_0000,
                    lower > 0,
                    2 * lower <= unit,
            ;
        }
    }
}

/// A bit pattern and that of the same magnitude without a sign.
proof fn lemma_sign(bits: u32)
    requires
        bits >= SIGN_BIT,
    ensures
        magnitude(bits) == magnitude((bits - SIGN_BIT) as u32),
        number(bits) == -magnitude((bits - SIGN_BIT) as u32),
{
    let rest = (bits - SIGN_BIT) as u32;
    assert(bits as int / 0x80_0000 == 0x100 + rest as int / 0x80_0000);
    assert(bits as int % 0x80_0000 == rest as int % 0x80_0000);
    assert(exponent_field(bits) == exponent_field(rest));
}

proof fn lemma_key_is_the_sign_with_the_magnitude(bits: u32)
    ensures
        spec_order_key(bits) >= 0 ==> spec_order_key(bits) < 0x8000_0000 && number(bits)
            == magnitude(spec_order_key(bits) as u32),
        spec_order_key(bits) < 0 ==> -spec_order_key(bits) < 0x8000_0000 && number(bits)
            == -magnitude((-spec_order_key(bits)) as u32),
{
    if bits >= SIGN_BIT {
        lemma_sign(bits);
        assert(magnitude(0) == 0);
    }
}

proof fn lemma_lesser_key_is_lesser_number(left: u32, right: u32)
    requires
        spec_order_key(left) < spec_order_key(right),
    ensures
        number(left) < number(right),
{
    let lesser = spec_order_key(left);
    let greater = spec_order_key(right);
    lemma_key_is_the_sign_with_the_magnitude(left);
    lemma_key_is_the_sign_with_the_magnitude(right);
    assert(magnitude(0) == 0);
    if lesser >= 0 {
        lemma_magnitude_rises(lesser as u32, greater as u32);
    } else if greater < 0 {
        lemma_magnitude_rises((-greater) as u32, (-lesser) as u32);
    } else {
        lemma_magnitude_rises(0, (-lesser) as u32);
        if greater > 0 {
            lemma_magnitude_rises(0, greater as u32);
        }
    }
}

/// The keys of bit patterns are ordered as the numbers that the patterns stand for, and two patterns
/// have the same key where they stand for the same number.
pub proof fn law_keys_order_the_numbers(left: u32, right: u32)
    ensures
        spec_order_key(left) < spec_order_key(right) <==> number(left) < number(right),
        spec_order_key(left) == spec_order_key(right) <==> number(left) == number(right),
{
    if spec_order_key(left) < spec_order_key(right) {
        lemma_lesser_key_is_lesser_number(left, right);
    } else if spec_order_key(right) < spec_order_key(left) {
        lemma_lesser_key_is_lesser_number(right, left);
    } else {
        lemma_key_is_the_sign_with_the_magnitude(left);
        lemma_key_is_the_sign_with_the_magnitude(right);
    }
}

/// A pattern is that of a finite number unless all bits of its exponent are set.
pub proof fn law_finite_numbers_have_an_exponent(bits: u32)
    ensures
        spec_is_finite(bits) <==> exponent_field(bits) != 0xff,
{
    let rest = bits as int % 0x8000_0000;
    assert(exponent_field(bits) == rest / 0x80_0000);
}

/// What the selection of a token holds: the ids and logits of experts, in falling order of the numbers
/// that the logits stand for, of equal ones the first before the others, and behind them `-1` and zero
/// up to the length that was asked for. An expert is missing only where its logit is not finite, or
/// where there is no room and all experts that were selected come before it.
pub proof fn law_greatest_logits_are_selected(logits: &[u32], k: usize, top: TopK)
    requires
        logits@.len() <= i32::MAX,
        call_ensures(select_top_k, (logits, k), top),
    ensures
        top.ids@.len() == k,
        top.values@.len() == k,
        forall|i: int|
            0 <= i < k ==> -1 <= #[trigger] top.ids@[i] < logits@.len() && (if top.ids@[i] >= 0 {
                top.values@[i] == logits@[top.ids@[i] as int] && exponent_field(top.values@[i]) != 0xff
            } else {
                top.values@[i] == 0
            }),
        forall|i: int, j: int|
            0 <= i < j < k && #[trigger] top.ids@[j] >= 0 ==> #[trigger] top.ids@[i] >= 0 && (number(
                top.values@[i],
            ) > number(top.values@[j]) || (number(top.values@[i]) == number(top.values@[j])
                && top.ids@[i] < top.ids@[j])),
        forall|expert: int, i: int|
            0 <= expert < logits@.len() && exponent_field(#[trigger] logits@[expert]) != 0xff && !(
            exists|at: int| 0 <= at < k && #[trigger] top.ids@[at] == expert) && 0 <= i < k
                ==> #[trigger] top.ids@[i] >= 0 && (number(top.values@[i]) > number(logits@[expert])
                || (number(top.values@[i]) == number(logits@[expert]) && top.ids@[i] < expert)),
{
    let selected = choose|selected: Seq<usize>| #[trigger]
        is_selection(logits@, logits@.len() as int, k as int, selected) && (forall|i: int|
            0 <= i < k ==> #[trigger] top.ids@[i] == if i < selected.len() {
                selected[i] as int
            } else {
                -1
            }) && (forall|i: int|
            0 <= i < k ==> #[trigger] top.values@[i] == if i < selected.len() {
                logits@[selected[i] as int]
            } else {
                0
            });
    assert forall|i: int| 0 <= i < k implies -1 <= #[trigger] top.ids@[i] < logits@.len() && (if
        top.ids@[i] >= 0 {
        top.values@[i] == logits@[top.ids@[i] as int] && exponent_field(top.values@[i]) != 0xff
    } else {
        top.values@[i] == 0
    }) by {
        if i < selected.len() {
            assert(selected[i] < logits@.len());
            law_finite_numbers_have_an_exponent(logits@[selected[i] as int]);
        }
        assert(top.values@[i] == top.values@[i]);
    }
    assert forall|i: int, j: int| 0 <= i < j < k && #[trigger] top.ids@[j] >= 0 implies #[trigger] top.ids@[i]
        >= 0 && (number(top.values@[i]) > number(top.values@[j]) || (number(top.values@[i]) == number(
        top.values@[j],
    ) && top.ids@[i] < top.ids@[j])) by {
        assert(j < selected.len());
        assert(is_preferred(logits@, selected[i] as int, selected[j] as int));
        law_keys_order_the_numbers(logits@[selected[i] as int], logits@[selected[j] as int]);
        law_keys_order_the_numbers(logits@[selected[j] as int], logits@[selected[i] as int]);
        assert(top.values@[i] == logits@[selected[i] as int]);
        assert(top.values@[j] == logits@[selected[j] as int]);
    }
    assert forall|expert: int, i: int|
        0 <= expert < logits@.len() && exponent_field(#[trigger] logits@[expert]) != 0xff && !(exists|
            at: int,
        |
            0 <= at < k && #[trigger] top.ids@[at] == expert) && 0 <= i < k implies #[trigger] top.ids@[i]
        >= 0 && (number(top.values@[i]) > number(logits@[expert]) || (number(top.values@[i]) == number(
        logits@[expert],
    ) && top.ids@[i] < expert)) by {
        law_finite_numbers_have_an_exponent(logits@[expert]);
        assert(spec_is_finite(logits@[expert]));
        if selected.contains(expert as usize) {
            let at = choose|at: int| 0 <= at < selected.len() && selected[at] == expert as usize;
            assert(top.ids@[at] == expert);
        }
        assert(selected.len() == k);
        assert(is_preferred(logits@, selected[i] as int, expert));
        law_keys_order_the_numbers(logits@[selected[i] as int], logits@[expert]);
        law_keys_order_the_numbers(logits@[expert], logits@[selected[i] as int]);
        assert(top.values@[i] == logits@[selected[i] as int]);
    }
}

} // verus!
