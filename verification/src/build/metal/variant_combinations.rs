//! Enumeration of kernel variants under constraints.
use vstd::prelude::*;

use crate::build::metal::predicate::{Predicate, Question};

verus! {

/// The position in `order` behind every leading axis whose domain is at most `length` long.
pub open spec fn insertion_point(order: Seq<usize>, lengths: Seq<usize>, length: usize) -> int
    decreases order.len(),
{
    if order.len() == 0 {
        0
    } else if lengths[order.last() as int] <= length {
        order.len() as int
    } else {
        insertion_point(order.drop_last(), lengths, length)
    }
}

/// The first `count` axes, those with short domains first and equally long ones in their own order.
pub open spec fn axis_order(lengths: Seq<usize>, count: nat) -> Seq<usize>
    decreases count,
{
    if count == 0 {
        Seq::empty()
    } else {
        let order = axis_order(lengths, (count - 1) as nat);
        let axis = (count - 1) as usize;
        order.insert(insertion_point(order, lengths, lengths[count - 1]), axis)
    }
}

/// One value per axis, each inside its axis's domain.
pub open spec fn is_selection(lengths: Seq<usize>, selection: Seq<usize>) -> bool {
    &&& selection.len() == lengths.len()
    &&& forall|axis: int| 0 <= axis < lengths.len() ==> selection[axis] < lengths[axis]
}

/// Whether `axis` is one of the first `depth` axes of `order`.
pub open spec fn is_bound(order: Seq<usize>, depth: int, axis: int) -> bool {
    exists|position: int| 0 <= position < depth && #[trigger] order[position] == axis
}

/// `selection` seen when only the first `depth` axes of `order` have been given a value.
pub open spec fn partial_selection(
    selection: Seq<usize>,
    order: Seq<usize>,
    depth: int,
) -> Seq<Option<usize>> {
    Seq::new(
        selection.len(),
        |axis: int|
            if is_bound(order, depth, axis) {
                Some(selection[axis])
            } else {
                None
            },
    )
}

/// Every axis of `selection` with its value.
pub open spec fn complete_selection(selection: Seq<usize>) -> Seq<Option<usize>> {
    Seq::new(selection.len(), |axis: int| Some(selection[axis]))
}

/// Whether `could_satisfy` answers `true` for the bindings.
pub open spec fn accepts<F: Fn(&[Option<usize>], bool) -> bool>(
    could_satisfy: F,
    bindings: Seq<Option<usize>>,
    complete: bool,
) -> bool {
    exists|slice: &[Option<usize>]| #[trigger]
        slice@ == bindings && call_ensures(could_satisfy, (slice, complete), true)
}

/// The predicate can be asked about any bindings of `count` axes, and its answer depends on
/// nothing else.
pub open spec fn is_predicate<F: Fn(&[Option<usize>], bool) -> bool>(
    could_satisfy: F,
    count: nat,
) -> bool {
    &&& forall|slice: &[Option<usize>], complete: bool|
        slice@.len() == count ==> call_requires(could_satisfy, (slice, complete))
    &&& forall|left: &[Option<usize>], right: &[Option<usize>], complete: bool|
        !(left@ == right@ && call_ensures(could_satisfy, (left, complete), true) && call_ensures(
            could_satisfy,
            (right, complete),
            false,
        ))
}

/// `selection` stays viable from the time that more than `depth` axes are bound to the end.
pub open spec fn viable_beyond<F: Fn(&[Option<usize>], bool) -> bool>(
    could_satisfy: F,
    order: Seq<usize>,
    selection: Seq<usize>,
    depth: int,
) -> bool {
    forall|bound: int|
        depth < bound <= selection.len() ==> accepts(
            could_satisfy,
            #[trigger] partial_selection(selection, order, bound),
            bound == selection.len(),
        )
}

/// The selections that the enumeration reaches: no partial assignment on the way is refused.
pub open spec fn is_enumerated<F: Fn(&[Option<usize>], bool) -> bool>(
    could_satisfy: F,
    lengths: Seq<usize>,
    selection: Seq<usize>,
) -> bool {
    &&& is_selection(lengths, selection)
    &&& viable_beyond(could_satisfy, axis_order(lengths, lengths.len()), selection, -1)
}

/// `left` comes before `right` in the order of the Cartesian product.
pub open spec fn precedes(left: Seq<usize>, right: Seq<usize>) -> bool {
    exists|axis: int|
        0 <= axis < left.len() && axis < right.len() && #[trigger] left[axis] < right[axis] && (
        forall|before: int| 0 <= before < axis ==> left[before] == right[before])
}

/// The selections stand in strictly increasing Cartesian order.
pub open spec fn is_cartesian(selections: Seq<Vec<usize>>) -> bool {
    forall|i: int, j: int|
        0 <= i < j < selections.len() ==> precedes(#[trigger] selections[i]@, #[trigger] selections[j]@)
}

/// Some entry of `selections` holds the values of `selection`.
pub open spec fn lists(selections: Seq<Vec<usize>>, selection: Seq<usize>) -> bool {
    exists|i: int| 0 <= i < selections.len() && #[trigger] selections[i]@ == selection
}

/// `axis_order` lists every axis below `count` once, by rising domain length.
pub proof fn lemma_axis_order(lengths: Seq<usize>, count: nat)
    requires
        count <= lengths.len() <= usize::MAX,
    ensures
        axis_order(lengths, count).len() == count,
        forall|i: int| 0 <= i < count ==> (#[trigger] axis_order(lengths, count)[i]) < count,
        forall|i: int, j: int|
            0 <= i < j < count ==> {
                let left = #[trigger] axis_order(lengths, count)[i];
                let right = #[trigger] axis_order(lengths, count)[j];
                lengths[left as int] < lengths[right as int] || (lengths[left as int] == lengths[right as int]
                    && left < right)
            },
        forall|axis: int|
            0 <= axis < count ==> #[trigger] is_bound(axis_order(lengths, count), count as int, axis),
    decreases count,
{
    if count > 0 {
        let previous = (count - 1) as nat;
        lemma_axis_order(lengths, previous);
        let order = axis_order(lengths, previous);
        let axis = previous as usize;
        let at = insertion_point(order, lengths, lengths[previous as int]);
        lemma_insertion_point(order, lengths, lengths[previous as int]);
        let inserted = order.insert(at, axis);
        assert(axis_order(lengths, count) == inserted);
        assert forall|i: int| 0 <= i < count implies (#[trigger] inserted[i]) < count by {
            if i < at {
                assert(inserted[i] == order[i]);
            } else if i > at {
                assert(inserted[i] == order[i - 1]);
            }
        }
        assert forall|i: int, j: int| 0 <= i < j < count implies {
            let left = #[trigger] inserted[i];
            let right = #[trigger] inserted[j];
            lengths[left as int] < lengths[right as int] || (lengths[left as int]
                == lengths[right as int] && left < right)
        } by {
            let source = |k: int| if k < at { k } else { k - 1 };
            if i != at && j != at {
                assert(inserted[i] == order[source(i)] && inserted[j] == order[source(j)]);
            } else if i == at {
                assert(inserted[j] == order[j - 1]);
                assert(order[at] == order[at] && lengths[order[at] as int] > lengths[previous as int]);
                if j - 1 > at {
                    assert(order[at] == order[at] && order[j - 1] == order[j - 1]);
                }
            } else {
                assert(inserted[i] == order[i]);
                if i < at - 1 {
                    assert(order[at - 1] == order[at - 1]);
                }
            }
        }
        assert forall|candidate: int| 0 <= candidate < count implies #[trigger] is_bound(
            inserted,
            count as int,
            candidate,
        ) by {
            if candidate == previous {
                assert(inserted[at] == candidate);
            } else {
                assert(is_bound(order, previous as int, candidate));
                let position = choose|position: int|
                    0 <= position < previous && #[trigger] order[position] == candidate;
                if position < at {
                    assert(inserted[position] == candidate);
                } else {
                    assert(inserted[position + 1] == candidate);
                }
            }
        }
    }
}

proof fn lemma_insertion_point(order: Seq<usize>, lengths: Seq<usize>, length: usize)
    ensures
        0 <= insertion_point(order, lengths, length) <= order.len(),
        insertion_point(order, lengths, length) > 0 ==> lengths[order[insertion_point(
            order,
            lengths,
            length,
        ) - 1] as int] <= length,
        forall|i: int|
            insertion_point(order, lengths, length) <= i < order.len()
                ==> lengths[#[trigger] order[i] as int] > length,
    decreases order.len(),
{
    if order.len() > 0 && lengths[order.last() as int] > length {
        let shorter = order.drop_last();
        lemma_insertion_point(shorter, lengths, length);
        let at = insertion_point(shorter, lengths, length);
        assert forall|i: int| at <= i < order.len() implies lengths[#[trigger] order[i] as int]
            > length by {
            if i < order.len() - 1 {
                assert(order[i] == shorter[i]);
            }
        }
    }
}

/// Lists the axes by rising domain length.
fn sorted_axes(lengths: &[usize]) -> (order: Vec<usize>)
    ensures
        order@ == axis_order(lengths@, lengths@.len()),
{
    let mut order: Vec<usize> = Vec::new();
    let mut axis: usize = 0;
    while axis < lengths.len()
        invariant
            axis <= lengths@.len(),
            order@ == axis_order(lengths@, axis as nat),
        decreases lengths@.len() - axis,
    {
        proof {
            lemma_axis_order(lengths@, axis as nat);
        }
        let length: usize = lengths[axis];
        let mut at: usize = order.len();
        assert(order@.take(at as int) =~= order@);
        while at > 0 && lengths[order[at - 1]] > length
            invariant
                at <= order@.len(),
                axis < lengths@.len(),
                length == lengths@[axis as int],
                forall|i: int| 0 <= i < order@.len() ==> (#[trigger] order@[i]) < axis,
                insertion_point(order@.take(at as int), lengths@, length) == insertion_point(
                    order@,
                    lengths@,
                    length,
                ),
            decreases at,
        {
            proof {
                assert(order@.take(at as int).last() == order@[at - 1]);
                assert(order@.take(at as int).drop_last() =~= order@.take(at - 1));
            }
            at -= 1;
        }
        proof {
            if at > 0 {
                assert(order@.take(at as int).last() == order@[at - 1]);
            }
            lemma_insertion_point(order@, lengths@, length);
        }
        order.insert(at, axis);
        axis += 1;
    }
    order
}

/// Whether `left` comes before `right` in the order of the Cartesian product.
fn comes_before(left: &Vec<usize>, right: &Vec<usize>) -> (before: bool)
    requires
        left@.len() == right@.len(),
    ensures
        before == precedes(left@, right@),
{
    let mut axis: usize = 0;
    while axis < left.len()
        invariant
            axis <= left@.len(),
            left@.len() == right@.len(),
            forall|before: int| 0 <= before < axis ==> left@[before] == right@[before],
        decreases left@.len() - axis,
    {
        if left[axis] != right[axis] {
            proof {
                if precedes(left@, right@) {
                    let other = choose|other: int|
                        0 <= other < left@.len() && other < right@.len() && #[trigger] left@[other]
                            < right@[other] && (forall|before: int|
                            0 <= before < other ==> left@[before] == right@[before]);
                    assert(other == axis);
                }
            }
            return left[axis] < right[axis];
        }
        axis += 1;
    }
    false
}

proof fn lemma_precedes_is_transitive(first: Seq<usize>, second: Seq<usize>, third: Seq<usize>)
    requires
        first.len() == second.len() == third.len(),
        precedes(first, second),
        precedes(second, third),
    ensures
        precedes(first, third),
{
    let left = choose|axis: int|
        0 <= axis < first.len() && axis < second.len() && #[trigger] first[axis] < second[axis] && (
        forall|before: int| 0 <= before < axis ==> first[before] == second[before]);
    let right = choose|axis: int|
        0 <= axis < second.len() && axis < third.len() && #[trigger] second[axis] < third[axis] && (
        forall|before: int| 0 <= before < axis ==> second[before] == third[before]);
    let least = if left < right { left } else { right };
    assert(first[least] < third[least]);
}

proof fn lemma_precedes_is_total(left: Seq<usize>, right: Seq<usize>)
    requires
        left.len() == right.len(),
        left != right,
        !precedes(left, right),
    ensures
        precedes(right, left),
{
    let differs = |axis: int| 0 <= axis < left.len() && left[axis] != right[axis];
    if forall|axis: int| !(#[trigger] differs(axis)) {
        assert forall|axis: int| 0 <= axis < left.len() implies left[axis] == right[axis] by {
            assert(!differs(axis));
        }
        assert(left =~= right);
    } else {
        let some = choose|axis: int| #[trigger] differs(axis);
        let first = lemma_first_difference(left, right, some);
        assert(left[first] < right[first] || right[first] < left[first]);
    }
}

proof fn lemma_first_difference(left: Seq<usize>, right: Seq<usize>, some: int) -> (first: int)
    requires
        left.len() == right.len(),
        0 <= some < left.len(),
        left[some] != right[some],
    ensures
        0 <= first < left.len(),
        left[first] != right[first],
        forall|before: int| 0 <= before < first ==> left[before] == right[before],
    decreases some,
{
    if exists|earlier: int| 0 <= earlier < some && left[earlier] != right[earlier] {
        let earlier = choose|earlier: int| 0 <= earlier < some && left[earlier] != right[earlier];
        lemma_first_difference(left, right, earlier)
    } else {
        some
    }
}

/// Puts a new selection at its place in the Cartesian order.
fn insert_in_order(selections: &mut Vec<Vec<usize>>, selection: Vec<usize>)
    requires
        is_cartesian(old(selections)@),
        forall|i: int|
            0 <= i < old(selections)@.len() ==> (#[trigger] old(selections)@[i])@.len()
                == selection@.len(),
        !lists(old(selections)@, selection@),
    ensures
        is_cartesian(final(selections)@),
        forall|i: int|
            0 <= i < final(selections)@.len() ==> (#[trigger] final(selections)@[i])@.len()
                == selection@.len(),
        forall|other: Seq<usize>| #[trigger]
            lists(final(selections)@, other) <==> (lists(old(selections)@, other) || other
                == selection@),
{
    let ghost before = selections@;
    let mut at: usize = selections.len();
    while at > 0 && comes_before(&selection, &selections[at - 1])
        invariant
            at <= selections@.len(),
            selections@ == before,
            forall|i: int| 0 <= i < before.len() ==> (#[trigger] before[i])@.len() == selection@.len(),
            forall|i: int| at <= i < before.len() ==> precedes(selection@, (#[trigger] before[i])@),
        decreases at,
    {
        at -= 1;
    }
    proof {
        if at > 0 {
            assert(before[at - 1]@ != selection@);
            lemma_precedes_is_total(selection@, before[at - 1]@);
        }
        assert forall|i: int| 0 <= i < at implies precedes((#[trigger] before[i])@, selection@) by {
            if i < at - 1 {
                assert(precedes(before[i]@, before[at - 1]@));
                lemma_precedes_is_transitive(before[i]@, before[at - 1]@, selection@);
            }
        }
    }
    let ghost values = selection@;
    let ghost added = selection;
    selections.insert(at, selection);
    proof {
        let after = selections@;
        assert(after == before.insert(at as int, added));
        let source = |k: int| if k < at { k } else { k - 1 };
        assert forall|i: int, j: int| 0 <= i < j < after.len() implies precedes(
            #[trigger] after[i]@,
            #[trigger] after[j]@,
        ) by {
            if i == at {
                assert(after[j] == before[j - 1]);
            } else if j == at {
                assert(after[i] == before[i]);
            } else {
                assert(after[i] == before[source(i)] && after[j] == before[source(j)]);
            }
        }
        assert forall|i: int| 0 <= i < after.len() implies (#[trigger] after[i])@.len()
            == values.len() by {
            if i != at {
                assert(after[i] == before[source(i)]);
            }
        }
        assert forall|other: Seq<usize>| #[trigger]
            lists(after, other) <==> (lists(before, other) || other == values) by {
            if lists(after, other) {
                let i = choose|i: int| 0 <= i < after.len() && #[trigger] after[i]@ == other;
                if i != at {
                    assert(after[i] == before[source(i)]);
                    assert(before[source(i)]@ == other);
                }
            }
            if lists(before, other) {
                let i = choose|i: int| 0 <= i < before.len() && #[trigger] before[i]@ == other;
                if i < at {
                    assert(after[i]@ == other);
                } else {
                    assert(after[i + 1]@ == other);
                }
            }
            if other == values {
                assert(after[at as int]@ == other);
            }
        }
    }
}

/// `selection` has the values that `bindings` gives to the first `depth` axes of `order`.
spec fn extends(
    selection: Seq<usize>,
    order: Seq<usize>,
    bindings: Seq<Option<usize>>,
    depth: int,
) -> bool {
    partial_selection(selection, order, depth) == bindings
}

/// `bindings` gives a value inside its domain to the first `depth` axes of `order`, and to no other.
spec fn binds(
    lengths: Seq<usize>,
    order: Seq<usize>,
    bindings: Seq<Option<usize>>,
    depth: int,
) -> bool {
    &&& bindings.len() == lengths.len()
    &&& forall|axis: int|
        0 <= axis < lengths.len() ==> match #[trigger] bindings[axis] {
            Some(value) => is_bound(order, depth, axis) && value < lengths[axis],
            None => !is_bound(order, depth, axis),
        }
}

/// The bindings of `count` axes of which none has a value.
pub open spec fn nothing_bound(count: nat) -> Seq<Option<usize>> {
    Seq::new(count, |axis: int| None)
}

/// What is asked to extend the bindings, whose first `depth` axes have values, by the values from
/// `value` on of the next axis: each value, and where it is accepted all that extends it.
pub open spec fn asked_from<F: Fn(&[Option<usize>], bool) -> bool>(
    could_satisfy: F,
    lengths: Seq<usize>,
    order: Seq<usize>,
    bindings: Seq<Option<usize>>,
    depth: int,
    value: int,
) -> Seq<Question>
    decreases lengths.len() - depth, lengths[order[depth] as int] - value,
{
    if depth < 0 || depth >= lengths.len() || value >= lengths[order[depth] as int] {
        Seq::empty()
    } else {
        let bound = bindings.update(order[depth] as int, Some(value as usize));
        let complete = depth + 1 == lengths.len();
        let below = if accepts(could_satisfy, bound, complete) && !complete {
            asked_from(could_satisfy, lengths, order, bound, depth + 1, 0)
        } else {
            Seq::empty()
        };
        seq![(bound, complete)] + below + asked_from(
            could_satisfy,
            lengths,
            order,
            bindings,
            depth,
            value + 1,
        )
    }
}

/// All that is asked to enumerate the selections of the domains.
pub open spec fn asked_of<F: Fn(&[Option<usize>], bool) -> bool>(
    could_satisfy: F,
    lengths: Seq<usize>,
) -> Seq<Question> {
    let nothing = nothing_bound(lengths.len());
    let complete = lengths.len() == 0;
    let below = if accepts(could_satisfy, nothing, complete) && !complete {
        asked_from(could_satisfy, lengths, axis_order(lengths, lengths.len()), nothing, 0, 0)
    } else {
        Seq::empty()
    };
    seq![(nothing, complete)] + below
}

/// Adds to `selections` every selection that extends the bindings and stays viable.
fn enumerate_extensions<F: Fn(&[Option<usize>], bool) -> bool>(
    lengths: &[usize],
    order: &Vec<usize>,
    predicate: &mut Predicate<F>,
    bindings: &mut Vec<Option<usize>>,
    depth: usize,
    selections: &mut Vec<Vec<usize>>,
)
    requires
        order@ == axis_order(lengths@, lengths@.len()),
        depth < lengths@.len(),
        is_predicate(old(predicate).function(), lengths@.len()),
        binds(lengths@, order@, old(bindings)@, depth as int),
        is_cartesian(old(selections)@),
        forall|i: int|
            0 <= i < old(selections)@.len() ==> (#[trigger] old(selections)@[i])@.len()
                == lengths@.len(),
        forall|selection: Seq<usize>| #[trigger]
            lists(old(selections)@, selection) ==> !extends(
                selection,
                order@,
                old(bindings)@,
                depth as int,
            ),
    ensures
        final(bindings)@ == old(bindings)@,
        is_cartesian(final(selections)@),
        forall|i: int|
            0 <= i < final(selections)@.len() ==> (#[trigger] final(selections)@[i])@.len()
                == lengths@.len(),
        forall|selection: Seq<usize>| #[trigger]
            lists(final(selections)@, selection) <==> (lists(old(selections)@, selection) || (
            extends(selection, order@, old(bindings)@, depth as int) && is_selection(
                lengths@,
                selection,
            ) && viable_beyond(old(predicate).function(), order@, selection, depth as int))),
        final(predicate).function() == old(predicate).function(),
        final(predicate).asked() == old(predicate).asked() + asked_from(
            old(predicate).function(),
            lengths@,
            order@,
            old(bindings)@,
            depth as int,
            0,
        ),
    decreases lengths@.len() - depth,
{
    let ghost function = predicate.function();
    let ghost asked = predicate.asked();
    let count: usize = lengths.len();
    proof {
        lemma_axis_order(lengths@, lengths@.len());
    }
    let ghost start = bindings@;
    let ghost found = selections@;
    let axis: usize = order[depth];
    let mut value: usize = 0;
    assert(start[axis as int] is None) by {
        if is_bound(order@, depth as int, axis as int) {
            let position = choose|position: int|
                0 <= position < depth && #[trigger] order@[position] == axis;
            assert(order@[position] == order@[depth as int]);
        }
    }
    while value < lengths[axis]
        invariant
            axis < lengths@.len(),
            count == lengths@.len(),
            value <= lengths@[axis as int],
            order@ == axis_order(lengths@, lengths@.len()),
            order@.len() == lengths@.len(),
            order@[depth as int] == axis,
            start[axis as int] is None,
            depth < lengths@.len(),
            predicate.function() == function,
            predicate.asked() + asked_from(
                function,
                lengths@,
                order@,
                start,
                depth as int,
                value as int,
            ) == asked + asked_from(function, lengths@, order@, start, depth as int, 0),
            is_predicate(function, lengths@.len()),
            binds(lengths@, order@, start, depth as int),
            bindings@.len() == start.len(),
            bindings@.update(axis as int, None) == start,
            is_cartesian(selections@),
            forall|i: int|
                0 <= i < selections@.len() ==> (#[trigger] selections@[i])@.len() == lengths@.len(),
            forall|selection: Seq<usize>| #[trigger]
                lists(found, selection) ==> !extends(selection, order@, start, depth as int),
            forall|selection: Seq<usize>| #[trigger]
                lists(selections@, selection) <==> (lists(found, selection) || (extends(
                    selection,
                    order@,
                    start,
                    depth as int,
                ) && selection[axis as int] < value && is_selection(lengths@, selection)
                    && viable_beyond(function, order@, selection, depth as int))),
        decreases lengths@[axis as int] - value,
    {
        let ghost earlier = selections@;
        bindings.set(axis, Some(value));
        let ghost bound = start.update(axis as int, Some(value));
        assert(bindings@ =~= bound);
        proof {
            lemma_bind_next(lengths@, order@, start, depth as int, value);
        }
        let complete: bool = depth + 1 == count;
        let ghost asked_before = predicate.asked();
        let viable: bool = predicate.ask(bindings.as_slice(), complete);
        proof {
            assert(viable == accepts(function, bound, complete)) by {
                lemma_answer(function, bindings, complete, viable);
            }
            assert forall|selection: Seq<usize>|
                selection.len() == lengths@.len() implies #[trigger] viable_beyond(
                function,
                order@,
                selection,
                depth as int,
            ) == (accepts(
                function,
                partial_selection(selection, order@, depth + 1),
                complete,
            ) && viable_beyond(function, order@, selection, depth + 1)) by {
                let next = partial_selection(selection, order@, depth + 1);
            }
        }
        if viable {
            if complete {
                proof {
                    lemma_axis_order(lengths@, lengths@.len());
                    assert forall|a: int| 0 <= a < lengths@.len() implies #[trigger] bindings@[a] is Some by {
                        assert(is_bound(order@, lengths@.len() as int, a));
                    }
                }
                let selection: Vec<usize> = unwrap_all(bindings);
                proof {
                    assert forall|a: int| 0 <= a < lengths@.len() implies selection@[a] < lengths@[a] by {
                        assert(bindings@[a] == complete_selection(selection@)[a]);
                    }
                    assert(partial_selection(selection@, order@, depth + 1) =~= bound) by {
                        assert forall|a: int| 0 <= a < lengths@.len() implies partial_selection(
                            selection@,
                            order@,
                            depth + 1,
                        )[a] == bound[a] by {
                            assert(is_bound(order@, lengths@.len() as int, a));
                        }
                    }
                    assert(extends(selection@, order@, bound, depth + 1));
                    assert(complete_selection(selection@)[axis as int] == Some(value));
                    assert(extends(selection@, order@, start, depth as int));
                    assert forall|other: Seq<usize>|
                        other.len() == lengths@.len() && #[trigger] extends(
                            other,
                            order@,
                            bound,
                            depth + 1,
                        ) implies other == selection@ by {
                        assert forall|a: int| 0 <= a < lengths@.len() implies other[a]
                            == selection@[a] by {
                            assert(is_bound(order@, lengths@.len() as int, a));
                            assert(partial_selection(other, order@, depth + 1)[a] == Some(other[a]));
                            assert(partial_selection(selection@, order@, depth + 1)[a] == Some(
                                selection@[a],
                            ));
                        }
                        assert(other =~= selection@);
                    }
                }
                insert_in_order(selections, selection);
            } else {
                proof {
                    assert forall|selection: Seq<usize>| #[trigger]
                        lists(selections@, selection) implies !extends(
                        selection,
                        order@,
                        bound,
                        depth + 1,
                    ) by {}
                }
                enumerate_extensions(lengths, order, predicate, bindings, depth + 1, selections);
            }
        }
        proof {
            assert forall|selection: Seq<usize>| #[trigger]
                lists(selections@, selection) <==> (lists(found, selection) || (extends(
                    selection,
                    order@,
                    start,
                    depth as int,
                ) && selection[axis as int] < value + 1 && is_selection(lengths@, selection)
                    && viable_beyond(function, order@, selection, depth as int))) by {
                let before = lists(earlier, selection);
                let here = extends(selection, order@, start, depth as int);
                if here {
                    assert(partial_selection(selection, order@, depth as int).len() == lengths@.len());
                    assert(extends(selection, order@, bound, depth + 1) <==> selection[axis as int]
                        == value);
                    let stays = viable_beyond(function, order@, selection, depth as int);
                }
                if extends(selection, order@, bound, depth + 1) {
                    assert(partial_selection(selection, order@, depth + 1).len() == lengths@.len());
                    assert(here);
                }
            }
        }
        assert(predicate.asked() + asked_from(
            function,
            lengths@,
            order@,
            start,
            depth as int,
            value + 1,
        ) =~= asked_before + asked_from(
            function,
            lengths@,
            order@,
            start,
            depth as int,
            value as int,
        ));
        value += 1;
    }
    assert(predicate.asked() =~= asked + asked_from(
        function,
        lengths@,
        order@,
        start,
        depth as int,
        0,
    ));
    bindings.set(axis, None);
    assert(bindings@ =~= start);
    proof {
        assert forall|selection: Seq<usize>| #[trigger]
            lists(selections@, selection) <==> (lists(found, selection) || (extends(
                selection,
                order@,
                start,
                depth as int,
            ) && is_selection(lengths@, selection) && viable_beyond(
                function,
                order@,
                selection,
                depth as int,
            ))) by {}
    }
}

/// What binding the next axis of the order means for the selections that extend the bindings.
proof fn lemma_bind_next(
    lengths: Seq<usize>,
    order: Seq<usize>,
    start: Seq<Option<usize>>,
    depth: int,
    value: usize,
)
    requires
        lengths.len() <= usize::MAX,
        order == axis_order(lengths, lengths.len()),
        0 <= depth < lengths.len(),
        binds(lengths, order, start, depth),
        value < lengths[order[depth] as int],
    ensures
        binds(lengths, order, start.update(order[depth] as int, Some(value)), depth + 1),
        forall|selection: Seq<usize>| selection.len() == lengths.len() ==>
            ((#[trigger] extends(
                selection,
                order,
                start.update(order[depth] as int, Some(value)),
                depth + 1,
            )) <==> (extends(selection, order, start, depth) && selection[order[depth] as int]
                == value)),
{
    lemma_axis_order(lengths, lengths.len());
    let axis = order[depth] as int;
    let bound = start.update(axis, Some(value));
    assert forall|other: int| #[trigger]
        is_bound(order, depth + 1, other) <==> (is_bound(order, depth, other) || other == axis) by {
        if is_bound(order, depth + 1, other) {
            let position = choose|position: int|
                0 <= position < depth + 1 && #[trigger] order[position] == other;
            if position < depth {
                assert(is_bound(order, depth, other));
            }
        }
        if is_bound(order, depth, other) {
            let position = choose|position: int|
                0 <= position < depth && #[trigger] order[position] == other;
            assert(order[position] == other && position < depth + 1);
        }
        if other == axis {
            assert(order[depth] == other);
        }
    }
    assert(!is_bound(order, depth, axis)) by {
        if is_bound(order, depth, axis) {
            let position = choose|position: int|
                0 <= position < depth && #[trigger] order[position] == axis;
            assert(order[position] == order[depth]);
        }
    }
    assert forall|a: int| 0 <= a < lengths.len() implies match #[trigger] bound[a] {
        Some(v) => is_bound(order, depth + 1, a) && v < lengths[a],
        None => !is_bound(order, depth + 1, a),
    } by {
        assert(a != axis ==> bound[a] == start[a]);
    }
    assert forall|selection: Seq<usize>| selection.len() == lengths.len() implies (
    (#[trigger] extends(selection, order, bound, depth + 1)) <==> (extends(
        selection,
        order,
        start,
        depth,
    ) && selection[axis] == value)) by {
        let after = partial_selection(selection, order, depth + 1);
        let before = partial_selection(selection, order, depth);
        assert(is_bound(order, depth + 1, axis));
        assert(after[axis] == Some(selection[axis]));
        if after == bound {
            assert forall|a: int| 0 <= a < lengths.len() implies before[a] == start[a] by {
                assert(after[a] == bound[a]);
                assert(is_bound(order, depth + 1, a) <==> (is_bound(order, depth, a) || a == axis));
            }
            assert(before =~= start);
        }
        if before == start && selection[axis] == value {
            assert forall|a: int| 0 <= a < lengths.len() implies after[a] == bound[a] by {
                assert(before[a] == start[a]);
                assert(is_bound(order, depth + 1, a) <==> (is_bound(order, depth, a) || a == axis));
            }
            assert(after =~= bound);
        }
    }
}

/// The value that a call returned is the answer of the predicate.
proof fn lemma_answer<F: Fn(&[Option<usize>], bool) -> bool>(
    could_satisfy: F,
    bindings: &Vec<Option<usize>>,
    complete: bool,
    answer: bool,
)
    requires
        is_predicate(could_satisfy, bindings@.len()),
        exists|slice: &[Option<usize>]| #[trigger]
            slice@ == bindings@ && call_ensures(could_satisfy, (slice, complete), answer),
    ensures
        answer == accepts(could_satisfy, bindings@, complete),
{
}

/// The values of bindings of which none is missing.
fn unwrap_all(bindings: &Vec<Option<usize>>) -> (values: Vec<usize>)
    requires
        forall|axis: int| 0 <= axis < bindings@.len() ==> #[trigger] bindings@[axis] is Some,
    ensures
        bindings@ == complete_selection(values@),
{
    let mut values: Vec<usize> = Vec::new();
    let mut axis: usize = 0;
    while axis < bindings.len()
        invariant
            axis <= bindings@.len(),
            values@.len() == axis,
            forall|i: int| 0 <= i < bindings@.len() ==> #[trigger] bindings@[i] is Some,
            forall|i: int| 0 <= i < axis ==> bindings@[i] == Some(#[trigger] values@[i]),
        decreases bindings@.len() - axis,
    {
        values.push(bindings[axis].unwrap());
        axis += 1;
    }
    assert(bindings@ =~= complete_selection(values@));
    values
}

/// Enumerates the satisfying selections in Cartesian-product order, and leaves out every partial
/// assignment that the predicate refuses. The predicate is asked about [`asked_of`].
pub fn search_combinations<F: Fn(&[Option<usize>], bool) -> bool>(
    domain_lengths: &[usize],
    predicate: &mut Predicate<F>,
) -> (combinations: Vec<Vec<usize>>)
    requires
        is_predicate(old(predicate).function(), domain_lengths@.len()),
    ensures
        is_cartesian(combinations@),
        forall|selection: Seq<usize>| #[trigger]
            lists(combinations@, selection) <==> is_enumerated(
                old(predicate).function(),
                domain_lengths@,
                selection,
            ),
        final(predicate).function() == old(predicate).function(),
        final(predicate).asked() == old(predicate).asked() + asked_of(
            old(predicate).function(),
            domain_lengths@,
        ),
{
    let ghost could_satisfy = predicate.function();
    let ghost asked = predicate.asked();
    let complete: bool = domain_lengths.len() == 0;
    let mut bindings: Vec<Option<usize>> = Vec::new();
    let mut axis: usize = 0;
    while axis < domain_lengths.len()
        invariant
            axis <= domain_lengths@.len(),
            bindings@.len() == axis,
            forall|i: int| 0 <= i < axis ==> #[trigger] bindings@[i] is None,
        decreases domain_lengths@.len() - axis,
    {
        bindings.push(None);
        axis += 1;
    }
    let ghost order = axis_order(domain_lengths@, domain_lengths@.len());
    let ghost empty = bindings@;
    let mut combinations: Vec<Vec<usize>> = Vec::new();
    let viable: bool = predicate.ask(bindings.as_slice(), complete);
    assert(empty =~= nothing_bound(domain_lengths@.len()));
    proof {
        lemma_axis_order(domain_lengths@, domain_lengths@.len());
        lemma_answer(could_satisfy, &bindings, complete, viable);
        assert forall|selection: Seq<usize>|
            selection.len() == domain_lengths@.len() implies #[trigger] partial_selection(
            selection,
            order,
            0,
        ) == empty by {
            assert(partial_selection(selection, order, 0) =~= empty);
        }
        assert forall|selection: Seq<usize>| #[trigger]
            is_enumerated(could_satisfy, domain_lengths@, selection) <==> (viable && is_selection(
                domain_lengths@,
                selection,
            ) && viable_beyond(could_satisfy, order, selection, 0)) by {
            if selection.len() == domain_lengths@.len() {
                assert(partial_selection(selection, order, 0) == empty);
            }
        }
    }
    if !viable {
        assert(predicate.asked() =~= asked + asked_of(could_satisfy, domain_lengths@));
        assert forall|selection: Seq<usize>| !lists(combinations@, selection) by {}
        return combinations;
    }
    if complete {
        assert(predicate.asked() =~= asked + asked_of(could_satisfy, domain_lengths@));
        combinations.push(Vec::new());
        proof {
            assert forall|selection: Seq<usize>| #[trigger]
                lists(combinations@, selection) <==> is_enumerated(
                    could_satisfy,
                    domain_lengths@,
                    selection,
                ) by {
                assert(combinations@[0]@ =~= Seq::<usize>::empty());
                if selection.len() == 0 {
                    assert(selection =~= Seq::<usize>::empty());
                }
            }
        }
        return combinations;
    }
    let axes: Vec<usize> = sorted_axes(domain_lengths);
    proof {
        assert forall|a: int| !(#[trigger] is_bound(order, 0, a)) by {}
        assert forall|selection: Seq<usize>| !lists(combinations@, selection) by {}
    }
    enumerate_extensions(domain_lengths, &axes, predicate, &mut bindings, 0, &mut combinations);
    assert(predicate.asked() =~= asked + asked_of(could_satisfy, domain_lengths@));
    combinations
}

/// Enumerates the satisfying selections in Cartesian-product order, and leaves out every partial
/// assignment that `could_satisfy` refuses.
pub fn constrained_combinations<F: Fn(&[Option<usize>], bool) -> bool>(
    domain_lengths: &[usize],
    could_satisfy: F,
) -> (combinations: Vec<Vec<usize>>)
    requires
        is_predicate(could_satisfy, domain_lengths@.len()),
    ensures
        is_cartesian(combinations@),
        forall|selection: Seq<usize>| #[trigger]
            lists(combinations@, selection) <==> is_enumerated(
                could_satisfy,
                domain_lengths@,
                selection,
            ),
{
    let mut predicate: Predicate<F> = Predicate::new(could_satisfy);
    search_combinations(domain_lengths, &mut predicate)
}

/// Where a predicate that accepts a selection also accepts each of its partial assignments,
/// pruning loses nothing: exactly the accepted selections of the Cartesian product are enumerated.
pub proof fn law_pruning_is_lossless<F: Fn(&[Option<usize>], bool) -> bool>(
    could_satisfy: F,
    lengths: Seq<usize>,
)
    requires
        lengths.len() <= usize::MAX,
        forall|selection: Seq<usize>, order: Seq<usize>, depth: int|
            is_selection(lengths, selection) && depth < selection.len() && accepts(
                could_satisfy,
                complete_selection(selection),
                true,
            ) ==> accepts(
                could_satisfy,
                #[trigger] partial_selection(selection, order, depth),
                false,
            ),
    ensures
        forall|selection: Seq<usize>| #[trigger]
            is_enumerated(could_satisfy, lengths, selection) <==> (is_selection(lengths, selection)
                && accepts(could_satisfy, complete_selection(selection), true)),
{
    let order = axis_order(lengths, lengths.len());
    lemma_axis_order(lengths, lengths.len());
    assert forall|selection: Seq<usize>| #[trigger]
        is_enumerated(could_satisfy, lengths, selection) <==> (is_selection(lengths, selection)
            && accepts(could_satisfy, complete_selection(selection), true)) by {
        let whole = partial_selection(selection, order, selection.len() as int);
        if is_selection(lengths, selection) {
            assert forall|axis: int| 0 <= axis < selection.len() implies whole[axis] == Some(
                selection[axis],
            ) by {
                assert(is_bound(order, lengths.len() as int, axis));
            }
            assert(whole =~= complete_selection(selection));
        }
    }
}

/// Whether every axis has a value.
pub open spec fn is_complete(bindings: Seq<Option<usize>>) -> bool {
    forall|axis: int| 0 <= axis < bindings.len() ==> #[trigger] bindings[axis] is Some
}

/// Whether `later` gives every axis that has a value in `earlier` that same value.
pub open spec fn is_extension(later: Seq<Option<usize>>, earlier: Seq<Option<usize>>) -> bool {
    &&& later.len() == earlier.len()
    &&& forall|axis: int|
        0 <= axis < earlier.len() && earlier[axis] is Some ==> #[trigger] later[axis] == earlier[axis]
}

/// Whether the flag of each question says that its selection is complete.
pub open spec fn flags_are_right(asked: Seq<Question>) -> bool {
    forall|i: int| 0 <= i < asked.len() ==> (#[trigger] asked[i]).1 == is_complete(asked[i].0)
}

/// Whether no question is about an extension of a selection that was refused before.
pub open spec fn nothing_below_a_refusal<F: Fn(&[Option<usize>], bool) -> bool>(
    could_satisfy: F,
    asked: Seq<Question>,
) -> bool {
    forall|i: int, j: int|
        0 <= i < j < asked.len() && !accepts(
            could_satisfy,
            (#[trigger] asked[i]).0,
            asked[i].1,
        ) ==> !is_extension((#[trigger] asked[j]).0, asked[i].0)
}

/// A selection that gives a value to the first axes of the order is complete once it does so for all.
proof fn lemma_complete_at_the_end(
    lengths: Seq<usize>,
    order: Seq<usize>,
    bindings: Seq<Option<usize>>,
    depth: int,
)
    requires
        lengths.len() <= usize::MAX,
        order == axis_order(lengths, lengths.len()),
        0 <= depth <= lengths.len(),
        binds(lengths, order, bindings, depth),
    ensures
        is_complete(bindings) == (depth == lengths.len()),
{
    lemma_axis_order(lengths, lengths.len());
    if depth == lengths.len() {
        assert forall|axis: int| 0 <= axis < bindings.len() implies #[trigger] bindings[axis] is Some by {
            assert(is_bound(order, depth, axis));
        }
    } else {
        let axis = order[depth] as int;
        if is_bound(order, depth, axis) {
            let position = choose|position: int|
                0 <= position < depth && #[trigger] order[position] == axis;
            assert(order[position] == order[depth]);
        }
        assert(bindings[axis] is None);
    }
}

/// What is asked to extend the bindings extends them, gives the next axis one of the values that are
/// left, and keeps the rules of the questions.
proof fn lemma_asked_from<F: Fn(&[Option<usize>], bool) -> bool>(
    could_satisfy: F,
    lengths: Seq<usize>,
    order: Seq<usize>,
    bindings: Seq<Option<usize>>,
    depth: int,
    value: int,
)
    requires
        lengths.len() <= usize::MAX,
        order == axis_order(lengths, lengths.len()),
        0 <= depth < lengths.len(),
        0 <= value,
        binds(lengths, order, bindings, depth),
    ensures
        ({
            let asked = asked_from(could_satisfy, lengths, order, bindings, depth, value);
            &&& forall|i: int|
                0 <= i < asked.len() ==> is_extension((#[trigger] asked[i]).0, bindings)
                    && asked[i].0[order[depth] as int] is Some
                    && asked[i].0[order[depth] as int]->0 >= value
            &&& flags_are_right(asked)
            &&& nothing_below_a_refusal(could_satisfy, asked)
        }),
    decreases lengths.len() - depth, lengths[order[depth] as int] - value,
{
    lemma_axis_order(lengths, lengths.len());
    let axis = order[depth] as int;
    let asked = asked_from(could_satisfy, lengths, order, bindings, depth, value);
    if value < lengths[axis] {
        let bound = bindings.update(axis, Some(value as usize));
        let complete = depth + 1 == lengths.len();
        lemma_bind_next(lengths, order, bindings, depth, value as usize);
        lemma_complete_at_the_end(lengths, order, bindings, depth);
        lemma_complete_at_the_end(lengths, order, bound, depth + 1);
        let enters = accepts(could_satisfy, bound, complete) && !complete;
        let below = if enters {
            asked_from(could_satisfy, lengths, order, bound, depth + 1, 0)
        } else {
            Seq::empty()
        };
        if enters {
            lemma_asked_from(could_satisfy, lengths, order, bound, depth + 1, 0);
        }
        let rest = asked_from(could_satisfy, lengths, order, bindings, depth, value + 1);
        lemma_asked_from(could_satisfy, lengths, order, bindings, depth, value + 1);
        assert(asked == seq![(bound, complete)] + below + rest);
        assert(bindings[axis] is None) by {
            if is_bound(order, depth, axis) {
                let position = choose|position: int|
                    0 <= position < depth && #[trigger] order[position] == axis;
                assert(order[position] == order[depth]);
            }
        }
        assert forall|i: int| 0 <= i < below.len() implies is_extension(
            (#[trigger] below[i]).0,
            bindings,
        ) && below[i].0[axis] == Some(value as usize) by {
            assert(below[i].0[axis] == bound[axis]);
            assert forall|other: int|
                0 <= other < bindings.len() && bindings[other] is Some implies #[trigger] below[i].0[other]
                == bindings[other] by {
                assert(bound[other] == bindings[other]);
            }
        }
        lemma_joined(could_satisfy, bindings, axis, value as usize, bound, complete, below, rest);
    }
}

/// The questions about one value of an axis, about what extends it, and about the later values of the
/// axis make up questions that keep the rules.
proof fn lemma_joined<F: Fn(&[Option<usize>], bool) -> bool>(
    could_satisfy: F,
    bindings: Seq<Option<usize>>,
    axis: int,
    value: usize,
    bound: Seq<Option<usize>>,
    complete: bool,
    below: Seq<Question>,
    rest: Seq<Question>,
)
    requires
        0 <= axis < bindings.len(),
        bindings[axis] is None,
        bound == bindings.update(axis, Some(value)),
        complete == is_complete(bound),
        !accepts(could_satisfy, bound, complete) ==> below.len() == 0,
        flags_are_right(below),
        flags_are_right(rest),
        nothing_below_a_refusal(could_satisfy, below),
        nothing_below_a_refusal(could_satisfy, rest),
        forall|i: int|
            0 <= i < below.len() ==> is_extension((#[trigger] below[i]).0, bindings) && below[i].0[axis]
                == Some(value),
        forall|i: int|
            0 <= i < rest.len() ==> is_extension((#[trigger] rest[i]).0, bindings) && rest[i].0[axis] is Some
                && rest[i].0[axis]->0 > value,
    ensures
        ({
            let asked = seq![(bound, complete)] + below + rest;
            &&& forall|i: int|
                0 <= i < asked.len() ==> is_extension((#[trigger] asked[i]).0, bindings)
                    && asked[i].0[axis] is Some && asked[i].0[axis]->0 >= value
            &&& flags_are_right(asked)
            &&& nothing_below_a_refusal(could_satisfy, asked)
        }),
{
    let asked = seq![(bound, complete)] + below + rest;
    let first = 1 + below.len() as int;
    assert(asked[0] == (bound, complete));
    assert forall|i: int| 1 <= i < first implies #[trigger] asked[i] == below[i - 1] by {}
    assert forall|i: int| first <= i < asked.len() implies #[trigger] asked[i] == rest[i - first] by {}
    assert forall|i: int, j: int|
        0 <= i < j < asked.len() && !accepts(
            could_satisfy,
            (#[trigger] asked[i]).0,
            asked[i].1,
        ) implies !is_extension((#[trigger] asked[j]).0, asked[i].0) by {
        if i < first {
            assert(asked[i].0[axis] == Some(value)) by {
                if i > 0 {
                    assert(asked[i] == below[i - 1]);
                }
            }
            if j < first {
                assert(i > 0);
                assert(asked[i] == below[i - 1] && asked[j] == below[j - 1]);
            } else {
                assert(asked[j] == rest[j - first]);
                assert(asked[j].0[axis] != asked[i].0[axis]);
                assert(asked[i].0.len() > axis) by {
                    if i > 0 {
                        assert(asked[i] == below[i - 1]);
                    }
                }
            }
        } else {
            assert(asked[i] == rest[i - first] && asked[j] == rest[j - first]);
        }
    }
    assert forall|i: int| 0 <= i < asked.len() implies (#[trigger] asked[i]).1 == is_complete(
        asked[i].0,
    ) by {
        if 1 <= i < first {
            assert(asked[i] == below[i - 1]);
        } else if i >= first {
            assert(asked[i] == rest[i - first]);
        }
    }
    assert forall|i: int| 0 <= i < asked.len() implies is_extension((#[trigger] asked[i]).0, bindings)
        && asked[i].0[axis] is Some && asked[i].0[axis]->0 >= value by {
        if 1 <= i < first {
            assert(asked[i] == below[i - 1]);
        } else if i >= first {
            assert(asked[i] == rest[i - first]);
        }
    }
}

/// A selection that stays viable beyond the bindings is asked about on the way to extend them.
proof fn lemma_viable_is_asked<F: Fn(&[Option<usize>], bool) -> bool>(
    could_satisfy: F,
    lengths: Seq<usize>,
    order: Seq<usize>,
    bindings: Seq<Option<usize>>,
    depth: int,
    value: int,
    selection: Seq<usize>,
)
    requires
        lengths.len() <= usize::MAX,
        order == axis_order(lengths, lengths.len()),
        0 <= depth < lengths.len(),
        0 <= value <= selection[order[depth] as int],
        binds(lengths, order, bindings, depth),
        is_selection(lengths, selection),
        extends(selection, order, bindings, depth),
        viable_beyond(could_satisfy, order, selection, depth),
    ensures
        asked_from(could_satisfy, lengths, order, bindings, depth, value).contains(
            (complete_selection(selection), true),
        ),
    decreases lengths.len() - depth, lengths[order[depth] as int] - value,
{
    lemma_axis_order(lengths, lengths.len());
    let axis = order[depth] as int;
    let asked = asked_from(could_satisfy, lengths, order, bindings, depth, value);
    let wanted: Question = (complete_selection(selection), true);
    let bound = bindings.update(axis, Some(value as usize));
    let complete = depth + 1 == lengths.len();
    let rest = asked_from(could_satisfy, lengths, order, bindings, depth, value + 1);
    lemma_bind_next(lengths, order, bindings, depth, value as usize);
    if value < selection[axis] {
        lemma_viable_is_asked(could_satisfy, lengths, order, bindings, depth, value + 1, selection);
        let at = choose|at: int| 0 <= at < rest.len() && rest[at] == wanted;
        assert(asked[asked.len() - rest.len() + at] == wanted);
    } else {
        assert(extends(selection, order, bound, depth + 1));
        assert(partial_selection(selection, order, depth + 1) == bound);
        assert(accepts(could_satisfy, bound, complete));
        if complete {
            lemma_complete_at_the_end(lengths, order, bound, depth + 1);
            assert(bound =~= complete_selection(selection)) by {
                assert forall|other: int| 0 <= other < lengths.len() implies bound[other] == Some(
                    selection[other],
                ) by {
                    assert(bound[other] is Some);
                }
            }
            assert(asked[0] == wanted);
        } else {
            lemma_viable_is_asked(could_satisfy, lengths, order, bound, depth + 1, 0, selection);
            let below = asked_from(could_satisfy, lengths, order, bound, depth + 1, 0);
            let at = choose|at: int| 0 <= at < below.len() && below[at] == wanted;
            assert(asked[1 + at] == wanted);
        }
    }
}

/// How the predicate is asked: first about the selection that gives no axis a value, always with a flag
/// that says whether the selection is complete, and never about an extension of a selection that it
/// refused before.
pub proof fn law_questions<F: Fn(&[Option<usize>], bool) -> bool>(
    could_satisfy: F,
    lengths: Seq<usize>,
)
    requires
        lengths.len() <= usize::MAX,
    ensures
        asked_of(could_satisfy, lengths).len() > 0,
        asked_of(could_satisfy, lengths)[0] == (nothing_bound(lengths.len()), lengths.len() == 0),
        flags_are_right(asked_of(could_satisfy, lengths)),
        nothing_below_a_refusal(could_satisfy, asked_of(could_satisfy, lengths)),
{
    let asked = asked_of(could_satisfy, lengths);
    let order = axis_order(lengths, lengths.len());
    let nothing = nothing_bound(lengths.len());
    let complete = lengths.len() == 0;
    assert(is_complete(nothing) == complete) by {
        if !complete {
            assert(nothing[0] is None);
        }
    }
    assert(asked[0] == (nothing, complete));
    if accepts(could_satisfy, nothing, complete) && !complete {
        let below = asked_from(could_satisfy, lengths, order, nothing, 0, 0);
        assert(binds(lengths, order, nothing, 0)) by {
            assert forall|axis: int| !(#[trigger] is_bound(order, 0, axis)) by {}
        }
        lemma_asked_from(could_satisfy, lengths, order, nothing, 0, 0);
        assert forall|i: int| 1 <= i < asked.len() implies #[trigger] asked[i] == below[i - 1] by {}
        assert forall|i: int| 0 <= i < asked.len() implies (#[trigger] asked[i]).1 == is_complete(
            asked[i].0,
        ) by {
            if i > 0 {
                assert(asked[i] == below[i - 1]);
            }
        }
        assert forall|i: int, j: int|
            0 <= i < j < asked.len() && !accepts(
                could_satisfy,
                (#[trigger] asked[i]).0,
                asked[i].1,
            ) implies !is_extension((#[trigger] asked[j]).0, asked[i].0) by {
            assert(i > 0);
            assert(asked[i] == below[i - 1] && asked[j] == below[j - 1]);
        }
    }
}

/// Every selection that is enumerated was asked about as a complete one, and accepted.
pub proof fn law_enumerated_is_asked<F: Fn(&[Option<usize>], bool) -> bool>(
    could_satisfy: F,
    lengths: Seq<usize>,
    selection: Seq<usize>,
)
    requires
        lengths.len() <= usize::MAX,
        is_enumerated(could_satisfy, lengths, selection),
    ensures
        asked_of(could_satisfy, lengths).contains((complete_selection(selection), true)),
        accepts(could_satisfy, complete_selection(selection), true),
{
    let asked = asked_of(could_satisfy, lengths);
    let order = axis_order(lengths, lengths.len());
    let nothing = nothing_bound(lengths.len());
    let wanted: Question = (complete_selection(selection), true);
    lemma_axis_order(lengths, lengths.len());
    assert forall|axis: int| !(#[trigger] is_bound(order, 0, axis)) by {}
    assert(partial_selection(selection, order, 0) =~= nothing);
    let whole = partial_selection(selection, order, selection.len() as int);
    assert(whole =~= complete_selection(selection)) by {
        assert forall|axis: int| 0 <= axis < selection.len() implies whole[axis] == Some(
            selection[axis],
        ) by {
            assert(is_bound(order, lengths.len() as int, axis));
        }
    }
    if lengths.len() == 0 {
        assert(asked[0] == wanted);
    } else {
        let below = asked_from(could_satisfy, lengths, order, nothing, 0, 0);
        lemma_viable_is_asked(could_satisfy, lengths, order, nothing, 0, 0, selection);
        let at = choose|at: int| 0 <= at < below.len() && below[at] == wanted;
        assert(asked[1 + at] == wanted);
    }
}

/// Combinations have a value of its domain for every axis and stand in order: of two, the earlier one has the
/// lesser value where they first differ.
pub proof fn law_combinations_stand_in_order<F: Fn(&[Option<usize>], bool) -> bool>(
    domain_lengths: &[usize],
    could_satisfy: F,
    combinations: Vec<Vec<usize>>,
    first: int,
    second: int,
    axis: int,
)
    requires
        call_ensures(constrained_combinations::<F>, (domain_lengths, could_satisfy), combinations),
        0 <= first < second < combinations@.len(),
        0 <= axis < domain_lengths@.len(),
    ensures
        combinations@[first]@.len() == domain_lengths@.len(),
        combinations@[first]@[axis] < domain_lengths@[axis],
        combinations@[second]@[axis] < domain_lengths@[axis],
        combinations@[first]@ != combinations@[second]@,
        (forall|before: int|
            0 <= before < axis ==> combinations@[first]@[before] == combinations@[second]@[before])
            ==> combinations@[first]@[axis] <= combinations@[second]@[axis],
{
    assert(lists(combinations@, combinations@[first]@));
    assert(lists(combinations@, combinations@[second]@));
    assert(precedes(combinations@[first]@, combinations@[second]@));
}

} // verus!
