//! The values that the generic parameters of a kernel function take together.
use vstd::prelude::*;

use crate::build::constraints::{self, Constraints, Refusal};
use crate::build::cpu::bindings;
use crate::build::cpu::function::{FunctionModel, KernelError, KernelFunction};
use crate::text;

verus! {

/// The first `count` selections, each with every value below `length` behind it.
pub open spec fn extended(selections: Seq<Seq<usize>>, length: nat, count: int) -> Seq<Seq<usize>>
    decreases count,
{
    if count <= 0 {
        Seq::empty()
    } else {
        extended(selections, length, count - 1) + Seq::new(
            length,
            |value: int| selections[count - 1].push(value as usize),
        )
    }
}

/// The selections from the first `count` variant lists, the last list varying fastest.
pub open spec fn product(variants: Seq<(Seq<char>, Seq<Seq<char>>)>, count: int) -> Seq<Seq<usize>>
    decreases count,
{
    if count <= 0 {
        seq![Seq::empty()]
    } else {
        let before = product(variants, count - 1);
        extended(before, variants[count - 1].1.len(), before.len() as int)
    }
}

/// One of the first `count` selections with a value below `length` behind it.
spec fn is_extension(
    selections: Seq<Seq<usize>>,
    length: nat,
    count: int,
    selection: Seq<usize>,
) -> bool {
    exists|i: int, value: int|
        0 <= i < count && 0 <= value < length && selection == #[trigger] selections[i].push(
            value as usize,
        )
}

proof fn lemma_extended(selections: Seq<Seq<usize>>, length: nat, count: int)
    requires
        0 <= count <= selections.len(),
    ensures
        extended(selections, length, count).len() == count * length,
        forall|i: int, value: int|
            #![trigger extended(selections, length, count)[i * length + value]]
            0 <= i < count && 0 <= value < length ==> extended(selections, length, count)[i * length
                + value] == selections[i].push(value as usize),
        forall|k: int|
            0 <= k < extended(selections, length, count).len() ==> is_extension(
                selections,
                length,
                count,
                #[trigger] extended(selections, length, count)[k],
            ),
    decreases count,
{
    if count > 0 {
        lemma_extended(selections, length, count - 1);
        let before = extended(selections, length, count - 1);
        let added = Seq::new(length, |value: int| selections[count - 1].push(value as usize));
        let all = extended(selections, length, count);
        assert((count - 1) * length + length == count * length) by (nonlinear_arith);
        assert forall|i: int, value: int| 0 <= i < count && 0 <= value < length implies
            #[trigger] all[i * length + value] == selections[i].push(value as usize) by {
            if i < count - 1 {
                assert(i * length + value < (count - 1) * length) by (nonlinear_arith)
                    requires
                        i < count - 1,
                        value < length,
                ;
                assert(before[i * length + value] == selections[i].push(value as usize));
            } else {
                assert(all[(count - 1) * length + value] == added[value]);
            }
        }
        assert forall|k: int| 0 <= k < all.len() implies is_extension(
            selections,
            length,
            count,
            #[trigger] all[k],
        ) by {
            if k < before.len() {
                assert(before[k] == all[k]);
                let (i, value) = choose|i: int, value: int|
                    0 <= i < count - 1 && 0 <= value < length && before[k]
                        == #[trigger] selections[i].push(value as usize);
                assert(all[k] == selections[i].push(value as usize));
            } else {
                let value = k - before.len();
                assert(all[k] == added[value]);
                assert(all[k] == selections[count - 1].push(value as usize));
            }
        }
    }
}

/// A selection from the first `count` variant lists.
pub open spec fn is_partial_selection(
    variants: Seq<(Seq<char>, Seq<Seq<char>>)>,
    selection: Seq<usize>,
    count: int,
) -> bool {
    &&& selection.len() == count
    &&& forall|i: int| 0 <= i < count ==> selection[i] < (#[trigger] variants[i]).1.len()
}

/// The product holds selections and nothing else.
pub proof fn law_product_holds_selections(
    variants: Seq<(Seq<char>, Seq<Seq<char>>)>,
    count: int,
    index: int,
)
    requires
        0 <= count <= variants.len(),
        0 <= index < product(variants, count).len(),
        forall|i: int| 0 <= i < variants.len() ==> (#[trigger] variants[i]).1.len() <= usize::MAX,
    ensures
        is_partial_selection(variants, product(variants, count)[index], count),
    decreases count,
{
    if count > 0 {
        let before = product(variants, count - 1);
        let length = variants[count - 1].1.len();
        lemma_extended(before, length, before.len() as int);
        let last = product(variants, count)[index];
        assert(is_extension(before, length, before.len() as int, last));
        let (i, value) = choose|i: int, value: int|
            0 <= i < before.len() && 0 <= value < length && last == #[trigger] before[i].push(
                value as usize,
            );
        law_product_holds_selections(variants, count - 1, i);
        let selection = product(variants, count)[index];
        assert forall|j: int| 0 <= j < count implies selection[j] < (#[trigger] variants[j]).1.len() by {
            if j < count - 1 {
                assert(selection[j] == before[i][j]);
            }
        }
    }
}

/// Every selection is in the product.
pub proof fn law_product_is_complete(
    variants: Seq<(Seq<char>, Seq<Seq<char>>)>,
    count: int,
    selection: Seq<usize>,
)
    requires
        0 <= count <= variants.len(),
        is_partial_selection(variants, selection, count),
    ensures
        product(variants, count).contains(selection),
    decreases count,
{
    if count > 0 {
        let before = product(variants, count - 1);
        let length = variants[count - 1].1.len();
        let shorter = selection.drop_last();
        assert forall|j: int| 0 <= j < count - 1 implies shorter[j] < (
        #[trigger] variants[j]).1.len() by {
            assert(selection[j] < variants[j].1.len());
        }
        law_product_is_complete(variants, count - 1, shorter);
        let i = choose|i: int| 0 <= i < before.len() && before[i] == shorter;
        lemma_extended(before, length, before.len() as int);
        assert(variants[count - 1].1.len() > selection[count - 1]);
        let value = selection[count - 1] as int;
        assert(extended(before, length, before.len() as int)[i * length + value]
            == before[i].push(value as usize));
        assert(before[i].push(value as usize) =~= selection);
        assert(0 <= i * length + value < before.len() * length) by (nonlinear_arith)
            requires
                0 <= i < before.len(),
                0 <= value < length,
        ;
        assert(product(variants, count)[i * length + value] == selection);
    } else {
        assert(selection =~= Seq::empty());
        assert(product(variants, count)[0] == selection);
    }
}

/// The selections from all variant lists.
pub fn cartesian_product(variants: &[(String, Vec<String>)]) -> (selections: Vec<Vec<usize>>)
    ensures
        selections.deep_view() == product(variants.deep_view(), variants@.len() as int),
        bindings::are_selections(variants.deep_view(), selections.deep_view()),
{
    let mut selections: Vec<Vec<usize>> = Vec::new();
    selections.push(Vec::new());
    assert(selections.deep_view() =~= seq![Seq::<usize>::empty()]) by {
        assert(selections@[0].deep_view() =~= Seq::<usize>::empty());
    }
    let mut i: usize = 0;
    while i < variants.len()
        invariant
            i <= variants@.len(),
            selections.deep_view() == product(variants.deep_view(), i as int),
        decreases variants@.len() - i,
    {
        assert(variants.deep_view()[i as int] == variants@[i as int].deep_view());
        selections = extend(&selections, variants[i].1.len());
        i += 1;
    }
    proof {
        let model = variants.deep_view();
        assert forall|j: int| 0 <= j < model.len() implies (#[trigger] model[j]).1.len()
            <= usize::MAX by {
            assert(model[j] == variants@[j].deep_view());
            assert(variants@[j].1@.len() <= usize::MAX) by {
                vstd::std_specs::vec::axiom_spec_len(&variants@[j].1);
            }
        }
        assert forall|k: int| 0 <= k < selections.deep_view().len() implies bindings::is_selection(
            model,
            #[trigger] selections.deep_view()[k],
        ) by {
            law_product_holds_selections(model, model.len() as int, k);
        }
    }
    selections
}

fn extend(selections: &[Vec<usize>], length: usize) -> (longer: Vec<Vec<usize>>)
    ensures
        longer.deep_view() == extended(
            selections.deep_view(),
            length as nat,
            selections@.len() as int,
        ),
{
    let mut longer: Vec<Vec<usize>> = Vec::new();
    assert(longer.deep_view() =~= Seq::empty());
    let mut i: usize = 0;
    while i < selections.len()
        invariant
            i <= selections@.len(),
            longer.deep_view() == extended(selections.deep_view(), length as nat, i as int),
        decreases selections@.len() - i,
    {
        let ghost before = longer.deep_view();
        let ghost source = selections.deep_view()[i as int];
        let mut value: usize = 0;
        assert(longer.deep_view() =~= before + Seq::new(
            0,
            |v: int| source.push(v as usize),
        ));
        while value < length
            invariant
                i < selections@.len(),
                value <= length,
                source == selections.deep_view()[i as int],
                longer.deep_view() == before + Seq::new(
                    value as nat,
                    |v: int| source.push(v as usize),
                ),
            decreases length - value,
        {
            let ghost shorter = longer.deep_view();
            let mut selection: Vec<usize> = Vec::new();
            let mut j: usize = 0;
            while j < selections[i].len()
                invariant
                    i < selections@.len(),
                    j <= selections@[i as int]@.len(),
                    selection@ == selections@[i as int]@.take(j as int),
                decreases selections@[i as int]@.len() - j,
            {
                selection.push(selections[i][j]);
                j += 1;
                assert(selection@ =~= selections@[i as int]@.take(j as int));
            }
            selection.push(value);
            assert(selection.deep_view() =~= source.push(value));
            longer.push(selection);
            assert(longer.deep_view() =~= shorter.push(source.push(value)));
            value += 1;
            assert(longer.deep_view() =~= before + Seq::new(
                value as nat,
                |v: int| source.push(v as usize),
            ));
        }
        i += 1;
        assert(longer.deep_view() =~= extended(
            selections.deep_view(),
            length as nat,
            i as int,
        ));
    }
    longer
}

/// Those of the first `count` selections that are kept.
pub open spec fn kept(selections: Seq<Seq<usize>>, keep: Seq<bool>, count: int) -> Seq<Seq<usize>>
    decreases count,
{
    if count <= 0 {
        Seq::empty()
    } else {
        let before = kept(selections, keep, count - 1);
        if keep[count - 1] {
            before.push(selections[count - 1])
        } else {
            before
        }
    }
}

proof fn lemma_kept_are_selections(
    variants: Seq<(Seq<char>, Seq<Seq<char>>)>,
    selections: Seq<Seq<usize>>,
    keep: Seq<bool>,
    count: int,
)
    requires
        0 <= count <= selections.len(),
        bindings::are_selections(variants, selections),
    ensures
        bindings::are_selections(variants, kept(selections, keep, count)),
    decreases count,
{
    if count > 0 {
        lemma_kept_are_selections(variants, selections, keep, count - 1);
        let all = kept(selections, keep, count);
        assert forall|i: int| 0 <= i < all.len() implies bindings::is_selection(
            variants,
            #[trigger] all[i],
        ) by {
            let before = kept(selections, keep, count - 1);
            if i < before.len() {
                assert(all[i] == before[i]);
            } else {
                assert(all[i] == selections[count - 1]);
            }
        }
    }
}

/// Where everything is kept, nothing changes.
pub proof fn law_keeping_all_changes_nothing(
    selections: Seq<Seq<usize>>,
    keep: Seq<bool>,
    count: int,
)
    requires
        0 <= count <= selections.len(),
        forall|i: int| 0 <= i < count ==> keep[i],
    ensures
        kept(selections, keep, count) == selections.take(count),
    decreases count,
{
    if count > 0 {
        law_keeping_all_changes_nothing(selections, keep, count - 1);
        assert(selections.take(count) =~= selections.take(count - 1).push(selections[count - 1]));
    } else {
        assert(selections.take(count) =~= Seq::empty());
    }
}

/// Keeps some of the selections.
pub fn keep_selections(
    variants: &[(String, Vec<String>)],
    selections: Vec<Vec<usize>>,
    keep: &[bool],
) -> (rest: Vec<Vec<usize>>)
    requires
        keep@.len() == selections@.len(),
        bindings::are_selections(variants.deep_view(), selections.deep_view()),
    ensures
        rest.deep_view() == kept(selections.deep_view(), keep@, keep@.len() as int),
        bindings::are_selections(variants.deep_view(), rest.deep_view()),
{
    let mut rest: Vec<Vec<usize>> = Vec::new();
    assert(rest.deep_view() =~= Seq::empty());
    let mut i: usize = 0;
    while i < selections.len()
        invariant
            i <= selections@.len(),
            keep@.len() == selections@.len(),
            rest.deep_view() == kept(selections.deep_view(), keep@, i as int),
        decreases selections@.len() - i,
    {
        if keep[i] {
            let ghost before = rest.deep_view();
            let mut selection: Vec<usize> = Vec::new();
            let mut j: usize = 0;
            while j < selections[i].len()
                invariant
                    i < selections@.len(),
                    j <= selections@[i as int]@.len(),
                    selection@ == selections@[i as int]@.take(j as int),
                decreases selections@[i as int]@.len() - j,
            {
                selection.push(selections[i][j]);
                j += 1;
                assert(selection@ =~= selections@[i as int]@.take(j as int));
            }
            assert(selection.deep_view() =~= selections.deep_view()[i as int]);
            rest.push(selection);
            assert(rest.deep_view() =~= before.push(selections.deep_view()[i as int]));
        }
        i += 1;
    }
    proof {
        lemma_kept_are_selections(
            variants.deep_view(),
            selections.deep_view(),
            keep@,
            keep@.len() as int,
        );
    }
    rest
}

/// The values in the first `count` variant lists, one list after another.
pub open spec fn values_of(variants: Seq<(Seq<char>, Seq<Seq<char>>)>, count: int) -> Seq<Seq<char>>
    decreases count,
{
    if count <= 0 {
        Seq::empty()
    } else {
        values_of(variants, count - 1) + variants[count - 1].1
    }
}

/// The values that the parameters may have.
pub fn variant_values(variants: &[(String, Vec<String>)]) -> (values: Vec<String>)
    ensures
        values.deep_view() == values_of(variants.deep_view(), variants@.len() as int),
{
    let mut values: Vec<String> = Vec::new();
    assert(values.deep_view() =~= Seq::empty());
    let mut i: usize = 0;
    while i < variants.len()
        invariant
            i <= variants@.len(),
            values.deep_view() == values_of(variants.deep_view(), i as int),
        decreases variants@.len() - i,
    {
        let ghost before = values.deep_view();
        assert(variants.deep_view()[i as int] == variants@[i as int].deep_view());
        let mut j: usize = 0;
        assert(before + variants@[i as int].1.deep_view().take(0) =~= before);
        while j < variants[i].1.len()
            invariant
                i < variants@.len(),
                j <= variants@[i as int].1@.len(),
                values.deep_view() == before + variants@[i as int].1.deep_view().take(j as int),
            decreases variants@[i as int].1@.len() - j,
        {
            let ghost shorter = values.deep_view();
            values.push(text::copy_str(variants[i].1[j].as_str()));
            j += 1;
            assert(values.deep_view() =~= shorter.push(
                variants@[i as int].1.deep_view()[j - 1],
            ));
            assert(values.deep_view() =~= before + variants@[i as int].1.deep_view().take(
                j as int,
            ));
        }
        assert(variants@[i as int].1.deep_view().take(j as int)
            =~= variants@[i as int].1.deep_view());
        i += 1;
    }
    values
}

/// The generic parameters, each with its value.
pub open spec fn bindings_of_selection(function: FunctionModel, selection: Seq<usize>) -> Seq<
    (Seq<char>, Seq<char>),
> {
    Seq::new(
        function.parameters.len(),
        |i: int| (function.parameters[i].0, function.variants[i].1[selection[i] as int]),
    )
}

/// The generic parameters, each with its value.
pub fn bind_selection(function: &KernelFunction, selection: &[usize]) -> (bound: Vec<
    (String, String),
>)
    requires
        function.parameters@.len() == function.variants@.len(),
        bindings::is_selection(function.deep_view().variants, selection@),
    ensures
        bound.deep_view() == bindings_of_selection(function.deep_view(), selection@),
{
    let ghost model = function.deep_view();
    let mut bound: Vec<(String, String)> = Vec::new();
    let mut i: usize = 0;
    assert(bound.deep_view() =~= bindings_of_selection(model, selection@).take(0));
    while i < function.parameters.len()
        invariant
            i <= function.parameters@.len(),
            function.parameters@.len() == function.variants@.len(),
            model == function.deep_view(),
            bindings::is_selection(model.variants, selection@),
            bound.deep_view() == bindings_of_selection(model, selection@).take(i as int),
        decreases function.parameters@.len() - i,
    {
        let ghost before = bound.deep_view();
        assert(model.variants[i as int] == function.variants@[i as int].deep_view());
        assert(model.parameters[i as int] == function.parameters@[i as int].deep_view());
        let value: usize = selection[i];
        assert(model.variants[i as int].1[value as int]
            == function.variants@[i as int].1@[value as int]@);
        bound.push(
            (
                text::copy_str(function.parameters[i].0.as_str()),
                text::copy_str(function.variants[i].1[value].as_str()),
            ),
        );
        i += 1;
        assert(bound.deep_view() =~= before.push(bindings_of_selection(model, selection@)[i - 1]));
        assert(bound.deep_view() =~= bindings_of_selection(model, selection@).take(i as int));
    }
    assert(bound.deep_view() =~= bindings_of_selection(model, selection@));
    bound
}

/// The constraints of a function, whose variants have these namespaces, can get the answer for a
/// selection.
pub open spec fn is_answered(
    namespaces: Seq<(Seq<char>, Seq<Seq<char>>)>,
    function: FunctionModel,
    selection: Seq<usize>,
    answer: Result<bool, Refusal>,
) -> bool {
    constraints::is_answer(
        namespaces,
        function.constraints,
        bindings_of_selection(function, selection),
        false,
        answer,
    )
}

/// The constraints of a function can keep just these of the selections; without constraints all are
/// kept.
pub open spec fn are_answers(
    function: FunctionModel,
    selections: Seq<Seq<usize>>,
    keep: Seq<bool>,
) -> bool {
    &&& keep.len() == selections.len()
    &&& if function.constraints.len() == 0 {
        forall|i: int| 0 <= i < keep.len() ==> #[trigger] keep[i]
    } else {
        exists|namespaces: Seq<(Seq<char>, Seq<Seq<char>>)>| #[trigger]
            constraints::are_namespaces(
                namespaces,
                values_of(function.variants, function.variants.len() as int),
            ) && forall|i: int|
                0 <= i < keep.len() ==> is_answered(
                    namespaces,
                    function,
                    selections[i],
                    Ok(#[trigger] keep[i]),
                )
    }
}

/// The constraints can be refused an answer for some selection, while all selections before it have
/// answers.
pub open spec fn is_unanswered(
    function: FunctionModel,
    selections: Seq<Seq<usize>>,
    refusal: Refusal,
) -> bool {
    exists|at: int, keep: Seq<bool>|
        0 <= at < selections.len() && #[trigger] is_unanswered_at(
            function,
            selections,
            refusal,
            at,
            keep,
        )
}

/// The selections before `at` can be answered by `keep`, and for the one at `at` the constraints can
/// be refused an answer.
pub open spec fn is_unanswered_at(
    function: FunctionModel,
    selections: Seq<Seq<usize>>,
    refusal: Refusal,
    at: int,
    keep: Seq<bool>,
) -> bool {
    &&& keep.len() == at
    &&& exists|namespaces: Seq<(Seq<char>, Seq<Seq<char>>)>| #[trigger]
        constraints::are_namespaces(
            namespaces,
            values_of(function.variants, function.variants.len() as int),
        ) && is_answered(namespaces, function, selections[at], Err(refusal)) && forall|i: int|
            0 <= i < at ==> is_answered(
                namespaces,
                function,
                selections[i],
                Ok(#[trigger] keep[i]),
            )
}

/// As many answers as there are selections, all of them yes.
pub(crate) fn keep_all(count: usize) -> (keep: Vec<bool>)
    ensures
        keep@.len() == count,
        forall|i: int| 0 <= i < keep@.len() ==> keep@[i],
{
    let mut keep: Vec<bool> = Vec::new();
    let mut i: usize = 0;
    while i < count
        invariant
            i <= count,
            keep@.len() == i,
            forall|j: int| 0 <= j < i ==> keep@[j],
        decreases count - i,
    {
        keep.push(true);
        i += 1;
    }
    keep
}

/// Asks the constraints of a function about each selection. Without constraints every selection is
/// kept, and nothing is evaluated.
pub fn ask_constraints(function: &KernelFunction, selections: &[Vec<usize>]) -> (keep: Result<
    Vec<bool>,
    KernelError,
>)
    requires
        function.parameters@.len() == function.variants@.len(),
        bindings::are_selections(function.deep_view().variants, selections.deep_view()),
    ensures
        match keep {
            Ok(keep) => are_answers(function.deep_view(), selections.deep_view(), keep@),
            Err(KernelError::ConstraintSyntax { index }) => constraints::is_refused(
                values_of(function.variants.deep_view(), function.variants@.len() as int),
                function.constraints.deep_view(),
                index as int,
            ),
            Err(KernelError::ConstraintValue { index }) => is_unanswered(
                function.deep_view(),
                selections.deep_view(),
                Refusal::Condition(index),
            ),
            Err(KernelError::VariantValue { index }) => is_unanswered(
                function.deep_view(),
                selections.deep_view(),
                Refusal::Value(index),
            ),
            Err(_) => false,
        },
{
    let ghost model = function.deep_view();
    let ghost all = selections.deep_view();
    if function.constraints.len() == 0 {
        return Ok(keep_all(selections.len()));
    }
    let mut keep: Vec<bool> = Vec::new();
    let values: Vec<String> = variant_values(&function.variants);
    let constraints: Constraints = match Constraints::new(&values, &function.constraints) {
        Ok(constraints) => constraints,
        Err(index) => {
            return Err(KernelError::ConstraintSyntax { index });
        },
    };
    let ghost namespaces = constraints.namespaces();
    let mut i: usize = 0;
    while i < selections.len()
        invariant
            i <= selections@.len(),
            keep@.len() == i,
            model == function.deep_view(),
            all == selections.deep_view(),
            function.parameters@.len() == function.variants@.len(),
            bindings::are_selections(model.variants, all),
            constraints.conditions() == model.constraints,
            namespaces == constraints.namespaces(),
            constraints::are_namespaces(
                namespaces,
                values_of(model.variants, model.variants.len() as int),
            ),
            forall|j: int|
                0 <= j < i ==> is_answered(namespaces, model, all[j], Ok(#[trigger] keep@[j])),
        decreases selections@.len() - i,
    {
        assert(all[i as int] =~= selections@[i as int]@);
        let bound: Vec<(String, String)> = bind_selection(function, &selections[i]);
        match constraints.satisfied(&bound) {
            Ok(satisfied) => {
                keep.push(satisfied);
            },
            Err(refusal) => {
                assert(is_unanswered_at(model, all, refusal, i as int, keep@));
                return match refusal {
                    Refusal::Condition(index) => Err(KernelError::ConstraintValue { index }),
                    Refusal::Value(index) => Err(KernelError::VariantValue { index }),
                };
            },
        }
        i += 1;
    }
    Ok(keep)
}

proof fn lemma_kept_selections(selections: Seq<Seq<usize>>, keep: Seq<bool>, count: int)
    requires
        0 <= count <= selections.len(),
        selections.len() == keep.len(),
    ensures
        forall|selection: Seq<usize>|
            #![trigger kept(selections, keep, count).contains(selection)]
            kept(selections, keep, count).contains(selection) <==> is_kept(
                selections,
                keep,
                count,
                selection,
            ),
        kept(selections, keep, count).len() == keep.take(count).filter(|kept: bool| kept).len(),
    decreases count,
{
    reveal(Seq::filter);
    if count > 0 {
        lemma_kept_selections(selections, keep, count - 1);
        assert(keep.take(count).drop_last() =~= keep.take(count - 1));
        let before = kept(selections, keep, count - 1);
        let all = kept(selections, keep, count);
        assert forall|selection: Seq<usize>|
            #![trigger all.contains(selection)]
            all.contains(selection) <==> is_kept(selections, keep, count, selection) by {
            assert(before.contains(selection) <==> is_kept(selections, keep, count - 1, selection));
            if all.contains(selection) {
                let j = choose|j: int| 0 <= j < all.len() && all[j] == selection;
                if j < before.len() {
                    assert(before[j] == selection);
                } else {
                    assert(selections[count - 1] == selection);
                }
            }
            if is_kept(selections, keep, count, selection) {
                if before.contains(selection) {
                    let j = choose|j: int| 0 <= j < before.len() && before[j] == selection;
                    assert(all[j] == selection);
                } else {
                    assert(keep[count - 1] && selections[count - 1] == selection);
                    assert(all[all.len() - 1] == selection);
                }
            }
        }
    }
}

/// The selection is one of the first `count` and is kept.
pub open spec fn is_kept(
    selections: Seq<Seq<usize>>,
    keep: Seq<bool>,
    count: int,
    selection: Seq<usize>,
) -> bool {
    exists|i: int| 0 <= i < count && keep[i] && #[trigger] selections[i] == selection
}

/// Of the selections just those are left that are kept.
pub proof fn law_kept_selections_are_left(
    variants: &[(String, Vec<String>)],
    selections: Vec<Vec<usize>>,
    keep: &[bool],
    rest: Vec<Vec<usize>>,
    at: int,
    selection: Seq<usize>,
)
    requires
        keep@.len() == selections@.len(),
        call_ensures(keep_selections, (variants, selections, keep), rest),
        0 <= at < keep@.len(),
    ensures
        keep@[at] ==> rest.deep_view().contains(selections@[at]@),
        rest.deep_view().contains(selection) ==> exists|i: int|
            0 <= i < keep@.len() && keep@[i] && #[trigger] selections.deep_view()[i] == selection,
        rest@.len() == keep@.filter(|kept: bool| kept).len(),
{
    let deep = selections.deep_view();
    assert(deep.len() == selections@.len());
    assert(rest.deep_view().len() == rest@.len());
    lemma_kept_selections(deep, keep@, keep@.len() as int);
    assert(keep@.take(keep@.len() as int) =~= keep@);
    assert(deep[at] == selections@[at].deep_view());
    assert(selections@[at].deep_view() =~= selections@[at]@);
    if keep@[at] {
        assert(is_kept(deep, keep@, keep@.len() as int, deep[at]));
    }
}

proof fn lemma_values_of(
    variants: Seq<(Seq<char>, Seq<Seq<char>>)>,
    count: int,
    list: int,
    at: int,
)
    requires
        0 <= count <= variants.len(),
    ensures
        0 <= list < count && 0 <= at < variants[list].1.len() ==> values_of(variants, count).contains(
            variants[list].1[at],
        ),
    decreases count,
{
    if 0 <= list < count && 0 <= at < variants[list].1.len() {
        let before = values_of(variants, count - 1);
        let all = values_of(variants, count);
        if list < count - 1 {
            lemma_values_of(variants, count - 1, list, at);
            let place = choose|place: int|
                0 <= place < before.len() && before[place] == variants[list].1[at];
            assert(all[place] == variants[list].1[at]);
        } else {
            assert(all[before.len() + at] == variants[list].1[at]);
        }
    }
}

/// Every value of every list is among the values that parameters may have.
pub proof fn law_all_values_are_collected(
    variants: &[(String, Vec<String>)],
    values: Vec<String>,
    list: int,
    at: int,
)
    requires
        call_ensures(variant_values, (variants,), values),
        0 <= list < variants@.len(),
        0 <= at < variants.deep_view()[list].1.len(),
    ensures
        values.deep_view().contains(variants.deep_view()[list].1[at]),
{
    assert(variants.deep_view().len() == variants@.len());
    lemma_values_of(variants.deep_view(), variants@.len() as int, list, at);
}

/// Each parameter has the value of its own list that the selection names.
pub proof fn law_parameters_have_selected_values(
    function: KernelFunction,
    selection: &[usize],
    bound: Vec<(String, String)>,
    at: int,
)
    requires
        call_ensures(bind_selection, (&function, selection), bound),
        0 <= at < function.deep_view().parameters.len(),
    ensures
        bound@.len() == function.deep_view().parameters.len(),
        bound@[at].0@ == function.deep_view().parameters[at].0,
        bound@[at].1@ == function.deep_view().variants[at].1[selection@[at] as int],
{
    assert(bound.deep_view().len() == bound@.len());
    assert(bound.deep_view()[at] == bound@[at].deep_view());
    assert(bound@[at].deep_view() == (bound@[at].0@, bound@[at].1@));
}

proof fn lemma_extended_at(selections: Seq<Seq<usize>>, length: nat, count: int, at: int)
    requires
        0 <= count <= selections.len(),
    ensures
        extended(selections, length, count).len() == count * length,
        length > 0 && 0 <= at < count * length ==> 0 <= at / length as int && at / (length as int) < count
            && extended(selections, length, count)[at] == selections[at / length as int].push(
            (at % length as int) as usize,
        ),
    decreases count,
{
    if count > 0 {
        lemma_extended_at(selections, length, count - 1, at);
        assert(count * length == (count - 1) * length + length) by (nonlinear_arith);
        let before = extended(selections, length, count - 1);
        if length > 0 && 0 <= at < count * length {
            if at < (count - 1) * length {
                assert(extended(selections, length, count)[at] == before[at]);
            } else {
                let value = at - (count - 1) * length;
                vstd::arithmetic::div_mod::lemma_fundamental_div_mod_converse(
                    at,
                    length as int,
                    count - 1,
                    value,
                );
                assert(extended(selections, length, count)[at] == selections[count - 1].push(
                    value as usize,
                ));
            }
        }
    } else {
        assert(count * length == 0) by (nonlinear_arith)
            requires
                count == 0,
        ;
    }
}

/// The selections differ first where `left` has the lesser value.
pub open spec fn is_before(left: Seq<usize>, right: Seq<usize>) -> bool {
    exists|axis: int|
        0 <= axis < left.len() && axis < right.len() && #[trigger] left[axis] < right[axis] && left.take(
            axis,
        ) == right.take(axis)
}

proof fn lemma_product_is_ordered(
    variants: Seq<(Seq<char>, Seq<Seq<char>>)>,
    count: int,
    first: int,
    second: int,
)
    requires
        0 <= count <= variants.len(),
        0 <= first < second < product(variants, count).len(),
        forall|i: int| 0 <= i < variants.len() ==> (#[trigger] variants[i]).1.len() <= usize::MAX,
    ensures
        is_before(product(variants, count)[first], product(variants, count)[second]),
    decreases count,
{
    if count > 0 {
        let before = product(variants, count - 1);
        let length = variants[count - 1].1.len();
        lemma_extended_at(before, length, before.len() as int, first);
        lemma_extended_at(before, length, before.len() as int, second);
        if length == 0 {
            assert(before.len() * length == 0) by (nonlinear_arith)
                requires
                    length == 0,
            ;
        }
        let left = product(variants, count)[first];
        let right = product(variants, count)[second];
        let i = first / length as int;
        let j = second / length as int;
        vstd::arithmetic::div_mod::lemma_fundamental_div_mod(first, length as int);
        vstd::arithmetic::div_mod::lemma_fundamental_div_mod(second, length as int);
        vstd::arithmetic::div_mod::lemma_div_is_ordered(first, second, length as int);
        law_product_holds_selections(variants, count - 1, i);
        law_product_holds_selections(variants, count - 1, j);
        if i < j {
            lemma_product_is_ordered(variants, count - 1, i, j);
            let axis = choose|axis: int|
                0 <= axis < before[i].len() && axis < before[j].len() && #[trigger] before[i][axis]
                    < before[j][axis] && before[i].take(axis) == before[j].take(axis);
            assert(left[axis] < right[axis]);
            assert(left.take(axis) =~= before[i].take(axis));
            assert(right.take(axis) =~= before[j].take(axis));
        } else {
            assert(first % length as int == first - length * i);
            assert(second % length as int == second - length * j);
            assert(left[count - 1] < right[count - 1]);
            assert(left.take(count - 1) =~= right.take(count - 1));
        }
    }
}

/// All selections stand in order: of two, the earlier one has the lesser value where they first differ. So the
/// last list varies fastest, and none stands twice.
pub proof fn law_last_list_varies_fastest(
    variants: &[(String, Vec<String>)],
    selections: Vec<Vec<usize>>,
    first: int,
    second: int,
    selection: Seq<usize>,
)
    requires
        call_ensures(cartesian_product, (variants,), selections),
        forall|i: int|
            0 <= i < variants.deep_view().len() ==> (#[trigger] variants.deep_view()[i]).1.len()
                <= usize::MAX,
    ensures
        0 <= first < second < selections@.len() ==> is_before(
            selections.deep_view()[first],
            selections.deep_view()[second],
        ),
        selection.len() == variants@.len() && (forall|i: int|
            0 <= i < variants@.len() ==> selection[i] < (#[trigger] variants.deep_view()[i]).1.len())
            ==> selections.deep_view().contains(selection),
{
    assert(variants.deep_view().len() == variants@.len());
    assert(selections.deep_view().len() == selections@.len());
    if 0 <= first < second < selections@.len() {
        lemma_product_is_ordered(variants.deep_view(), variants@.len() as int, first, second);
    }
    if selection.len() == variants@.len() && (forall|i: int|
        0 <= i < variants@.len() ==> selection[i] < (#[trigger] variants.deep_view()[i]).1.len()) {
        law_product_is_complete(variants.deep_view(), variants@.len() as int, selection);
    }
}

} // verus!
