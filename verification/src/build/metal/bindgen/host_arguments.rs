//! The host expressions in the arguments of a Metal kernel.
//!
//! Expressions of the memory of a group come first, behind them those of the dispatch.
use vstd::prelude::*;

use crate::build::metal::bindgen::kernel_info::{
    self, element_count, split_dimensions, MetalArgument, MetalArgumentType,
};
use crate::text;

verus! {

/// The dimensions of the memory of a group that is there under a condition.
pub open spec fn own_memory(argument: MetalArgument<Seq<char>>) -> Seq<Seq<char>> {
    match (argument.condition, argument.argument_type) {
        (Some(_), MetalArgumentType::Shared { element_count: Some(dimensions), .. }) => {
            kernel_info::dimensions_from(dimensions, 0, Seq::empty())
        },
        _ => Seq::empty(),
    }
}

/// The extents of groups and threads.
pub open spec fn own_dispatch(argument: MetalArgument<Seq<char>>) -> Seq<Seq<char>> {
    match argument.argument_type {
        MetalArgumentType::Groups(extent) => seq![extent],
        MetalArgumentType::Threads(extent) => seq![extent],
        MetalArgumentType::Axis { total, per_group } => seq![total, per_group],
        _ => Seq::empty(),
    }
}

/// The expressions of the memory of the first `count` arguments.
pub open spec fn memory_expressions(arguments: Seq<MetalArgument<Seq<char>>>, count: int) -> Seq<
    Seq<char>,
>
    decreases count,
{
    if count <= 0 {
        Seq::empty()
    } else {
        memory_expressions(arguments, count - 1) + own_memory(arguments[count - 1])
    }
}

/// The expressions of the dispatch of the first `count` arguments.
pub open spec fn dispatch_expressions(arguments: Seq<MetalArgument<Seq<char>>>, count: int) -> Seq<
    Seq<char>,
>
    decreases count,
{
    if count <= 0 {
        Seq::empty()
    } else {
        dispatch_expressions(arguments, count - 1) + own_dispatch(arguments[count - 1])
    }
}

/// The host expressions of the arguments.
pub open spec fn expressions_of(arguments: Seq<MetalArgument<Seq<char>>>) -> Seq<Seq<char>> {
    memory_expressions(arguments, arguments.len() as int) + dispatch_expressions(
        arguments,
        arguments.len() as int,
    )
}

/// An argument with other host expressions: `memory` in place of its dimensions, whose product is then
/// the number of its elements, and `dispatch` in place of its extents.
pub open spec fn with_expressions(
    argument: MetalArgument<Seq<char>>,
    memory: Seq<Seq<char>>,
    dispatch: Seq<Seq<char>>,
) -> MetalArgument<Seq<char>> {
    MetalArgument {
        argument_type: match argument.argument_type {
            MetalArgumentType::Shared { element_count, element_size } => MetalArgumentType::Shared {
                element_count: if argument.condition is Some && element_count is Some {
                    Some(kernel_info::element_product(memory, memory.len() as int))
                } else {
                    element_count
                },
                element_size,
            },
            MetalArgumentType::Groups(_) => MetalArgumentType::Groups(dispatch[0]),
            MetalArgumentType::Threads(_) => MetalArgumentType::Threads(dispatch[0]),
            MetalArgumentType::Axis { .. } => MetalArgumentType::Axis {
                total: dispatch[0],
                per_group: dispatch[1],
            },
            other => other,
        },
        ..argument
    }
}

/// The argument at `index` with its host expressions replaced by those that stand at the same place of
/// `rewritten`.
pub open spec fn replaced_at(
    arguments: Seq<MetalArgument<Seq<char>>>,
    rewritten: Seq<Seq<char>>,
    index: int,
) -> MetalArgument<Seq<char>> {
    let memory = memory_expressions(arguments, index).len() as int;
    let dispatch = memory_expressions(arguments, arguments.len() as int).len() as int
        + dispatch_expressions(arguments, index).len();
    with_expressions(
        arguments[index],
        rewritten.subrange(memory, memory + own_memory(arguments[index]).len()),
        rewritten.subrange(dispatch, dispatch + own_dispatch(arguments[index]).len()),
    )
}

fn push_all(out: &mut Vec<String>, source: Vec<String>)
    ensures
        final(out).deep_view() == old(out).deep_view() + source.deep_view(),
{
    let ghost before = out.deep_view();
    let mut i: usize = 0;
    assert(before + source.deep_view().take(0) =~= before);
    while i < source.len()
        invariant
            i <= source@.len(),
            out.deep_view() == before + source.deep_view().take(i as int),
        decreases source@.len() - i,
    {
        let ghost shorter = out.deep_view();
        out.push(text::copy_str(source[i].as_str()));
        i += 1;
        assert(out.deep_view() =~= shorter.push(source.deep_view()[i - 1]));
        assert(out.deep_view() =~= before + source.deep_view().take(i as int));
    }
    assert(source.deep_view().take(i as int) =~= source.deep_view());
}

fn memory_of(argument: &MetalArgument<String>) -> (dimensions: Vec<String>)
    ensures
        dimensions.deep_view() == own_memory(argument.deep_view()),
{
    if argument.condition.is_some() {
        if let MetalArgumentType::Shared { element_count: Some(dimensions), .. } =
            &argument.argument_type {
            return split_dimensions(dimensions.as_str());
        }
    }
    let none: Vec<String> = Vec::new();
    assert(none.deep_view() =~= own_memory(argument.deep_view()));
    none
}

fn dispatch_of(argument: &MetalArgument<String>) -> (extents: Vec<String>)
    ensures
        extents.deep_view() == own_dispatch(argument.deep_view()),
{
    let mut extents: Vec<String> = Vec::new();
    match &argument.argument_type {
        MetalArgumentType::Groups(extent) | MetalArgumentType::Threads(extent) => {
            extents.push(text::copy_str(extent.as_str()));
        },
        MetalArgumentType::Axis { total, per_group } => {
            extents.push(text::copy_str(total.as_str()));
            extents.push(text::copy_str(per_group.as_str()));
        },
        _ => {},
    }
    assert(extents.deep_view() =~= own_dispatch(argument.deep_view()));
    extents
}

/// The host expressions of the arguments, in the order in which they are rewritten.
pub fn host_expressions(arguments: &[MetalArgument<String>]) -> (expressions: Vec<String>)
    ensures
        expressions.deep_view() == expressions_of(arguments.deep_view()),
{
    let ghost all = arguments.deep_view();
    let ghost count = arguments@.len() as int;
    let mut expressions: Vec<String> = Vec::new();
    assert(expressions.deep_view() =~= Seq::empty());
    let mut i: usize = 0;
    while i < arguments.len()
        invariant
            i <= arguments@.len(),
            all == arguments.deep_view(),
            expressions.deep_view() == memory_expressions(all, i as int),
        decreases arguments@.len() - i,
    {
        assert(all[i as int] == arguments@[i as int].deep_view());
        push_all(&mut expressions, memory_of(&arguments[i]));
        i += 1;
    }
    i = 0;
    assert(expressions.deep_view() =~= memory_expressions(all, count) + dispatch_expressions(all, 0));
    while i < arguments.len()
        invariant
            i <= arguments@.len(),
            all == arguments.deep_view(),
            count == arguments@.len(),
            expressions.deep_view() == memory_expressions(all, count) + dispatch_expressions(
                all,
                i as int,
            ),
        decreases arguments@.len() - i,
    {
        let ghost before = expressions.deep_view();
        assert(all[i as int] == arguments@[i as int].deep_view());
        push_all(&mut expressions, dispatch_of(&arguments[i]));
        i += 1;
        assert(expressions.deep_view() =~= memory_expressions(all, count) + dispatch_expressions(
            all,
            i as int,
        ));
    }
    expressions
}

proof fn lemma_expressions_grow(arguments: Seq<MetalArgument<Seq<char>>>, count: int, total: int)
    requires
        0 <= count <= total <= arguments.len(),
    ensures
        memory_expressions(arguments, count).len() <= memory_expressions(arguments, total).len(),
        dispatch_expressions(arguments, count).len() <= dispatch_expressions(
            arguments,
            total,
        ).len(),
    decreases total - count,
{
    if count < total {
        lemma_expressions_grow(arguments, count, total - 1);
    }
}

fn copy_range(source: &[String], from: usize, count: usize) -> (range: Vec<String>)
    requires
        from + count <= source@.len(),
    ensures
        range.deep_view() == source.deep_view().subrange(from as int, from + count),
{
    let mut range: Vec<String> = Vec::new();
    let end: usize = source.len();
    let mut i: usize = 0;
    assert(range.deep_view() =~= source.deep_view().subrange(from as int, from as int));
    while i < count
        invariant
            i <= count,
            from + count <= source@.len() == end,
            range.deep_view() == source.deep_view().subrange(from as int, from + i),
        decreases count - i,
    {
        let ghost before = range.deep_view();
        range.push(text::copy_str(source[from + i].as_str()));
        i += 1;
        assert(range.deep_view() =~= before.push(source.deep_view()[from + i - 1]));
        assert(range.deep_view() =~= source.deep_view().subrange(from as int, from + i));
    }
    range
}

fn replaced_type(argument: &MetalArgument<String>, memory: &[String], dispatch: &[String]) -> (
replaced: Option<MetalArgumentType<String>>)
    requires
        memory@.len() == own_memory(argument.deep_view()).len(),
        dispatch@.len() == own_dispatch(argument.deep_view()).len(),
    ensures
        ({
            let expected = with_expressions(
                argument.deep_view(),
                memory.deep_view(),
                dispatch.deep_view(),
            );
            match replaced {
                Some(argument_type) => argument_type.deep_view() == expected.argument_type,
                None => expected == argument.deep_view(),
            }
        }),
{
    match &argument.argument_type {
        MetalArgumentType::Shared { element_count: Some(dimensions), element_size } => {
            if argument.condition.is_none() {
                return None;
            }
            let parts: Vec<String> = split_dimensions(dimensions.as_str());
            assert(parts.deep_view().len() == parts@.len());
            Some(
                MetalArgumentType::Shared {
                    element_count: Some(element_count(memory)),
                    element_size: *element_size,
                },
            )
        },
        MetalArgumentType::Groups(_) => {
            assert(dispatch.deep_view()[0] == dispatch@[0]@);
            Some(MetalArgumentType::Groups(text::copy_str(dispatch[0].as_str())))
        },
        MetalArgumentType::Threads(_) => {
            assert(dispatch.deep_view()[0] == dispatch@[0]@);
            Some(MetalArgumentType::Threads(text::copy_str(dispatch[0].as_str())))
        },
        MetalArgumentType::Axis { .. } => {
            assert(dispatch.deep_view()[0] == dispatch@[0]@);
            assert(dispatch.deep_view()[1] == dispatch@[1]@);
            Some(
                MetalArgumentType::Axis {
                    total: text::copy_str(dispatch[0].as_str()),
                    per_group: text::copy_str(dispatch[1].as_str()),
                },
            )
        },
        _ => None,
    }
}

/// Puts the rewritten host expressions, in the order of [`host_expressions`], into the arguments.
pub fn replace_host_expressions(arguments: &mut Vec<MetalArgument<String>>, rewritten: &[String])
    requires
        rewritten@.len() == expressions_of(old(arguments).deep_view()).len(),
    ensures
        final(arguments).deep_view() == Seq::new(
            old(arguments)@.len(),
            |i: int| replaced_at(old(arguments).deep_view(), rewritten.deep_view(), i),
        ),
{
    let ghost all = arguments.deep_view();
    let ghost texts = rewritten.deep_view();
    let ghost count = arguments@.len() as int;
    let expressions: usize = rewritten.len();
    let mut dispatch: usize = 0;
    let mut i: usize = 0;
    while i < arguments.len()
        invariant
            i <= arguments@.len(),
            count == arguments@.len(),
            all == arguments.deep_view(),
            expressions == expressions_of(all).len(),
            dispatch == memory_expressions(all, i as int).len(),
        decreases arguments@.len() - i,
    {
        assert(all[i as int] == arguments@[i as int].deep_view());
        proof {
            lemma_expressions_grow(all, i + 1, count);
        }
        let own: Vec<String> = memory_of(&arguments[i]);
        assert(own@.len() == own.deep_view().len());
        dispatch += own.len();
        i += 1;
    }
    let mut memory: usize = 0;
    i = 0;
    while i < arguments.len()
        invariant
            i <= arguments@.len(),
            count == arguments@.len() == all.len(),
            texts == rewritten.deep_view(),
            rewritten@.len() == expressions_of(all).len() == expressions,
            memory == memory_expressions(all, i as int).len(),
            dispatch == memory_expressions(all, count).len() + dispatch_expressions(
                all,
                i as int,
            ).len(),
            forall|j: int|
                0 <= j < i ==> #[trigger] arguments.deep_view()[j] == replaced_at(all, texts, j),
            forall|j: int| i <= j < count ==> #[trigger] arguments.deep_view()[j] == all[j],
        decreases arguments@.len() - i,
    {
        let ghost before = arguments.deep_view();
        let ghost held = arguments@;
        assert(before[i as int] == held[i as int].deep_view());
        proof {
            lemma_expressions_grow(all, i + 1, count);
        }
        let dimensions: Vec<String> = memory_of(&arguments[i]);
        let extents: Vec<String> = dispatch_of(&arguments[i]);
        assert(dimensions@.len() == dimensions.deep_view().len());
        assert(extents@.len() == extents.deep_view().len());
        let memory_part: Vec<String> = copy_range(rewritten, memory, dimensions.len());
        let dispatch_part: Vec<String> = copy_range(rewritten, dispatch, extents.len());
        assert(memory_part@.len() == memory_part.deep_view().len());
        assert(dispatch_part@.len() == dispatch_part.deep_view().len());
        let replaced: Option<MetalArgumentType<String>> = replaced_type(
            &arguments[i],
            &memory_part,
            &dispatch_part,
        );
        if let Some(argument_type) = replaced {
            arguments[i].argument_type = argument_type;
        }
        assert forall|j: int| 0 <= j < count implies #[trigger] arguments.deep_view()[j] == if j
            == i {
            replaced_at(all, texts, j)
        } else {
            before[j]
        } by {
            assert(arguments.deep_view()[j] == arguments@[j].deep_view());
            assert(before[j] == held[j].deep_view());
            assert(j != i ==> arguments@[j] == held[j]);
        }
        memory += dimensions.len();
        dispatch += extents.len();
        i += 1;
    }
    assert(arguments.deep_view() =~= Seq::new(count as nat, |j: int| replaced_at(all, texts, j)));
}

proof fn lemma_dispatch_stands(
    arguments: Seq<MetalArgument<Seq<char>>>,
    count: int,
    at: int,
)
    requires
        0 <= at < count <= arguments.len(),
    ensures
        ({
            let before = dispatch_expressions(arguments, at).len() as int;
            let all = dispatch_expressions(arguments, count);
            let own = own_dispatch(arguments[at]);
            &&& before + own.len() <= all.len()
            &&& all.subrange(before, before + own.len()) == own
        }),
    decreases count,
{
    let before = dispatch_expressions(arguments, at).len() as int;
    let all = dispatch_expressions(arguments, count);
    let own = own_dispatch(arguments[at]);
    if at < count - 1 {
        lemma_dispatch_stands(arguments, count - 1, at);
        let shorter = dispatch_expressions(arguments, count - 1);
        assert(all.subrange(before, before + own.len()) =~= shorter.subrange(
            before,
            before + own.len(),
        ));
    } else {
        assert(all.subrange(before, before + own.len()) =~= own);
    }
}

/// Expressions that were not changed are put back where they were: every extent is the same again.
pub proof fn law_unchanged_expressions_are_put_back(
    arguments: &mut Vec<MetalArgument<String>>,
    source: &[MetalArgument<String>],
    expressions: Vec<String>,
    given: &[String],
    at: int,
)
    requires
        source.deep_view() == old(arguments).deep_view(),
        call_ensures(host_expressions, (source,), expressions),
        given.deep_view() == expressions.deep_view(),
        call_ensures(replace_host_expressions, (arguments, given), ()),
        0 <= at < old(arguments)@.len(),
    ensures
        final(arguments)@.len() == old(arguments)@.len(),
        ({
            let before = old(arguments).deep_view()[at];
            let after = final(arguments).deep_view()[at];
            &&& after.name == before.name
            &&& after.condition == before.condition
            &&& before.argument_type !is Shared || before.condition is None ==> after == before
        }),
{
    let deep = old(arguments).deep_view();
    let count = deep.len() as int;
    assert(count == old(arguments)@.len());
    assert(final(arguments).deep_view().len() == final(arguments)@.len());
    lemma_dispatch_stands(deep, count, at);
    let memory = memory_expressions(deep, count);
    let dispatch = dispatch_expressions(deep, count);
    let own = own_dispatch(deep[at]);
    let start = dispatch_expressions(deep, at).len() as int;
    let all = expressions_of(deep);
    assert(all.subrange(memory.len() + start, memory.len() + start + own.len()) =~= dispatch.subrange(
        start,
        start + own.len(),
    ));
    assert(final(arguments).deep_view()[at] == replaced_at(deep, all, at));
}

/// Extents are rewritten by what stands in their place: those of an axis in their order, all behind the
/// expressions of the memory.
pub proof fn law_extents_are_rewritten_in_their_order(
    arguments: Seq<MetalArgument<Seq<char>>>,
    rewritten: Seq<Seq<char>>,
    at: int,
)
    requires
        rewritten.len() == expressions_of(arguments).len(),
        0 <= at < arguments.len(),
    ensures
        ({
            let place = memory_expressions(arguments, arguments.len() as int).len() as int
                + dispatch_expressions(arguments, at).len();
            let expressions = expressions_of(arguments);
            match (arguments[at].argument_type, replaced_at(arguments, rewritten, at).argument_type) {
                (MetalArgumentType::Groups(extent), MetalArgumentType::Groups(written)) => extent
                    == expressions[place] && written == rewritten[place],
                (MetalArgumentType::Threads(extent), MetalArgumentType::Threads(written)) => extent
                    == expressions[place] && written == rewritten[place],
                (
                    MetalArgumentType::Axis { total, per_group },
                    MetalArgumentType::Axis { total: new_total, per_group: new_per_group },
                ) => total == expressions[place] && new_total == rewritten[place] && per_group
                    == expressions[place + 1] && new_per_group == rewritten[place + 1],
                (MetalArgumentType::Groups(_), _) => false,
                (MetalArgumentType::Threads(_), _) => false,
                (MetalArgumentType::Axis { .. }, _) => false,
                (MetalArgumentType::Shared { element_size, .. }, MetalArgumentType::Shared {
                    element_size: new_size,
                    ..
                }) => element_size == new_size,
                (left, right) => left == right,
            }
        }),
{
    let count = arguments.len() as int;
    lemma_dispatch_stands(arguments, count, at);
    let memory = memory_expressions(arguments, count);
    let dispatch = dispatch_expressions(arguments, count);
    let own = own_dispatch(arguments[at]);
    let start = dispatch_expressions(arguments, at).len() as int;
    assert forall|i: int| 0 <= i < own.len() implies expressions_of(arguments)[memory.len() + start + i]
        == #[trigger] own[i] by {
        assert(dispatch.subrange(start, start + own.len())[i] == own[i]);
    }
    if own.len() > 0 {
        assert(own[0] == expressions_of(arguments)[memory.len() + start + 0]);
    }
    if own.len() > 1 {
        assert(own[1] == expressions_of(arguments)[memory.len() + start + 1]);
    }
}

} // verus!
