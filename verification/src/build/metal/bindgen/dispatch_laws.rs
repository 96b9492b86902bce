//! What the call that runs a kernel says of the kernel's arguments.
use vstd::prelude::*;

use crate::build::metal::bindgen::dispatch::{self, parse, Dispatch, DispatchShape, SizeKind};
use crate::build::metal::bindgen::kernel_info::{BindgenError, MetalArgument, MetalArgumentType};
use crate::build::rust_source;

verus! {

/// How many of the first `count` arguments give threads along an axis of their own.
pub open spec fn axes_among(arguments: Seq<MetalArgument<Seq<char>>>, count: int) -> int
    decreases count,
{
    if count <= 0 {
        0
    } else {
        axes_among(arguments, count - 1) + if arguments[count - 1].argument_type is Axis {
            1int
        } else {
            0
        }
    }
}

/// How many of the first `count` arguments give a number of groups.
pub open spec fn groups_among(arguments: Seq<MetalArgument<Seq<char>>>, count: int) -> int
    decreases count,
{
    if count <= 0 {
        0
    } else {
        groups_among(arguments, count - 1) + if arguments[count - 1].argument_type is Groups {
            1int
        } else {
            0
        }
    }
}

/// How many of the first `count` arguments give a number of threads of a group.
pub open spec fn threads_among(arguments: Seq<MetalArgument<Seq<char>>>, count: int) -> int
    decreases count,
{
    if count <= 0 {
        0
    } else {
        threads_among(arguments, count - 1) + if arguments[count - 1].argument_type is Threads {
            1int
        } else {
            0
        }
    }
}

/// The arguments that give a size of a kind.
spec fn among(arguments: Seq<MetalArgument<Seq<char>>>, kind: SizeKind, count: int) -> int {
    match kind {
        SizeKind::AxisTotal => axes_among(arguments, count),
        SizeKind::AxisPerGroup => axes_among(arguments, count),
        SizeKind::Groups => groups_among(arguments, count),
        SizeKind::Threads => threads_among(arguments, count),
    }
}

proof fn lemma_sizes_are_counted(arguments: Seq<MetalArgument<Seq<char>>>, kind: SizeKind, count: int)
    requires
        0 <= count <= arguments.len(),
    ensures
        dispatch::sizes_of(arguments, kind, count).len() == among(arguments, kind, count),
    decreases count,
{
    if count > 0 {
        lemma_sizes_are_counted(arguments, kind, count - 1);
    }
}

proof fn lemma_size_stands_at_its_count(
    arguments: Seq<MetalArgument<Seq<char>>>,
    kind: SizeKind,
    at: int,
    count: int,
)
    requires
        0 <= at < count <= arguments.len(),
        dispatch::size_of_argument(arguments[at], kind) is Some,
    ensures
        among(arguments, kind, at) < dispatch::sizes_of(arguments, kind, count).len(),
        dispatch::sizes_of(arguments, kind, count)[among(arguments, kind, at)] == dispatch::size_of_argument(
            arguments[at],
            kind,
        )->0,
        among(arguments, kind, at) >= 0,
    decreases count,
{
    lemma_sizes_are_counted(arguments, kind, at);
    if at == count - 1 {
        lemma_sizes_are_counted(arguments, kind, count - 1);
    } else {
        lemma_size_stands_at_its_count(arguments, kind, at, count - 1);
    }
}

/// Whether some argument gives threads along an axis of their own.
pub open spec fn gives_axes(arguments: Seq<MetalArgument<Seq<char>>>) -> bool {
    exists|i: int| 0 <= i < arguments.len() && (#[trigger] arguments[i]).argument_type is Axis
}

/// Whether some argument gives a number of groups.
pub open spec fn gives_groups(arguments: Seq<MetalArgument<Seq<char>>>) -> bool {
    exists|i: int| 0 <= i < arguments.len() && (#[trigger] arguments[i]).argument_type is Groups
}

/// Whether some argument gives a number of threads of a group.
pub open spec fn gives_threads(arguments: Seq<MetalArgument<Seq<char>>>) -> bool {
    exists|i: int| 0 <= i < arguments.len() && (#[trigger] arguments[i]).argument_type is Threads
}

/// Whether the number of groups is read from a buffer.
pub open spec fn reads_groups(arguments: Seq<MetalArgument<Seq<char>>>) -> bool {
    exists|i: int| 0 <= i < arguments.len() && (#[trigger] arguments[i]).argument_type is GroupsIndirect
}

proof fn lemma_found(arguments: Seq<MetalArgument<Seq<char>>>, count: int)
    requires
        0 <= count <= arguments.len(),
    ensures
        axes_among(arguments, count) >= 0,
        groups_among(arguments, count) >= 0,
        threads_among(arguments, count) >= 0,
        axes_among(arguments, count) > 0 <==> exists|i: int|
            0 <= i < count && (#[trigger] arguments[i]).argument_type is Axis,
        groups_among(arguments, count) > 0 <==> exists|i: int|
            0 <= i < count && (#[trigger] arguments[i]).argument_type is Groups,
        threads_among(arguments, count) > 0 <==> exists|i: int|
            0 <= i < count && (#[trigger] arguments[i]).argument_type is Threads,
        dispatch::has_indirect(arguments, count) <==> exists|i: int|
            0 <= i < count && (#[trigger] arguments[i]).argument_type is GroupsIndirect,
    decreases count,
{
    if count > 0 {
        lemma_found(arguments, count - 1);
        assert(arguments[count - 1] == arguments[count - 1]);
    }
}

proof fn lemma_kinds(arguments: Seq<MetalArgument<Seq<char>>>)
    ensures
        dispatch::has_kind(arguments, SizeKind::AxisTotal) == gives_axes(arguments),
        dispatch::has_kind(arguments, SizeKind::Groups) == gives_groups(arguments),
        dispatch::has_kind(arguments, SizeKind::Threads) == gives_threads(arguments),
        dispatch::has_indirect(arguments, arguments.len() as int) == reads_groups(arguments),
{
    lemma_found(arguments, arguments.len() as int);
    lemma_sizes_are_counted(arguments, SizeKind::AxisTotal, arguments.len() as int);
    lemma_sizes_are_counted(arguments, SizeKind::Groups, arguments.len() as int);
    lemma_sizes_are_counted(arguments, SizeKind::Threads, arguments.len() as int);
}

/// Where the arguments give axes, the call counts threads along them; where they have the number of
/// groups in a buffer, the call reads it there; else the call counts groups. Axes together with one of
/// the others, and groups that are both given and read, contradict each other, and there are no more
/// than three sizes of a kind.
pub proof fn law_arguments_decide_what_is_counted(
    arguments: &[MetalArgument<String>],
    dispatch: Result<Dispatch, BindgenError>,
)
    requires
        call_ensures(parse, (arguments,), dispatch),
    ensures
        ({
            let given = arguments.deep_view();
            let count = given.len() as int;
            match dispatch {
                Ok(dispatch) => {
                    &&& match dispatch.shape {
                        DispatchShape::Axes => gives_axes(given) && !gives_groups(given)
                            && !gives_threads(given) && !reads_groups(given),
                        DispatchShape::Indirect => reads_groups(given) && !gives_axes(given)
                            && !gives_groups(given),
                        DispatchShape::Direct => !gives_axes(given) && !reads_groups(given),
                    }
                    &&& axes_among(given, count) <= 3
                    &&& groups_among(given, count) <= 3
                    &&& threads_among(given, count) <= 3
                },
                Err(BindgenError::MixedAxes) => gives_axes(given) && (gives_groups(given)
                    || gives_threads(given) || reads_groups(given)),
                Err(BindgenError::MixedGroups) => !gives_axes(given) && reads_groups(given)
                    && gives_groups(given),
                Err(BindgenError::TooManyAxes) => axes_among(given, count) > 3 || groups_among(
                    given,
                    count,
                ) > 3 || threads_among(given, count) > 3,
                Err(_) => false,
            }
        }),
{
    let given = arguments.deep_view();
    let count = given.len() as int;
    lemma_kinds(given);
    lemma_found(given, count);
    lemma_sizes_are_counted(given, SizeKind::AxisTotal, count);
    lemma_sizes_are_counted(given, SizeKind::AxisPerGroup, count);
    lemma_sizes_are_counted(given, SizeKind::Groups, count);
    lemma_sizes_are_counted(given, SizeKind::Threads, count);
}

/// The sizes stand in the order of the arguments that give them: an axis at the place that counts the
/// axes before it, its threads first and its threads of a group second; groups first and threads of a
/// group second likewise. A place that no argument gives holds a one.
pub proof fn law_sizes_stand_in_their_order(
    arguments: &[MetalArgument<String>],
    dispatch: Dispatch,
    at: int,
)
    requires
        call_ensures(parse, (arguments,), Ok::<Dispatch, BindgenError>(dispatch)),
        0 <= at < arguments@.len(),
    ensures
        ({
            let given = arguments.deep_view();
            let first = dispatch.first.deep_view();
            let second = dispatch.second.deep_view();
            match given[at].argument_type {
                MetalArgumentType::Axis { total, per_group } => {
                    let place = axes_among(given, at);
                    &&& 0 <= place < 3
                    &&& first.len() == 3
                    &&& second.len() == 3
                    &&& first[place] == total
                    &&& second[place] == per_group
                },
                MetalArgumentType::Groups(groups) => {
                    let place = groups_among(given, at);
                    &&& 0 <= place < 3
                    &&& first.len() == 3
                    &&& first[place] == groups
                },
                MetalArgumentType::Threads(threads) => {
                    let place = threads_among(given, at);
                    &&& 0 <= place < 3
                    &&& second.len() == 3
                    &&& second[place] == threads
                },
                _ => true,
            }
        }),
{
    let given = arguments.deep_view();
    assert(given.len() == arguments@.len());
    lemma_kinds(given);
    lemma_found(given, at);
    assert(given[at] == given[at]);
    match given[at].argument_type {
        MetalArgumentType::Axis { total, per_group } => {
            lemma_size_stands_at_its_count(given, SizeKind::AxisTotal, at, given.len() as int);
            lemma_size_stands_at_its_count(given, SizeKind::AxisPerGroup, at, given.len() as int);
        },
        MetalArgumentType::Groups(groups) => {
            lemma_size_stands_at_its_count(given, SizeKind::Groups, at, given.len() as int);
        },
        MetalArgumentType::Threads(threads) => {
            lemma_size_stands_at_its_count(given, SizeKind::Threads, at, given.len() as int);
        },
        _ => {},
    }
}

/// A place that no argument gives a size for is one long.
pub proof fn law_missing_sizes_are_one(
    arguments: &[MetalArgument<String>],
    dispatch: Dispatch,
    place: int,
)
    requires
        call_ensures(parse, (arguments,), Ok::<Dispatch, BindgenError>(dispatch)),
        0 <= place < 3,
    ensures
        ({
            let given = arguments.deep_view();
            let count = given.len() as int;
            let first = dispatch.first.deep_view();
            let second = dispatch.second.deep_view();
            &&& second.len() == 3
            &&& dispatch.shape is Indirect <==> first.len() == 0
            &&& dispatch.shape !is Indirect ==> first.len() == 3
            &&& dispatch.shape is Axes && place >= axes_among(given, count) ==> first[place] == "1"@
                && second[place] == "1"@
            &&& dispatch.shape is Direct && place >= groups_among(given, count) ==> first[place]
                == "1"@
            &&& dispatch.shape !is Axes && place >= threads_among(given, count) ==> second[place]
                == "1"@
        }),
{
    let given = arguments.deep_view();
    let count = given.len() as int;
    lemma_sizes_are_counted(given, SizeKind::AxisTotal, count);
    lemma_sizes_are_counted(given, SizeKind::AxisPerGroup, count);
    lemma_sizes_are_counted(given, SizeKind::Groups, count);
    lemma_sizes_are_counted(given, SizeKind::Threads, count);
}

/// The method of an encoder that runs a kernel on so many threads, on so many groups of threads, or on
/// as many groups as a buffer says.
pub open spec fn method_that_counts(kind: DispatchShape) -> Seq<char> {
    match kind {
        DispatchShape::Axes => "dispatch_threads("@,
        DispatchShape::Direct => "dispatch_threadgroups("@,
        DispatchShape::Indirect => "dispatch_threadgroups_indirect("@,
    }
}

/// A size along three axes in the code of the host.
pub open spec fn size_text(sizes: Seq<Seq<char>>) -> Seq<char> {
    "MTLSize::new("@ + ("("@ + sizes[0] + ") as usize, "@) + ("("@ + sizes[1] + ") as usize, "@) + (
    "("@ + sizes[2] + ") as usize, "@) + "), "@
}

proof fn lemma_three_sizes(out: Seq<char>, sizes: Seq<Seq<char>>)
    requires
        sizes.len() == 3,
    ensures
        dispatch::with_sizes(out + "MTLSize::new("@, sizes, 3) + "), "@ == out + size_text(sizes),
{
    let opened = out + "MTLSize::new("@;
    reveal_with_fuel(dispatch::with_sizes, 4);
    assert(dispatch::with_sizes(opened, sizes, 3) + "), "@ =~= out + size_text(sizes));
}

/// The call is one of the method that counts what its first size counts: threads where the arguments
/// give axes, groups of threads else. It has both sizes, or in place of the first the buffer that holds
/// it.
pub proof fn law_call_counts_what_its_sizes_count(
    out: Seq<char>,
    shape: DispatchShape,
    first: Seq<Seq<char>>,
    second: Seq<Seq<char>>,
)
    requires
        second.len() == 3,
        shape !is Indirect ==> first.len() == 3,
    ensures
        dispatch::with_dispatch(out, shape, first, second) == out + "compute_encoder."@ + method_that_counts(
            shape,
        ) + (if shape is Indirect {
            "__dsl_indirect_dispatch_buffer.0.downcast(), __dsl_indirect_dispatch_buffer.1, "@
        } else {
            size_text(first)
        }) + size_text(second) + "); "@,
{
    reveal_strlit("compute_encoder.");
    reveal_strlit("dispatch_threads(");
    reveal_strlit("dispatch_threadgroups(");
    reveal_strlit("dispatch_threadgroups_indirect(");
    reveal_strlit("compute_encoder.dispatch_threads(MTLSize::new(");
    reveal_strlit("compute_encoder.dispatch_threadgroups(MTLSize::new(");
    reveal_strlit("MTLSize::new(");
    reveal_strlit("), ");
    reveal_strlit("); ");
    reveal_strlit("), ); ");
    reveal_strlit(
        "compute_encoder.dispatch_threadgroups_indirect(__dsl_indirect_dispatch_buffer.0.downcast(), __dsl_indirect_dispatch_buffer.1, ",
    );
    reveal_strlit(
        "__dsl_indirect_dispatch_buffer.0.downcast(), __dsl_indirect_dispatch_buffer.1, ",
    );
    let method = out + "compute_encoder."@ + method_that_counts(shape);
    let buffer = "__dsl_indirect_dispatch_buffer.0.downcast(), __dsl_indirect_dispatch_buffer.1, "@;
    let opened = match shape {
        DispatchShape::Axes => {
            assert(out + "compute_encoder.dispatch_threads(MTLSize::new("@ =~= method
                + "MTLSize::new("@);
            lemma_three_sizes(method, first);
            method + size_text(first)
        },
        DispatchShape::Direct => {
            assert(out + "compute_encoder.dispatch_threadgroups(MTLSize::new("@ =~= method
                + "MTLSize::new("@);
            lemma_three_sizes(method, first);
            method + size_text(first)
        },
        DispatchShape::Indirect => {
            assert(out
                + "compute_encoder.dispatch_threadgroups_indirect(__dsl_indirect_dispatch_buffer.0.downcast(), __dsl_indirect_dispatch_buffer.1, "@
                =~= method + buffer);
            method + buffer
        },
    };
    lemma_three_sizes(opened, second);
    let sized = dispatch::with_sizes(opened + "MTLSize::new("@, second, 3);
    assert(sized + "), ); "@ =~= (sized + "), "@) + "); "@);
    assert(dispatch::with_dispatch(out, shape, first, second) == opened + size_text(second) + "); "@);
}

/// The calls of two ways to count are never the same text.
pub proof fn law_calls_of_two_shapes_differ(
    out: Seq<char>,
    left: DispatchShape,
    right: DispatchShape,
    left_sizes: (Seq<Seq<char>>, Seq<Seq<char>>),
    right_sizes: (Seq<Seq<char>>, Seq<Seq<char>>),
)
    requires
        left != right,
        left_sizes.0.len() == 3,
        left_sizes.1.len() == 3,
        right_sizes.0.len() == 3,
        right_sizes.1.len() == 3,
    ensures
        dispatch::with_dispatch(out, left, left_sizes.0, left_sizes.1) != dispatch::with_dispatch(
            out,
            right,
            right_sizes.0,
            right_sizes.1,
        ),
{
    law_call_counts_what_its_sizes_count(out, left, left_sizes.0, left_sizes.1);
    law_call_counts_what_its_sizes_count(out, right, right_sizes.0, right_sizes.1);
    reveal_strlit("compute_encoder.");
    reveal_strlit("dispatch_threads(");
    reveal_strlit("dispatch_threadgroups(");
    reveal_strlit("dispatch_threadgroups_indirect(");
    let one = dispatch::with_dispatch(out, left, left_sizes.0, left_sizes.1);
    let other = dispatch::with_dispatch(out, right, right_sizes.0, right_sizes.1);
    let start = out.len() as int + 16;
    assert(forall|i: int|
        0 <= i < method_that_counts(left).len() ==> #[trigger] one[start + i] == method_that_counts(
            left,
        )[i]);
    assert(forall|i: int|
        0 <= i < method_that_counts(right).len() ==> #[trigger] other[start + i]
            == method_that_counts(right)[i]);
    assert(one[start + 15] == method_that_counts(left)[15]);
    assert(other[start + 15] == method_that_counts(right)[15]);
    if left !is Axes {
        assert(one[start + 21] == method_that_counts(left)[21]);
    }
    if right !is Axes {
        assert(other[start + 21] == method_that_counts(right)[21]);
    }
}

proof fn lemma_any_zero(sizes: Seq<Seq<char>>, count: int)
    requires
        0 <= count <= sizes.len(),
    ensures
        dispatch::any_may_be_zero(sizes, count) <==> exists|i: int|
            0 <= i < count && dispatch::may_be_zero(#[trigger] sizes[i]),
    decreases count,
{
    if count > 0 {
        lemma_any_zero(sizes, count - 1);
        assert(sizes[count - 1] == sizes[count - 1]);
    }
}

/// Only a literal of a positive number is known not to be zero.
pub proof fn law_only_positive_literals_are_not_zero(size: Seq<char>)
    ensures
        dispatch::may_be_zero(size) <==> rust_source::u32_literal(size) is None || rust_source::u32_literal(
            size,
        ) == Some(0u32),
{
}

/// A statement leaves before the call where one of the sizes is zero; where no size may be, there is no
/// such statement.
pub proof fn law_guard_is_there_where_a_size_may_be_zero(out: Seq<char>, sizes: Seq<Seq<char>>)
    ensures
        (forall|i: int| 0 <= i < sizes.len() ==> !dispatch::may_be_zero(#[trigger] sizes[i]))
            ==> dispatch::with_empty_guard(out, sizes) == out,
        (exists|i: int| 0 <= i < sizes.len() && dispatch::may_be_zero(#[trigger] sizes[i]))
            ==> dispatch::with_empty_guard(out, sizes) == dispatch::with_guards(
            out + "if "@,
            sizes,
            sizes.len() as int,
        ) + " { return; }; "@,
{
    lemma_any_zero(sizes, sizes.len() as int);
}

/// The question whether a size is zero stands behind those of the sizes before it, and the answer is
/// yes where one of them is; a size that cannot be zero is not asked about.
pub proof fn law_guard_asks_about_every_size(out: Seq<char>, sizes: Seq<Seq<char>>, size: Seq<char>)
    ensures
        dispatch::with_guards(out, Seq::empty(), 0) == out,
        !dispatch::may_be_zero(size) ==> dispatch::with_guards(out, sizes.push(size), sizes.len() as int + 1) == dispatch::with_guards(
            out,
            sizes,
            sizes.len() as int,
        ),
        dispatch::may_be_zero(size) ==> dispatch::with_guards(out, sizes.push(size), sizes.len() as int + 1) == dispatch::with_guards(
            out,
            sizes,
            sizes.len() as int,
        ) + (if exists|i: int| 0 <= i < sizes.len() && dispatch::may_be_zero(#[trigger] sizes[i]) {
            " || "@
        } else {
            Seq::empty()
        }) + "("@ + size + ") == 0"@,
{
    let count = sizes.len() as int;
    lemma_guards_of_prefix(out, sizes, size, count);
    lemma_any_zero(sizes, count);
    reveal_strlit(" || ");
    reveal_strlit(" || (");
    reveal_strlit("(");
    let before = dispatch::with_guards(out, sizes, count);
    assert(before + " || ("@ =~= before + " || "@ + "("@);
    assert(before + "("@ =~= before + Seq::<char>::empty() + "("@);
}

proof fn lemma_guards_of_prefix(out: Seq<char>, sizes: Seq<Seq<char>>, size: Seq<char>, count: int)
    requires
        0 <= count <= sizes.len(),
    ensures
        dispatch::with_guards(out, sizes.push(size), count) == dispatch::with_guards(out, sizes, count),
        dispatch::any_may_be_zero(sizes.push(size), count) == dispatch::any_may_be_zero(sizes, count),
    decreases count,
{
    if count > 0 {
        lemma_guards_of_prefix(out, sizes, size, count - 1);
        assert(sizes.push(size)[count - 1] == sizes[count - 1]);
    }
}

/// The call and the guard that are written are those of the dispatch.
pub proof fn law_written_calls_run_the_dispatch(
    out: &mut String,
    guarded: &mut String,
    dispatch: Dispatch,
)
    requires
        call_ensures(dispatch::push_dispatch, (out, &dispatch), ()),
        call_ensures(dispatch::push_empty_guard, (guarded, &dispatch), ()),
    ensures
        final(out)@ == dispatch::with_dispatch(
            old(out)@,
            dispatch.shape,
            dispatch.first.deep_view(),
            dispatch.second.deep_view(),
        ),
        final(guarded)@ == dispatch::with_empty_guard(
            old(guarded)@,
            dispatch.first.deep_view() + dispatch.second.deep_view(),
        ),
{
}

} // verus!
