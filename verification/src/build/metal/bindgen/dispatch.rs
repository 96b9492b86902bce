//! How many threads a kernel runs on.
use vstd::prelude::*;

use crate::build::metal::bindgen::kernel_info::{BindgenError, MetalArgument, MetalArgumentType};
use crate::build::rust_source;
use crate::text;

verus! {

/// One of the sizes that arguments give.
#[derive(Clone, Copy, Debug, PartialEq, Eq, Structural)]
pub enum SizeKind {
    AxisTotal,
    AxisPerGroup,
    Groups,
    Threads,
}

/// The size that an argument gives.
pub open spec fn size_of_argument(argument: MetalArgument<Seq<char>>, kind: SizeKind) -> Option<
    Seq<char>,
> {
    match (argument.argument_type, kind) {
        (MetalArgumentType::Axis { total, .. }, SizeKind::AxisTotal) => Some(total),
        (MetalArgumentType::Axis { per_group, .. }, SizeKind::AxisPerGroup) => Some(per_group),
        (MetalArgumentType::Groups(groups), SizeKind::Groups) => Some(groups),
        (MetalArgumentType::Threads(threads), SizeKind::Threads) => Some(threads),
        _ => None,
    }
}

/// The sizes that the first `count` arguments give.
pub open spec fn sizes_of(
    arguments: Seq<MetalArgument<Seq<char>>>,
    kind: SizeKind,
    count: int,
) -> Seq<Seq<char>>
    decreases count,
{
    if count <= 0 {
        Seq::empty()
    } else {
        let before = sizes_of(arguments, kind, count - 1);
        match size_of_argument(arguments[count - 1], kind) {
            Some(size) => before.push(size),
            None => before,
        }
    }
}

/// All sizes that arguments give, along three axes: an axis that is not given is one long.
pub open spec fn three_sizes(arguments: Seq<MetalArgument<Seq<char>>>, kind: SizeKind) -> Option<
    Seq<Seq<char>>,
> {
    let sizes = sizes_of(arguments, kind, arguments.len() as int);
    if sizes.len() > 3 {
        None
    } else {
        Some(Seq::new(3, |i: int| if i < sizes.len() { sizes[i] } else { "1"@ }))
    }
}

/// How the threads are counted.
#[derive(Debug, PartialEq, Eq)]
pub enum DispatchShape {
    Axes,
    Indirect,
    Direct,
}

/// Some argument gives the number of groups.
pub open spec fn has_kind(arguments: Seq<MetalArgument<Seq<char>>>, kind: SizeKind) -> bool {
    sizes_of(arguments, kind, arguments.len() as int).len() > 0
}

/// The number of groups is read from a buffer.
pub open spec fn has_indirect(arguments: Seq<MetalArgument<Seq<char>>>, count: int) -> bool
    decreases count,
{
    count > 0 && (arguments[count - 1].argument_type is GroupsIndirect || has_indirect(
        arguments,
        count - 1,
    ))
}

/// How the threads are counted, where the arguments do not contradict each other.
pub open spec fn shape_of(arguments: Seq<MetalArgument<Seq<char>>>) -> Result<
    DispatchShape,
    BindgenError,
> {
    let indirect = has_indirect(arguments, arguments.len() as int);
    if has_kind(arguments, SizeKind::AxisTotal) {
        if indirect || has_kind(arguments, SizeKind::Groups) || has_kind(
            arguments,
            SizeKind::Threads,
        ) {
            Err(BindgenError::MixedAxes)
        } else {
            Ok(DispatchShape::Axes)
        }
    } else if indirect {
        if has_kind(arguments, SizeKind::Groups) {
            Err(BindgenError::MixedGroups)
        } else {
            Ok(DispatchShape::Indirect)
        }
    } else {
        Ok(DispatchShape::Direct)
    }
}

/// The sizes along three axes, those that are handed to the first place and those to the second.
pub open spec fn dispatch_sizes(arguments: Seq<MetalArgument<Seq<char>>>) -> Result<
    (Seq<Seq<char>>, Seq<Seq<char>>),
    BindgenError,
> {
    match shape_of(arguments) {
        Err(error) => Err(error),
        Ok(shape) => {
            let (first, second) = match shape {
                DispatchShape::Axes => (
                    three_sizes(arguments, SizeKind::AxisTotal),
                    three_sizes(arguments, SizeKind::AxisPerGroup),
                ),
                DispatchShape::Indirect => (
                    Some(Seq::empty()),
                    three_sizes(arguments, SizeKind::Threads),
                ),
                DispatchShape::Direct => (
                    three_sizes(arguments, SizeKind::Groups),
                    three_sizes(arguments, SizeKind::Threads),
                ),
            };
            match (first, second) {
                (Some(first), Some(second)) => Ok((first, second)),
                _ => Err(BindgenError::TooManyAxes),
            }
        },
    }
}

/// What a kernel runs on.
#[derive(Debug, PartialEq, Eq)]
pub struct Dispatch {
    pub shape: DispatchShape,
    pub first: Vec<String>,
    pub second: Vec<String>,
}

fn collect_sizes(arguments: &[MetalArgument<String>], kind: SizeKind) -> (sizes: Vec<String>)
    ensures
        sizes.deep_view() == sizes_of(
            arguments.deep_view(),
            kind,
            arguments@.len() as int,
        ),
{
    let ghost all = arguments.deep_view();
    let mut sizes: Vec<String> = Vec::new();
    assert(sizes.deep_view() =~= Seq::empty());
    let mut i: usize = 0;
    while i < arguments.len()
        invariant
            i <= arguments@.len(),
            all == arguments.deep_view(),
            sizes.deep_view() == sizes_of(all, kind, i as int),
        decreases arguments@.len() - i,
    {
        assert(all[i as int] == arguments@[i as int].deep_view());
        let ghost before = sizes.deep_view();
        let size: Option<&String> = match (&arguments[i].argument_type, kind) {
            (MetalArgumentType::Axis { total, .. }, SizeKind::AxisTotal) => Some(total),
            (MetalArgumentType::Axis { per_group, .. }, SizeKind::AxisPerGroup) => Some(per_group),
            (MetalArgumentType::Groups(groups), SizeKind::Groups) => Some(groups),
            (MetalArgumentType::Threads(threads), SizeKind::Threads) => Some(threads),
            _ => None,
        };
        if let Some(size) = size {
            sizes.push(text::copy_str(size.as_str()));
            assert(sizes.deep_view() =~= before.push(size@));
        }
        i += 1;
    }
    sizes
}

fn fill_sizes(sizes: Vec<String>) -> (filled: Option<Vec<String>>)
    ensures
        filled.deep_view() == (if sizes@.len() > 3 {
            None
        } else {
            Some(
                Seq::new(
                    3,
                    |i: int|
                        if i < sizes@.len() {
                            sizes.deep_view()[i]
                        } else {
                            "1"@
                        },
                ),
            )
        }),
{
    let ghost given = sizes.deep_view();
    let mut sizes: Vec<String> = sizes;
    if sizes.len() > 3 {
        return None;
    }
    while sizes.len() < 3
        invariant
            given.len() <= sizes@.len() <= 3,
            forall|i: int|
                0 <= i < sizes@.len() ==> (#[trigger] sizes@[i])@ == (if i < given.len() {
                    given[i]
                } else {
                    "1"@
                }),
        decreases 3 - sizes@.len(),
    {
        sizes.push(text::copy_str("1"));
    }
    assert(sizes.deep_view() =~= Seq::new(
        3,
        |i: int|
            if i < given.len() {
                given[i]
            } else {
                "1"@
            },
    ));
    Some(sizes)
}

fn find_indirect(arguments: &[MetalArgument<String>]) -> (found: bool)
    ensures
        found == has_indirect(arguments.deep_view(), arguments@.len() as int),
{
    let ghost all = arguments.deep_view();
    let mut found: bool = false;
    let mut i: usize = 0;
    while i < arguments.len()
        invariant
            i <= arguments@.len(),
            all == arguments.deep_view(),
            found == has_indirect(all, i as int),
        decreases arguments@.len() - i,
    {
        assert(all[i as int] == arguments@[i as int].deep_view());
        if let MetalArgumentType::GroupsIndirect = &arguments[i].argument_type {
            found = true;
        }
        i += 1;
    }
    found
}

/// What a kernel runs on.
pub fn parse(arguments: &[MetalArgument<String>]) -> (dispatch: Result<Dispatch, BindgenError>)
    ensures
        match dispatch {
            Ok(dispatch) => shape_of(arguments.deep_view()) == Ok::<DispatchShape, BindgenError>(
                dispatch.shape,
            ) && dispatch_sizes(arguments.deep_view()) == Ok::<
                (Seq<Seq<char>>, Seq<Seq<char>>),
                BindgenError,
            >((dispatch.first.deep_view(), dispatch.second.deep_view())),
            Err(error) => dispatch_sizes(arguments.deep_view()) == Err::<
                (Seq<Seq<char>>, Seq<Seq<char>>),
                BindgenError,
            >(error),
        },
{
    let axes: Vec<String> = collect_sizes(arguments, SizeKind::AxisTotal);
    let groups: Vec<String> = collect_sizes(arguments, SizeKind::Groups);
    let threads: Vec<String> = collect_sizes(arguments, SizeKind::Threads);
    let indirect: bool = find_indirect(arguments);
    let ghost all = arguments.deep_view();
    assert(has_kind(all, SizeKind::AxisTotal) == (axes@.len() > 0));
    assert(has_kind(all, SizeKind::Groups) == (groups@.len() > 0));
    assert(has_kind(all, SizeKind::Threads) == (threads@.len() > 0));
    let (shape, first, second): (DispatchShape, Option<Vec<String>>, Option<Vec<String>>) = if axes.len()
        > 0 {
        if indirect || groups.len() > 0 || threads.len() > 0 {
            return Err(BindgenError::MixedAxes);
        }
        let per_group: Vec<String> = collect_sizes(arguments, SizeKind::AxisPerGroup);
        (DispatchShape::Axes, fill_sizes(axes), fill_sizes(per_group))
    } else if indirect {
        if groups.len() > 0 {
            return Err(BindgenError::MixedGroups);
        }
        let nothing: Vec<String> = Vec::new();
        assert(nothing.deep_view() =~= Seq::empty());
        (DispatchShape::Indirect, Some(nothing), fill_sizes(threads))
    } else {
        (DispatchShape::Direct, fill_sizes(groups), fill_sizes(threads))
    };
    match (first, second) {
        (Some(first), Some(second)) => Ok(Dispatch { shape, first, second }),
        _ => Err(BindgenError::TooManyAxes),
    }
}

/// `out` with the first `count` sizes behind it, each as a number of its own.
pub open spec fn with_sizes(out: Seq<char>, sizes: Seq<Seq<char>>, count: int) -> Seq<char>
    decreases count,
{
    if count <= 0 {
        out
    } else {
        with_sizes(out, sizes, count - 1) + "("@ + sizes[count - 1] + ") as usize, "@
    }
}

/// `out` with the call behind it that runs the kernel.
pub open spec fn with_dispatch(
    out: Seq<char>,
    shape: DispatchShape,
    first: Seq<Seq<char>>,
    second: Seq<Seq<char>>,
) -> Seq<char> {
    let opened = match shape {
        DispatchShape::Axes => with_sizes(
            out + "compute_encoder.dispatch_threads(MTLSize::new("@,
            first,
            first.len() as int,
        ) + "), "@,
        DispatchShape::Indirect => out
            + "compute_encoder.dispatch_threadgroups_indirect(__dsl_indirect_dispatch_buffer.0.downcast(), __dsl_indirect_dispatch_buffer.1, "@,
        DispatchShape::Direct => with_sizes(
            out + "compute_encoder.dispatch_threadgroups(MTLSize::new("@,
            first,
            first.len() as int,
        ) + "), "@,
    };
    with_sizes(opened + "MTLSize::new("@, second, second.len() as int) + "), ); "@
}

fn push_sizes(out: &mut String, sizes: &[String])
    ensures
        final(out)@ == with_sizes(old(out)@, sizes.deep_view(), sizes@.len() as int),
{
    let ghost before = out@;
    let mut i: usize = 0;
    while i < sizes.len()
        invariant
            i <= sizes@.len(),
            out@ == with_sizes(before, sizes.deep_view(), i as int),
        decreases sizes@.len() - i,
    {
        assert(sizes.deep_view()[i as int] == sizes@[i as int]@);
        text::push_str(out, "(");
        text::push_str(out, sizes[i].as_str());
        text::push_str(out, ") as usize, ");
        i += 1;
    }
}

/// Appends the call that runs the kernel.
pub fn push_dispatch(out: &mut String, dispatch: &Dispatch)
    ensures
        final(out)@ == with_dispatch(
            old(out)@,
            dispatch.shape,
            dispatch.first.deep_view(),
            dispatch.second.deep_view(),
        ),
{
    match &dispatch.shape {
        DispatchShape::Axes => {
            text::push_str(out, "compute_encoder.dispatch_threads(MTLSize::new(");
            push_sizes(out, &dispatch.first);
            text::push_str(out, "), ");
        },
        DispatchShape::Indirect => {
            text::push_str(
                out,
                "compute_encoder.dispatch_threadgroups_indirect(__dsl_indirect_dispatch_buffer.0.downcast(), __dsl_indirect_dispatch_buffer.1, ",
            );
        },
        DispatchShape::Direct => {
            text::push_str(out, "compute_encoder.dispatch_threadgroups(MTLSize::new(");
            push_sizes(out, &dispatch.first);
            text::push_str(out, "), ");
        },
    }
    text::push_str(out, "MTLSize::new(");
    push_sizes(out, &dispatch.second);
    text::push_str(out, "), ); ");
}

/// A size that may be zero: all but literals of positive numbers.
pub open spec fn may_be_zero(size: Seq<char>) -> bool {
    !(rust_source::u32_literal(size) matches Some(value) && value != 0)
}

/// One of the first `count` sizes may be zero.
pub open spec fn any_may_be_zero(sizes: Seq<Seq<char>>, count: int) -> bool
    decreases count,
{
    count > 0 && (may_be_zero(sizes[count - 1]) || any_may_be_zero(sizes, count - 1))
}

/// `out` with the question behind it whether one of the first `count` sizes is zero.
pub open spec fn with_guards(out: Seq<char>, sizes: Seq<Seq<char>>, count: int) -> Seq<char>
    decreases count,
{
    if count <= 0 {
        out
    } else {
        let before = with_guards(out, sizes, count - 1);
        if may_be_zero(sizes[count - 1]) {
            (if any_may_be_zero(sizes, count - 1) {
                before + " || ("@
            } else {
                before + "("@
            }) + sizes[count - 1] + ") == 0"@
        } else {
            before
        }
    }
}

/// `out` with the statement behind it that leaves where there is nothing to run.
pub open spec fn with_empty_guard(out: Seq<char>, sizes: Seq<Seq<char>>) -> Seq<char> {
    if any_may_be_zero(sizes, sizes.len() as int) {
        with_guards(out + "if "@, sizes, sizes.len() as int) + " { return; }; "@
    } else {
        out
    }
}

fn check_zero(size: &str) -> (possible: bool)
    ensures
        possible == may_be_zero(size@),
{
    match rust_source::read_u32_literal(size) {
        Some(value) => value == 0,
        None => true,
    }
}

/// Appends the statement that leaves where there is nothing to run.
pub fn push_empty_guard(out: &mut String, dispatch: &Dispatch)
    ensures
        final(out)@ == with_empty_guard(
            old(out)@,
            dispatch.first.deep_view() + dispatch.second.deep_view(),
        ),
{
    let ghost before = out@;
    let ghost sizes = dispatch.first.deep_view() + dispatch.second.deep_view();
    let mut guard: String = text::copy_str(out.as_str());
    text::push_str(&mut guard, "if ");
    let ghost opened = guard@;
    let mut any: bool = false;
    let first: usize = dispatch.first.len();
    let mut i: usize = 0;
    while i < first
        invariant
            first == dispatch.first@.len(),
            i <= first,
            sizes == dispatch.first.deep_view() + dispatch.second.deep_view(),
            any == any_may_be_zero(sizes, i as int),
            guard@ == with_guards(opened, sizes, i as int),
        decreases first - i,
    {
        let size: &str = dispatch.first[i].as_str();
        assert(sizes[i as int] == size@);
        if check_zero(size) {
            if any {
                text::push_str(&mut guard, " || (");
            } else {
                text::push_str(&mut guard, "(");
            }
            text::push_str(&mut guard, size);
            text::push_str(&mut guard, ") == 0");
            any = true;
        }
        i += 1;
    }
    let mut j: usize = 0;
    while j < dispatch.second.len()
        invariant
            first == dispatch.first@.len(),
            j <= dispatch.second@.len(),
            sizes == dispatch.first.deep_view() + dispatch.second.deep_view(),
            any == any_may_be_zero(sizes, first + j),
            guard@ == with_guards(opened, sizes, first + j),
        decreases dispatch.second@.len() - j,
    {
        let size: &str = dispatch.second[j].as_str();
        assert(sizes[first + j] == size@);
        if check_zero(size) {
            if any {
                text::push_str(&mut guard, " || (");
            } else {
                text::push_str(&mut guard, "(");
            }
            text::push_str(&mut guard, size);
            text::push_str(&mut guard, ") == 0");
            any = true;
        }
        j += 1;
    }
    if any {
        text::push_str(&mut guard, " { return; }; ");
        *out = guard;
    }
}

/// Sizes are always given along three axes.
pub proof fn law_sizes_have_three_axes(arguments: Seq<MetalArgument<Seq<char>>>)
    ensures
        dispatch_sizes(arguments) matches Ok((first, second)) ==> second.len() == 3 && (
        shape_of(arguments) == Ok::<DispatchShape, BindgenError>(DispatchShape::Indirect)
            || first.len() == 3),
{
}

} // verus!
