//! The arguments that are given when a kernel is encoded.
use vstd::prelude::*;

use crate::build::kernel::KernelBufferAccess;
use crate::build::metal::bindgen::kernel_info::{
    BindgenError, MetalArgument, MetalArgumentType, MetalConstantType,
};
use crate::build::rust_source;
use crate::text;

verus! {

/// A buffer, its index, and the condition under which it is there.
#[derive(Debug, PartialEq, Eq)]
pub struct BufferArgument<T> {
    pub name: T,
    pub buffer_index: usize,
    pub access: KernelBufferAccess,
    pub condition: Option<T>,
}

/// The type of a constant.
#[derive(Debug, PartialEq, Eq)]
pub enum ConstantShape<T> {
    Scalar(T),
    UnsizedSlice(T),
    SizedArray { item: T, size: T },
}

/// A constant, its index, and the condition under which it is there.
#[derive(Debug, PartialEq, Eq)]
pub struct ConstantArgument<T> {
    pub name: T,
    pub buffer_index: usize,
    pub shape: ConstantShape<T>,
    pub condition: Option<T>,
}

/// Memory of a group of threads, its index and length, and the condition under which it is there.
#[derive(Debug, PartialEq, Eq)]
pub struct SharedArgument<T> {
    pub name: T,
    pub condition: T,
    pub threadgroup_index: usize,
    pub element_count: T,
    pub element_size: usize,
}

/// What has to be done for an argument.
#[derive(Debug, PartialEq, Eq)]
pub enum ArgumentEmission<T> {
    Buffer(BufferArgument<T>),
    Constant(ConstantArgument<T>),
    Shared(SharedArgument<T>),
    IndirectDispatch,
}

impl DeepView for ConstantShape<String> {
    type V = ConstantShape<Seq<char>>;

    open spec fn deep_view(&self) -> ConstantShape<Seq<char>> {
        match self {
            ConstantShape::Scalar(ty) => ConstantShape::Scalar(ty@),
            ConstantShape::UnsizedSlice(ty) => ConstantShape::UnsizedSlice(ty@),
            ConstantShape::SizedArray { item, size } => ConstantShape::SizedArray {
                item: item@,
                size: size@,
            },
        }
    }
}

impl DeepView for ArgumentEmission<String> {
    type V = ArgumentEmission<Seq<char>>;

    open spec fn deep_view(&self) -> ArgumentEmission<Seq<char>> {
        match self {
            ArgumentEmission::Buffer(buffer) => ArgumentEmission::Buffer(
                BufferArgument {
                    name: buffer.name@,
                    buffer_index: buffer.buffer_index,
                    access: buffer.access,
                    condition: buffer.condition.deep_view(),
                },
            ),
            ArgumentEmission::Constant(constant) => ArgumentEmission::Constant(
                ConstantArgument {
                    name: constant.name@,
                    buffer_index: constant.buffer_index,
                    shape: constant.shape.deep_view(),
                    condition: constant.condition.deep_view(),
                },
            ),
            ArgumentEmission::Shared(shared) => ArgumentEmission::Shared(
                SharedArgument {
                    name: shared.name@,
                    condition: shared.condition@,
                    threadgroup_index: shared.threadgroup_index,
                    element_count: shared.element_count@,
                    element_size: shared.element_size,
                },
            ),
            ArgumentEmission::IndirectDispatch => ArgumentEmission::IndirectDispatch,
        }
    }
}

/// The arguments read so far: what has to be done for them, the next index of a buffer or constant and
/// of memory of a group, and whether the groups are read from a buffer.
#[verifier::ext_equal]
pub ghost struct ArgumentState {
    pub emissions: Seq<ArgumentEmission<Seq<char>>>,
    pub next_buffer: int,
    pub next_threadgroup: int,
    pub indirect: bool,
}

/// The type of a constant, where it can be read.
pub open spec fn constant_shape(
    rust_type: Seq<char>,
    constant_type: MetalConstantType<Seq<char>>,
    argument: usize,
) -> Result<ConstantShape<Seq<char>>, BindgenError> {
    match rust_source::type_tokens(rust_type) {
        None => Err(BindgenError::ConstantType { argument }),
        Some(ty) => match constant_type {
            MetalConstantType::Scalar => Ok(ConstantShape::Scalar(ty)),
            MetalConstantType::UnsizedArray => Ok(ConstantShape::UnsizedSlice(ty)),
            MetalConstantType::SizedArray(size) => match rust_source::expression(size) {
                Some(size) => Ok(ConstantShape::SizedArray { item: ty, size }),
                None => Err(BindgenError::ConstantSize { argument }),
            },
        },
    }
}

/// The condition of an argument as an expression, where it has one and that can be read.
pub open spec fn argument_condition(condition: Option<Seq<char>>, argument: usize) -> Result<
    Option<Seq<char>>,
    BindgenError,
> {
    match condition {
        None => Ok(None),
        Some(text) => match rust_source::expression(text) {
            Some(expression) => Ok(Some(expression)),
            None => Err(BindgenError::ArgumentCondition { argument }),
        },
    }
}

/// The arguments with one more.
pub open spec fn argument_added(
    state: ArgumentState,
    argument: MetalArgument<Seq<char>>,
    index: usize,
) -> Result<ArgumentState, BindgenError> {
    match argument.argument_type {
        MetalArgumentType::Buffer(access) => match argument_condition(argument.condition, index) {
            Err(error) => Err(error),
            Ok(condition) => Ok(
                ArgumentState {
                    emissions: state.emissions.push(
                        ArgumentEmission::Buffer(
                            BufferArgument {
                                name: argument.name,
                                buffer_index: state.next_buffer as usize,
                                access,
                                condition,
                            },
                        ),
                    ),
                    next_buffer: state.next_buffer + 1,
                    ..state
                },
            ),
        },
        MetalArgumentType::Constant { rust_type, constant_type } => match (
            constant_shape(rust_type, constant_type, index),
            argument_condition(argument.condition, index),
        ) {
            (Err(error), _) => Err(error),
            (_, Err(error)) => Err(error),
            (Ok(shape), Ok(condition)) => Ok(
                ArgumentState {
                    emissions: state.emissions.push(
                        ArgumentEmission::Constant(
                            ConstantArgument {
                                name: argument.name,
                                buffer_index: state.next_buffer as usize,
                                shape,
                                condition,
                            },
                        ),
                    ),
                    next_buffer: state.next_buffer + 1,
                    ..state
                },
            ),
        },
        MetalArgumentType::Shared { element_count, element_size } => match (
            argument_condition(argument.condition, index),
            element_count,
            element_size,
        ) {
            (Err(error), _, _) => Err(error),
            (Ok(None), _, _) => Ok(state),
            (_, None, _) => Err(BindgenError::SharedDimensions { argument: index }),
            (_, _, None) => Err(BindgenError::SharedElement { argument: index }),
            (Ok(Some(condition)), Some(element_count), Some(element_size)) => Ok(
                ArgumentState {
                    emissions: state.emissions.push(
                        ArgumentEmission::Shared(
                            SharedArgument {
                                name: argument.name,
                                condition,
                                threadgroup_index: state.next_threadgroup as usize,
                                element_count,
                                element_size,
                            },
                        ),
                    ),
                    next_threadgroup: state.next_threadgroup + 1,
                    ..state
                },
            ),
        },
        MetalArgumentType::GroupsIndirect => if state.indirect {
            Ok(state)
        } else {
            Ok(
                ArgumentState {
                    emissions: state.emissions.push(ArgumentEmission::IndirectDispatch),
                    indirect: true,
                    ..state
                },
            )
        },
        _ => Ok(state),
    }
}

/// The first `count` arguments.
pub open spec fn arguments_of(arguments: Seq<MetalArgument<Seq<char>>>, count: int) -> Result<
    ArgumentState,
    BindgenError,
>
    decreases count,
{
    if count <= 0 {
        Ok(
            ArgumentState {
                emissions: Seq::empty(),
                next_buffer: 0,
                next_threadgroup: 0,
                indirect: false,
            },
        )
    } else {
        match arguments_of(arguments, count - 1) {
            Ok(state) => argument_added(state, arguments[count - 1], (count - 1) as usize),
            Err(error) => Err(error),
        }
    }
}

proof fn lemma_refused_argument_stands(
    arguments: Seq<MetalArgument<Seq<char>>>,
    count: int,
    total: int,
)
    requires
        0 <= count <= total,
        arguments_of(arguments, count) is Err,
    ensures
        arguments_of(arguments, total) == arguments_of(arguments, count),
    decreases total - count,
{
    if count < total {
        lemma_refused_argument_stands(arguments, count, total - 1);
    }
}

/// Indices are given out without gaps: as many as there are arguments that need one, and in their
/// order.
pub proof fn law_indices_have_no_gaps(arguments: Seq<MetalArgument<Seq<char>>>, count: int)
    requires
        0 <= count <= arguments.len() <= usize::MAX,
    ensures
        arguments_of(arguments, count) matches Ok(state) ==> 0 <= state.next_buffer <= count && 0
            <= state.next_threadgroup <= count && forall|i: int|
            0 <= i < state.emissions.len() ==> match #[trigger] state.emissions[i] {
                ArgumentEmission::Buffer(buffer) => buffer.buffer_index == buffers_before(
                    state.emissions,
                    i,
                ),
                ArgumentEmission::Constant(constant) => constant.buffer_index == buffers_before(
                    state.emissions,
                    i,
                ),
                _ => true,
            },
        arguments_of(arguments, count) matches Ok(state) ==> state.next_buffer == buffers_before(
            state.emissions,
            state.emissions.len() as int,
        ),
    decreases count,
{
    if count > 0 {
        law_indices_have_no_gaps(arguments, count - 1);
        if let Ok(before) = arguments_of(arguments, count - 1) {
            if let Ok(state) = arguments_of(arguments, count) {
                assert forall|i: int| 0 <= i <= before.emissions.len() implies buffers_before(
                    state.emissions,
                    i,
                ) == #[trigger] buffers_before(before.emissions, i) by {
                    lemma_buffers_before(before.emissions, state.emissions, i);
                }
                assert forall|i: int| 0 <= i < state.emissions.len() implies match
                    #[trigger] state.emissions[i] {
                    ArgumentEmission::Buffer(buffer) => buffer.buffer_index == buffers_before(
                        state.emissions,
                        i,
                    ),
                    ArgumentEmission::Constant(constant) => constant.buffer_index
                        == buffers_before(state.emissions, i),
                    _ => true,
                } by {
                    assert(buffers_before(before.emissions, i) == buffers_before(
                        before.emissions,
                        i,
                    ));
                    if i < before.emissions.len() {
                        assert(state.emissions[i] == before.emissions[i]);
                    }
                }
                let total = before.emissions.len() as int;
                assert(buffers_before(state.emissions, total) == buffers_before(
                    before.emissions,
                    total,
                ));
            }
        }
    }
}

/// The number of buffers and constants among the first `count` arguments.
pub open spec fn buffers_before(emissions: Seq<ArgumentEmission<Seq<char>>>, count: int) -> int
    decreases count,
{
    if count <= 0 {
        0
    } else {
        buffers_before(emissions, count - 1) + match emissions[count - 1] {
            ArgumentEmission::Buffer(_) => 1int,
            ArgumentEmission::Constant(_) => 1,
            _ => 0,
        }
    }
}

proof fn lemma_buffers_before(
    shorter: Seq<ArgumentEmission<Seq<char>>>,
    longer: Seq<ArgumentEmission<Seq<char>>>,
    count: int,
)
    requires
        0 <= count <= shorter.len() <= longer.len(),
        forall|i: int| 0 <= i < shorter.len() ==> shorter[i] == longer[i],
    ensures
        buffers_before(longer, count) == buffers_before(shorter, count),
    decreases count,
{
    if count > 0 {
        lemma_buffers_before(shorter, longer, count - 1);
    }
}

fn read_shape(rust_type: &str, constant_type: &MetalConstantType<String>, argument: usize) -> (
shape: Result<ConstantShape<String>, BindgenError>)
    ensures
        match shape {
            Ok(shape) => constant_shape(rust_type@, constant_type.deep_view(), argument) == Ok::<
                ConstantShape<Seq<char>>,
                BindgenError,
            >(shape.deep_view()),
            Err(error) => constant_shape(rust_type@, constant_type.deep_view(), argument) == Err::<
                ConstantShape<Seq<char>>,
                BindgenError,
            >(error),
        },
{
    let ty: String = match rust_source::read_type(rust_type) {
        Some(ty) => ty,
        None => {
            return Err(BindgenError::ConstantType { argument });
        },
    };
    match constant_type {
        MetalConstantType::Scalar => Ok(ConstantShape::Scalar(ty)),
        MetalConstantType::UnsizedArray => Ok(ConstantShape::UnsizedSlice(ty)),
        MetalConstantType::SizedArray(size) => match rust_source::read_expression(size.as_str()) {
            Some(size) => Ok(ConstantShape::SizedArray { item: ty, size }),
            None => Err(BindgenError::ConstantSize { argument }),
        },
    }
}

fn read_argument_condition(source: &Option<String>, argument: usize) -> (condition: Result<
    Option<String>,
    BindgenError,
>)
    ensures
        match condition {
            Ok(condition) => argument_condition(source.deep_view(), argument) == Ok::<
                Option<Seq<char>>,
                BindgenError,
            >(condition.deep_view()),
            Err(error) => argument_condition(source.deep_view(), argument) == Err::<
                Option<Seq<char>>,
                BindgenError,
            >(error),
        },
{
    match source {
        None => Ok(None),
        Some(text) => match rust_source::read_expression(text.as_str()) {
            Some(expression) => Ok(Some(expression)),
            None => Err(BindgenError::ArgumentCondition { argument }),
        },
    }
}

/// What has to be done for the arguments of a kernel.
pub fn parse(arguments: &[MetalArgument<String>]) -> (emissions: Result<
    Vec<ArgumentEmission<String>>,
    BindgenError,
>)
    ensures
        match arguments_of(arguments.deep_view(), arguments@.len() as int) {
            Ok(state) => emissions matches Ok(emissions) && emissions.deep_view()
                == state.emissions,
            Err(error) => emissions matches Err(found) && found == error,
        },
{
    let ghost all = arguments.deep_view();
    let mut emissions: Vec<ArgumentEmission<String>> = Vec::new();
    assert(emissions.deep_view() =~= Seq::empty());
    let mut next_buffer: usize = 0;
    let mut next_threadgroup: usize = 0;
    let mut indirect: bool = false;
    let mut i: usize = 0;
    while i < arguments.len()
        invariant
            i <= arguments@.len(),
            all == arguments.deep_view(),
            next_buffer <= i,
            next_threadgroup <= i,
            arguments_of(all, i as int) == Ok::<ArgumentState, BindgenError>(
                ArgumentState {
                    emissions: emissions.deep_view(),
                    next_buffer: next_buffer as int,
                    next_threadgroup: next_threadgroup as int,
                    indirect,
                },
            ),
        decreases arguments@.len() - i,
    {
        assert(all[i as int] == arguments@[i as int].deep_view());
        let ghost before = emissions.deep_view();
        let argument: &MetalArgument<String> = &arguments[i];
        match &argument.argument_type {
            MetalArgumentType::Buffer(access) => {
                let condition: Option<String> = match read_argument_condition(&argument.condition, i) {
                    Ok(condition) => condition,
                    Err(error) => {
                        proof {
                            lemma_refused_argument_stands(all, i + 1, all.len() as int);
                        }
                        return Err(error);
                    },
                };
                let emission: ArgumentEmission<String> = ArgumentEmission::Buffer(
                    BufferArgument {
                        name: text::copy_str(argument.name.as_str()),
                        buffer_index: next_buffer,
                        access: *access,
                        condition,
                    },
                );
                let ghost added = emission.deep_view();
                emissions.push(emission);
                assert(emissions.deep_view() =~= before.push(added));
                next_buffer += 1;
            },
            MetalArgumentType::Constant { rust_type, constant_type } => {
                let shape: ConstantShape<String> = match read_shape(
                    rust_type.as_str(),
                    constant_type,
                    i,
                ) {
                    Ok(shape) => shape,
                    Err(error) => {
                        proof {
                            lemma_refused_argument_stands(all, i + 1, all.len() as int);
                        }
                        return Err(error);
                    },
                };
                let condition: Option<String> = match read_argument_condition(&argument.condition, i) {
                    Ok(condition) => condition,
                    Err(error) => {
                        proof {
                            lemma_refused_argument_stands(all, i + 1, all.len() as int);
                        }
                        return Err(error);
                    },
                };
                let emission: ArgumentEmission<String> = ArgumentEmission::Constant(
                    ConstantArgument {
                        name: text::copy_str(argument.name.as_str()),
                        buffer_index: next_buffer,
                        shape,
                        condition,
                    },
                );
                let ghost added = emission.deep_view();
                emissions.push(emission);
                assert(emissions.deep_view() =~= before.push(added));
                next_buffer += 1;
            },
            MetalArgumentType::Shared { element_count, element_size } => {
                let condition: Option<String> = match read_argument_condition(&argument.condition, i) {
                    Ok(condition) => condition,
                    Err(error) => {
                        proof {
                            lemma_refused_argument_stands(all, i + 1, all.len() as int);
                        }
                        return Err(error);
                    },
                };
                if let Some(condition) = condition {
                    let element_count: &String = match element_count {
                        Some(element_count) => element_count,
                        None => {
                            proof {
                                lemma_refused_argument_stands(all, i + 1, all.len() as int);
                            }
                            return Err(BindgenError::SharedDimensions { argument: i });
                        },
                    };
                    let element_size: usize = match element_size {
                        Some(element_size) => *element_size,
                        None => {
                            proof {
                                lemma_refused_argument_stands(all, i + 1, all.len() as int);
                            }
                            return Err(BindgenError::SharedElement { argument: i });
                        },
                    };
                    let emission: ArgumentEmission<String> = ArgumentEmission::Shared(
                        SharedArgument {
                            name: text::copy_str(argument.name.as_str()),
                            condition,
                            threadgroup_index: next_threadgroup,
                            element_count: text::copy_str(element_count.as_str()),
                            element_size,
                        },
                    );
                    let ghost added = emission.deep_view();
                    emissions.push(emission);
                    assert(emissions.deep_view() =~= before.push(added));
                    next_threadgroup += 1;
                }
            },
            MetalArgumentType::GroupsIndirect => {
                if !indirect {
                    emissions.push(ArgumentEmission::IndirectDispatch);
                    assert(emissions.deep_view() =~= before.push(
                        ArgumentEmission::IndirectDispatch,
                    ));
                    indirect = true;
                }
            },
            _ => {},
        }
        i += 1;
    }
    Ok(emissions)
}

/// The condition under which an argument is there, with its name.
pub open spec fn condition_of(emission: ArgumentEmission<Seq<char>>) -> Option<
    (Seq<char>, Seq<char>),
> {
    match emission {
        ArgumentEmission::Buffer(buffer) => match buffer.condition {
            Some(condition) => Some((buffer.name, condition)),
            None => None,
        },
        ArgumentEmission::Constant(constant) => match constant.condition {
            Some(condition) => Some((constant.name, condition)),
            None => None,
        },
        ArgumentEmission::Shared(shared) => Some((shared.name, shared.condition)),
        ArgumentEmission::IndirectDispatch => None,
    }
}

fn read_condition(emission: &ArgumentEmission<String>) -> (condition: Option<(&str, &str)>)
    ensures
        condition.deep_view() == condition_of(emission.deep_view()),
{
    match emission {
        ArgumentEmission::Buffer(buffer) => match &buffer.condition {
            Some(condition) => Some((buffer.name.as_str(), condition.as_str())),
            None => None,
        },
        ArgumentEmission::Constant(constant) => match &constant.condition {
            Some(condition) => Some((constant.name.as_str(), condition.as_str())),
            None => None,
        },
        ArgumentEmission::Shared(shared) => Some((shared.name.as_str(), shared.condition.as_str())),
        ArgumentEmission::IndirectDispatch => None,
    }
}

/// The parts of the generated code that arguments take part in.
#[derive(Clone, Copy, Debug, PartialEq, Eq, Structural)]
pub enum ArgumentPart {
    /// The fields that hold whether an argument is there.
    Field,
    /// The initializers of those fields.
    Initializer,
    /// The lifetimes of buffers.
    Lifetime,
    /// The arguments of the function that encodes.
    Definition,
    /// The statements that take buffers apart.
    Deconstruct,
    /// The calls that set arguments.
    Assignment,
}

/// `out` with the type of a constant behind it.
pub open spec fn with_shape(out: Seq<char>, shape: ConstantShape<Seq<char>>) -> Seq<char> {
    match shape {
        ConstantShape::Scalar(ty) => out + ty,
        ConstantShape::UnsizedSlice(ty) => out + "&["@ + ty + "]"@,
        ConstantShape::SizedArray { item, size } => out + "&["@ + item + "; "@ + size + "]"@,
    }
}

/// `out` with the type of a buffer behind it.
pub open spec fn with_buffer_type(
    out: Seq<char>,
    access: KernelBufferAccess,
    lifetime: Seq<char>,
) -> Seq<char> {
    match access {
        KernelBufferAccess::Read => out + "impl crate::backends::common::BufferArg<'"@ + lifetime
            + ", crate::backends::metal::Metal>"@,
        KernelBufferAccess::ReadWrite => out + "impl crate::backends::common::BufferArgMut<'"@
            + lifetime + ", crate::backends::metal::Metal>"@,
    }
}

/// `out` with the definition of an argument behind it.
pub open spec fn with_definition(out: Seq<char>, emission: ArgumentEmission<Seq<char>>) -> Seq<
    char,
> {
    match emission {
        ArgumentEmission::Buffer(buffer) => if buffer.condition is Some {
            with_buffer_type(out + buffer.name + ": Option<"@, buffer.access, buffer.name)
                + " >, "@
        } else {
            with_buffer_type(out + buffer.name + ": "@, buffer.access, buffer.name) + ", "@
        },
        ArgumentEmission::Constant(constant) => if constant.condition is Some {
            with_shape(out + constant.name + ": Option<"@, constant.shape) + " >, "@
        } else {
            with_shape(out + constant.name + ": "@, constant.shape) + ", "@
        },
        ArgumentEmission::Shared(_) => out,
        ArgumentEmission::IndirectDispatch => with_buffer_type(
            out + "__dsl_indirect_dispatch_buffer: "@,
            KernelBufferAccess::Read,
            "__dsl_indirect_dispatch_buffer"@,
        ) + ", "@,
    }
}

fn push_buffer_type(out: &mut String, access: KernelBufferAccess, lifetime: &str)
    ensures
        final(out)@ == with_buffer_type(old(out)@, access, lifetime@),
{
    match access {
        KernelBufferAccess::Read => {
            text::push_str(out, "impl crate::backends::common::BufferArg<'");
        },
        KernelBufferAccess::ReadWrite => {
            text::push_str(out, "impl crate::backends::common::BufferArgMut<'");
        },
    }
    text::push_str(out, lifetime);
    text::push_str(out, ", crate::backends::metal::Metal>");
}

fn push_definition(out: &mut String, emission: &ArgumentEmission<String>)
    ensures
        final(out)@ == with_definition(old(out)@, emission.deep_view()),
{
    match emission {
        ArgumentEmission::Buffer(buffer) => {
            text::push_str(out, buffer.name.as_str());
            if buffer.condition.is_some() {
                text::push_str(out, ": Option<");
                push_buffer_type(out, buffer.access, buffer.name.as_str());
                text::push_str(out, " >, ");
            } else {
                text::push_str(out, ": ");
                push_buffer_type(out, buffer.access, buffer.name.as_str());
                text::push_str(out, ", ");
            }
        },
        ArgumentEmission::Constant(constant) => {
            text::push_str(out, constant.name.as_str());
            if constant.condition.is_some() {
                text::push_str(out, ": Option<");
            } else {
                text::push_str(out, ": ");
            }
            match &constant.shape {
                ConstantShape::Scalar(ty) => {
                    text::push_str(out, ty.as_str());
                },
                ConstantShape::UnsizedSlice(ty) => {
                    text::push_str(out, "&[");
                    text::push_str(out, ty.as_str());
                    text::push_str(out, "]");
                },
                ConstantShape::SizedArray { item, size } => {
                    text::push_str(out, "&[");
                    text::push_str(out, item.as_str());
                    text::push_str(out, "; ");
                    text::push_str(out, size.as_str());
                    text::push_str(out, "]");
                },
            }
            if constant.condition.is_some() {
                text::push_str(out, " >, ");
            } else {
                text::push_str(out, ", ");
            }
        },
        ArgumentEmission::Shared(_) => {},
        ArgumentEmission::IndirectDispatch => {
            text::push_str(out, "__dsl_indirect_dispatch_buffer: ");
            push_buffer_type(out, KernelBufferAccess::Read, "__dsl_indirect_dispatch_buffer");
            text::push_str(out, ", ");
        },
    }
}

/// `out` with an index behind it.
pub open spec fn with_index(out: Seq<char>, index: usize) -> Seq<char> {
    out + text::decimal(index as nat) + "usize"@
}

/// `out` behind which an argument is set only where it is there.
pub open spec fn with_presence(out: Seq<char>, name: Seq<char>, conditional: bool) -> Seq<char> {
    if conditional {
        out + "assert!("@ + name + ".is_some() == self.has_"@ + name + "); if let Some("@ + name
            + ") = "@ + name + " { "@
    } else {
        out
    }
}

/// `out` with the call behind it that sets an argument.
pub open spec fn with_set(out: Seq<char>, emission: ArgumentEmission<Seq<char>>) -> Seq<char> {
    match emission {
        ArgumentEmission::Buffer(buffer) => {
            let set = with_index(
                with_presence(out, buffer.name, buffer.condition is Some)
                    + "compute_encoder.set_buffer(Some("@ + buffer.name + ".0.downcast()), "@
                    + buffer.name + ".1, "@,
                buffer.buffer_index,
            ) + "); "@;
            if buffer.condition is Some {
                set + "} "@
            } else {
                set
            }
        },
        ArgumentEmission::Constant(constant) => {
            let present = with_presence(out, constant.name, constant.condition is Some);
            let called = if constant.shape is Scalar {
                present + "compute_encoder.set_value(&"@ + constant.name + ", "@
            } else {
                present + "compute_encoder.set_slice("@ + constant.name + ", "@
            };
            let set = with_index(called, constant.buffer_index) + "); "@;
            if constant.condition is Some {
                set + "} "@
            } else {
                set
            }
        },
        ArgumentEmission::Shared(shared) => with_index(
            with_index(
                out + "if self.has_"@ + shared.name
                    + " { compute_encoder.set_threadgroup_memory_length(((("@
                    + shared.element_count + ") as usize) * "@,
                shared.element_size,
            ) + ").div_ceil(16) * 16, "@,
            shared.threadgroup_index,
        ) + "); } "@,
        ArgumentEmission::IndirectDispatch => out,
    }
}

fn push_index(out: &mut String, index: usize)
    ensures
        final(out)@ == with_index(old(out)@, index),
{
    text::push_decimal(out, index as u64);
    text::push_str(out, "usize");
}

fn push_presence(out: &mut String, name: &str, conditional: bool)
    ensures
        final(out)@ == with_presence(old(out)@, name@, conditional),
{
    if conditional {
        text::push_str(out, "assert!(");
        text::push_str(out, name);
        text::push_str(out, ".is_some() == self.has_");
        text::push_str(out, name);
        text::push_str(out, "); if let Some(");
        text::push_str(out, name);
        text::push_str(out, ") = ");
        text::push_str(out, name);
        text::push_str(out, " { ");
    }
}

fn push_set(out: &mut String, emission: &ArgumentEmission<String>)
    ensures
        final(out)@ == with_set(old(out)@, emission.deep_view()),
{
    match emission {
        ArgumentEmission::Buffer(buffer) => {
            let name: &str = buffer.name.as_str();
            push_presence(out, name, buffer.condition.is_some());
            text::push_str(out, "compute_encoder.set_buffer(Some(");
            text::push_str(out, name);
            text::push_str(out, ".0.downcast()), ");
            text::push_str(out, name);
            text::push_str(out, ".1, ");
            push_index(out, buffer.buffer_index);
            text::push_str(out, "); ");
            if buffer.condition.is_some() {
                text::push_str(out, "} ");
            }
        },
        ArgumentEmission::Constant(constant) => {
            let name: &str = constant.name.as_str();
            push_presence(out, name, constant.condition.is_some());
            match &constant.shape {
                ConstantShape::Scalar(_) => {
                    text::push_str(out, "compute_encoder.set_value(&");
                },
                _ => {
                    text::push_str(out, "compute_encoder.set_slice(");
                },
            }
            text::push_str(out, name);
            text::push_str(out, ", ");
            push_index(out, constant.buffer_index);
            text::push_str(out, "); ");
            if constant.condition.is_some() {
                text::push_str(out, "} ");
            }
        },
        ArgumentEmission::Shared(shared) => {
            text::push_str(out, "if self.has_");
            text::push_str(out, shared.name.as_str());
            text::push_str(out, " { compute_encoder.set_threadgroup_memory_length((((");
            text::push_str(out, shared.element_count.as_str());
            text::push_str(out, ") as usize) * ");
            push_index(out, shared.element_size);
            text::push_str(out, ").div_ceil(16) * 16, ");
            push_index(out, shared.threadgroup_index);
            text::push_str(out, "); } ");
        },
        ArgumentEmission::IndirectDispatch => {},
    }
}

/// `out` with one part of the code for an argument behind it.
pub open spec fn with_part(
    out: Seq<char>,
    part: ArgumentPart,
    emission: ArgumentEmission<Seq<char>>,
) -> Seq<char> {
    match part {
        ArgumentPart::Field => match condition_of(emission) {
            Some((name, _)) => out + "has_"@ + name + ": bool, "@,
            None => out,
        },
        ArgumentPart::Initializer => match condition_of(emission) {
            Some((name, condition)) => out + ", has_"@ + name + ": "@ + condition,
            None => out,
        },
        ArgumentPart::Lifetime => match emission {
            ArgumentEmission::Buffer(buffer) => out + "'"@ + buffer.name + ", "@,
            ArgumentEmission::IndirectDispatch => out + "'__dsl_indirect_dispatch_buffer, "@,
            _ => out,
        },
        ArgumentPart::Definition => with_definition(out, emission),
        ArgumentPart::Deconstruct => match emission {
            ArgumentEmission::Buffer(buffer) => if buffer.condition is Some {
                out + "let "@ + buffer.name + " = "@ + buffer.name + ".map(|"@ + buffer.name + "| "@
                    + buffer.name + ".into_parts()); "@
            } else {
                out + "let "@ + buffer.name + " = "@ + buffer.name + ".into_parts(); "@
            },
            ArgumentEmission::IndirectDispatch => out
                + "let __dsl_indirect_dispatch_buffer = __dsl_indirect_dispatch_buffer.into_parts(); "@,
            _ => out,
        },
        ArgumentPart::Assignment => with_set(out, emission),
    }
}

/// `out` with one part of the code for the first `count` arguments behind it.
pub open spec fn with_parts(
    out: Seq<char>,
    part: ArgumentPart,
    emissions: Seq<ArgumentEmission<Seq<char>>>,
    count: int,
) -> Seq<char>
    decreases count,
{
    if count <= 0 {
        out
    } else {
        with_part(with_parts(out, part, emissions, count - 1), part, emissions[count - 1])
    }
}

fn push_part(out: &mut String, part: ArgumentPart, emission: &ArgumentEmission<String>)
    ensures
        final(out)@ == with_part(old(out)@, part, emission.deep_view()),
{
    match part {
        ArgumentPart::Field => {
            if let Some((name, _)) = read_condition(emission) {
                text::push_str(out, "has_");
                text::push_str(out, name);
                text::push_str(out, ": bool, ");
            }
        },
        ArgumentPart::Initializer => {
            if let Some((name, condition)) = read_condition(emission) {
                text::push_str(out, ", has_");
                text::push_str(out, name);
                text::push_str(out, ": ");
                text::push_str(out, condition);
            }
        },
        ArgumentPart::Lifetime => {
            match emission {
                ArgumentEmission::Buffer(buffer) => {
                    text::push_str(out, "'");
                    text::push_str(out, buffer.name.as_str());
                    text::push_str(out, ", ");
                },
                ArgumentEmission::IndirectDispatch => {
                    text::push_str(out, "'__dsl_indirect_dispatch_buffer, ");
                },
                _ => {},
            }
        },
        ArgumentPart::Definition => {
            push_definition(out, emission);
        },
        ArgumentPart::Deconstruct => {
            match emission {
                ArgumentEmission::Buffer(buffer) => {
                    let name: &str = buffer.name.as_str();
                    text::push_str(out, "let ");
                    text::push_str(out, name);
                    text::push_str(out, " = ");
                    text::push_str(out, name);
                    if buffer.condition.is_some() {
                        text::push_str(out, ".map(|");
                        text::push_str(out, name);
                        text::push_str(out, "| ");
                        text::push_str(out, name);
                        text::push_str(out, ".into_parts()); ");
                    } else {
                        text::push_str(out, ".into_parts(); ");
                    }
                },
                ArgumentEmission::IndirectDispatch => {
                    text::push_str(
                        out,
                        "let __dsl_indirect_dispatch_buffer = __dsl_indirect_dispatch_buffer.into_parts(); ",
                    );
                },
                _ => {},
            }
        },
        ArgumentPart::Assignment => {
            push_set(out, emission);
        },
    }
}

/// Appends one part of the code for arguments.
pub fn push_parts(out: &mut String, part: ArgumentPart, emissions: &[ArgumentEmission<String>])
    ensures
        final(out)@ == with_parts(
            old(out)@,
            part,
            emissions.deep_view(),
            emissions@.len() as int,
        ),
{
    let ghost before = out@;
    let mut i: usize = 0;
    while i < emissions.len()
        invariant
            i <= emissions@.len(),
            out@ == with_parts(before, part, emissions.deep_view(), i as int),
        decreases emissions@.len() - i,
    {
        assert(emissions.deep_view()[i as int] == emissions@[i as int].deep_view());
        push_part(out, part, &emissions[i]);
        i += 1;
    }
}

/// Whether a kernel reads or writes something through an argument.
pub open spec fn has_access(emission: ArgumentEmission<Seq<char>>) -> bool {
    emission is Buffer || emission is IndirectDispatch
}

/// `out` with what a kernel does with an argument behind it.
pub open spec fn with_access(out: Seq<char>, emission: ArgumentEmission<Seq<char>>) -> Seq<char> {
    match emission {
        ArgumentEmission::Buffer(buffer) => {
            let name = buffer.name;
            let opened = if buffer.condition is Some {
                out + name + ".as_ref().map(|"@ + name + "| "@
            } else {
                out + "Some("@
            };
            let described = opened + "crate::backends::common::Access { range: "@ + name
                + ".0.gpu_address_subrange(("@ + name + ".1)..("@ + name + ".1 + "@ + name
                + ".2)), flags: crate::backends::common::AccessFlags { compute_read: true, compute_write: "@;
            (match buffer.access {
                KernelBufferAccess::Read => described + "false"@,
                KernelBufferAccess::ReadWrite => described + "true"@,
            }) + ", copy_read: false, copy_write: false, }, })"@
        },
        ArgumentEmission::IndirectDispatch => out
            + "Some(crate::backends::common::Access { range: __dsl_indirect_dispatch_buffer.0.gpu_address_subrange((__dsl_indirect_dispatch_buffer.1)..(__dsl_indirect_dispatch_buffer.1 + 12)), flags: crate::backends::common::AccessFlags::compute_read(), })"@,
        _ => out,
    }
}

/// `out` with what a kernel does with the first `count` arguments behind it.
pub open spec fn with_accesses(
    out: Seq<char>,
    emissions: Seq<ArgumentEmission<Seq<char>>>,
    count: int,
) -> Seq<char>
    decreases count,
{
    if count <= 0 {
        out
    } else {
        let before = with_accesses(out, emissions, count - 1);
        if has_access(emissions[count - 1]) {
            with_access(
                if accesses_before(emissions, count - 1) {
                    before + ", "@
                } else {
                    before
                },
                emissions[count - 1],
            )
        } else {
            before
        }
    }
}

/// A kernel reads or writes something through one of the first `count` arguments.
pub open spec fn accesses_before(emissions: Seq<ArgumentEmission<Seq<char>>>, count: int) -> bool
    decreases count,
{
    count > 0 && (has_access(emissions[count - 1]) || accesses_before(emissions, count - 1))
}

/// `out` with the call behind it that declares what a kernel reads and writes.
pub open spec fn with_accesses_call(
    out: Seq<char>,
    emissions: Seq<ArgumentEmission<Seq<char>>>,
) -> Seq<char> {
    let count = emissions.len() as int;
    if accesses_before(emissions, count) {
        with_accesses(out + "encoder.access(&["@, emissions, count)
            + "].into_iter().flatten().collect::<Vec<_>>()); "@
    } else {
        out
    }
}

fn push_access(out: &mut String, emission: &ArgumentEmission<String>)
    ensures
        final(out)@ == with_access(old(out)@, emission.deep_view()),
{
    match emission {
        ArgumentEmission::Buffer(buffer) => {
            let name: &str = buffer.name.as_str();
            if buffer.condition.is_some() {
                text::push_str(out, name);
                text::push_str(out, ".as_ref().map(|");
                text::push_str(out, name);
                text::push_str(out, "| ");
            } else {
                text::push_str(out, "Some(");
            }
            text::push_str(out, "crate::backends::common::Access { range: ");
            text::push_str(out, name);
            text::push_str(out, ".0.gpu_address_subrange((");
            text::push_str(out, name);
            text::push_str(out, ".1)..(");
            text::push_str(out, name);
            text::push_str(out, ".1 + ");
            text::push_str(out, name);
            text::push_str(
                out,
                ".2)), flags: crate::backends::common::AccessFlags { compute_read: true, compute_write: ",
            );
            match buffer.access {
                KernelBufferAccess::Read => {
                    text::push_str(out, "false");
                },
                KernelBufferAccess::ReadWrite => {
                    text::push_str(out, "true");
                },
            }
            text::push_str(out, ", copy_read: false, copy_write: false, }, })");
        },
        ArgumentEmission::IndirectDispatch => {
            text::push_str(
                out,
                "Some(crate::backends::common::Access { range: __dsl_indirect_dispatch_buffer.0.gpu_address_subrange((__dsl_indirect_dispatch_buffer.1)..(__dsl_indirect_dispatch_buffer.1 + 12)), flags: crate::backends::common::AccessFlags::compute_read(), })",
            );
        },
        _ => {},
    }
}

/// Appends the call that declares what a kernel reads and writes.
pub fn push_accesses_call(out: &mut String, emissions: &[ArgumentEmission<String>])
    ensures
        final(out)@ == with_accesses_call(old(out)@, emissions.deep_view()),
{
    let ghost before = out@;
    let ghost all = emissions.deep_view();
    let mut call: String = text::copy_str(out.as_str());
    text::push_str(&mut call, "encoder.access(&[");
    let ghost opened = call@;
    let mut any: bool = false;
    let mut i: usize = 0;
    while i < emissions.len()
        invariant
            i <= emissions@.len(),
            all == emissions.deep_view(),
            any == accesses_before(all, i as int),
            call@ == with_accesses(opened, all, i as int),
        decreases emissions@.len() - i,
    {
        assert(all[i as int] == emissions@[i as int].deep_view());
        match &emissions[i] {
            ArgumentEmission::Buffer(_) | ArgumentEmission::IndirectDispatch => {
                if any {
                    text::push_str(&mut call, ", ");
                }
                push_access(&mut call, &emissions[i]);
                any = true;
            },
            _ => {},
        }
        i += 1;
    }
    if any {
        text::push_str(&mut call, "].into_iter().flatten().collect::<Vec<_>>()); ");
        *out = call;
    }
}

/// What has to be done for an argument that is a buffer, a constant or optional memory of a group.
pub open spec fn is_done_for(
    emission: ArgumentEmission<Seq<char>>,
    argument: MetalArgument<Seq<char>>,
) -> bool {
    match (argument.argument_type, emission) {
        (MetalArgumentType::Buffer(access), ArgumentEmission::Buffer(buffer)) => {
            &&& buffer.name == argument.name
            &&& buffer.access == access
            &&& buffer.condition == match argument.condition {
                Some(condition) => rust_source::expression(condition),
                None => None,
            }
        },
        (
            MetalArgumentType::Constant { rust_type, constant_type },
            ArgumentEmission::Constant(constant),
        ) => {
            &&& constant.name == argument.name
            &&& constant.condition == match argument.condition {
                Some(condition) => rust_source::expression(condition),
                None => None,
            }
            &&& match constant_type {
                MetalConstantType::Scalar => constant.shape matches ConstantShape::Scalar(ty)
                    && rust_source::type_tokens(rust_type) == Some(ty),
                MetalConstantType::UnsizedArray => constant.shape matches ConstantShape::UnsizedSlice(ty)
                    && rust_source::type_tokens(rust_type) == Some(ty),
                MetalConstantType::SizedArray(length) => constant.shape
                    matches ConstantShape::SizedArray { item, size } && rust_source::type_tokens(
                    rust_type,
                ) == Some(item) && rust_source::expression(length) == Some(size),
            }
        },
        (
            MetalArgumentType::Shared { element_count, element_size },
            ArgumentEmission::Shared(shared),
        ) => {
            &&& shared.name == argument.name
            &&& argument.condition matches Some(condition) && rust_source::expression(condition) == Some(
                shared.condition,
            )
            &&& element_count == Some(shared.element_count)
            &&& element_size == Some(shared.element_size)
        },
        _ => false,
    }
}

/// The argument is given when the kernel is encoded.
pub open spec fn is_given(argument: MetalArgument<Seq<char>>) -> bool {
    argument.argument_type is Buffer || argument.argument_type is Constant || (
    argument.argument_type is Shared && argument.condition is Some)
}

proof fn lemma_arguments_are_done(
    arguments: Seq<MetalArgument<Seq<char>>>,
    count: int,
    at: int,
)
    requires
        0 <= count <= arguments.len() <= usize::MAX,
    ensures
        arguments_of(arguments, count) matches Ok(state) ==> {
            &&& 0 <= at < count && is_given(arguments[at]) ==> exists|i: int|
                0 <= i < state.emissions.len() && is_done_for(#[trigger] state.emissions[i], arguments[at])
            &&& state.emissions.len() <= count
        },
    decreases count,
{
    if count > 0 {
        lemma_arguments_are_done(arguments, count - 1, at);
        if let Ok(state) = arguments_of(arguments, count) {
            let before = arguments_of(arguments, count - 1)->Ok_0;
            if 0 <= at < count && is_given(arguments[at]) {
                if at < count - 1 {
                    let i = choose|i: int|
                        0 <= i < before.emissions.len() && is_done_for(
                            #[trigger] before.emissions[i],
                            arguments[at],
                        );
                    assert(state.emissions[i] == before.emissions[i]);
                } else {
                    let last = state.emissions.len() - 1;
                    assert(is_done_for(state.emissions[last], arguments[at]));
                }
            }
        }
    }
}

/// Every buffer, every constant and all optional memory of a group is taken care of, as what it is and under
/// its own condition; buffers and constants are numbered in their order.
pub proof fn law_given_arguments_are_taken_care_of(
    arguments: &[MetalArgument<String>],
    emissions: Vec<ArgumentEmission<String>>,
    at: int,
    index: int,
)
    requires
        arguments@.len() <= usize::MAX,
        call_ensures(
            parse,
            (arguments,),
            Ok::<Vec<ArgumentEmission<String>>, BindgenError>(emissions),
        ),
    ensures
        0 <= at < arguments@.len() && is_given(arguments.deep_view()[at]) ==> exists|i: int|
            0 <= i < emissions@.len() && is_done_for(
                #[trigger] emissions.deep_view()[i],
                arguments.deep_view()[at],
            ),
        0 <= index < emissions@.len() ==> match emissions.deep_view()[index] {
            ArgumentEmission::Buffer(buffer) => buffer.buffer_index == buffers_before(
                emissions.deep_view(),
                index,
            ),
            ArgumentEmission::Constant(constant) => constant.buffer_index == buffers_before(
                emissions.deep_view(),
                index,
            ),
            _ => true,
        },
        emissions@.len() <= arguments@.len(),
{
    let deep = arguments.deep_view();
    assert(deep.len() == arguments@.len());
    assert(emissions.deep_view().len() == emissions@.len());
    lemma_arguments_are_done(deep, deep.len() as int, at);
    law_indices_have_no_gaps(deep, deep.len() as int);
}

/// How a buffer or a constant is set: a buffer with its offset, a value by reference, an array as a slice, each
/// at its own index.
pub open spec fn setting(emission: ArgumentEmission<Seq<char>>) -> Seq<char> {
    match emission {
        ArgumentEmission::Buffer(buffer) => "compute_encoder.set_buffer(Some("@ + buffer.name
            + ".0.downcast()), "@ + buffer.name + ".1, "@ + text::decimal(buffer.buffer_index as nat)
            + "usize"@,
        ArgumentEmission::Constant(constant) => (if constant.shape is Scalar {
            "compute_encoder.set_value(&"@
        } else {
            "compute_encoder.set_slice("@
        }) + constant.name + ", "@ + text::decimal(constant.buffer_index as nat) + "usize"@,
        _ => Seq::empty(),
    }
}

proof fn lemma_setting(out: Seq<char>, emission: ArgumentEmission<Seq<char>>)
    requires
        emission is Buffer || emission is Constant,
    ensures
        text::is_part(with_set(out, emission), setting(emission)),
{
    match emission {
        ArgumentEmission::Buffer(buffer) => {
            let present = with_presence(out, buffer.name, buffer.condition is Some);
            let called = "compute_encoder.set_buffer(Some("@;
            let offset = ".0.downcast()), "@;
            let index = text::decimal(buffer.buffer_index as nat);
            text::lemma_sum(present, called, buffer.name);
            text::lemma_sum(present, called + buffer.name, offset);
            text::lemma_sum(present, called + buffer.name + offset, buffer.name);
            text::lemma_sum(present, called + buffer.name + offset + buffer.name, ".1, "@);
            text::lemma_sum(present, called + buffer.name + offset + buffer.name + ".1, "@, index);
            text::lemma_sum(
                present,
                called + buffer.name + offset + buffer.name + ".1, "@ + index,
                "usize"@,
            );
            if buffer.condition is Some {
                text::lemma_sum(present + setting(emission), "); "@, "} "@);
                text::lemma_part_of_sum(present, setting(emission), "); "@ + "} "@);
            } else {
                text::lemma_part_of_sum(present, setting(emission), "); "@);
            }
        },
        ArgumentEmission::Constant(constant) => {
            let present = with_presence(out, constant.name, constant.condition is Some);
            let called = if constant.shape is Scalar {
                "compute_encoder.set_value(&"@
            } else {
                "compute_encoder.set_slice("@
            };
            let index = text::decimal(constant.buffer_index as nat);
            text::lemma_sum(present, called, constant.name);
            text::lemma_sum(present, called + constant.name, ", "@);
            text::lemma_sum(present, called + constant.name + ", "@, index);
            text::lemma_sum(present, called + constant.name + ", "@ + index, "usize"@);
            if constant.condition is Some {
                text::lemma_sum(present + setting(emission), "); "@, "} "@);
                text::lemma_part_of_sum(present, setting(emission), "); "@ + "} "@);
            } else {
                text::lemma_part_of_sum(present, setting(emission), "); "@);
            }
        },
        _ => {},
    }
}

proof fn lemma_set_keeps(out: Seq<char>, emission: ArgumentEmission<Seq<char>>, part: Seq<char>)
    requires
        text::is_part(out, part),
    ensures
        text::is_part(with_set(out, emission), part),
{
    let whole = with_set(out, emission);
    assert(whole.len() >= out.len());
    assert forall|i: int| 0 <= i < out.len() implies #[trigger] whole[i] == out[i] by {}
    let rest = whole.skip(out.len() as int);
    let nothing = Seq::<char>::empty();
    assert(whole =~= nothing + out + rest);
    text::lemma_part_of_part(out, part, nothing, rest);
}

proof fn lemma_settings(
    out: Seq<char>,
    emissions: Seq<ArgumentEmission<Seq<char>>>,
    count: int,
    at: int,
)
    requires
        0 <= at < count <= emissions.len(),
        emissions[at] is Buffer || emissions[at] is Constant,
    ensures
        text::is_part(
            with_parts(out, ArgumentPart::Assignment, emissions, count),
            setting(emissions[at]),
        ),
    decreases count,
{
    let before = with_parts(out, ArgumentPart::Assignment, emissions, count - 1);
    if at < count - 1 {
        lemma_settings(out, emissions, count - 1, at);
        lemma_set_keeps(before, emissions[count - 1], setting(emissions[at]));
    } else {
        lemma_setting(before, emissions[at]);
    }
}

/// Every buffer and every constant is set at its own index when the kernel is encoded.
pub proof fn law_arguments_are_set_at_their_indices(
    out: &mut String,
    emissions: &[ArgumentEmission<String>],
    at: int,
)
    requires
        call_ensures(push_parts, (out, ArgumentPart::Assignment, emissions), ()),
        0 <= at < emissions@.len(),
        emissions.deep_view()[at] is Buffer || emissions.deep_view()[at] is Constant,
    ensures
        text::is_part(final(out)@, setting(emissions.deep_view()[at])),
{
    let deep = emissions.deep_view();
    assert(deep.len() == emissions@.len());
    lemma_settings(old(out)@, deep, deep.len() as int, at);
}

/// A buffer is said to be written exactly where the kernel may write it, and an optional one only where it is
/// there.
pub proof fn law_accesses_say_what_is_written(
    out: Seq<char>,
    emission: ArgumentEmission<Seq<char>>,
    access: KernelBufferAccess,
)
    requires
        emission matches ArgumentEmission::Buffer(buffer) && buffer.access == access,
    ensures
        access is ReadWrite ==> text::is_part(with_access(out, emission), "compute_write: true"@),
        access is Read ==> text::is_part(with_access(out, emission), "compute_write: false"@),
        emission matches ArgumentEmission::Buffer(buffer) && (buffer.condition is None ==> text::is_part(
            with_access(out, emission),
            "Some("@,
        )),
        emission matches ArgumentEmission::Buffer(buffer) && (buffer.condition is Some ==> text::is_part(
            with_access(out, emission),
            ".as_ref().map(|"@,
        )),
{
    if let ArgumentEmission::Buffer(buffer) = emission {
        let name = buffer.name;
        let last = ".2)), flags: crate::backends::common::AccessFlags { compute_read: true, compute_write: "@;
        let flags = ".2)), flags: crate::backends::common::AccessFlags { compute_read: true, "@;
        let writes = "compute_write: "@;
        reveal_strlit(
            ".2)), flags: crate::backends::common::AccessFlags { compute_read: true, compute_write: ",
        );
        reveal_strlit(".2)), flags: crate::backends::common::AccessFlags { compute_read: true, ");
        reveal_strlit("compute_write: ");
        assert(last =~= flags + writes);
        reveal_strlit("compute_write: true");
        reveal_strlit("compute_write: false");
        reveal_strlit("true");
        reveal_strlit("false");
        assert("compute_write: true"@ =~= writes + "true"@);
        assert("compute_write: false"@ =~= writes + "false"@);
        let opened = if buffer.condition is Some {
            out + name + ".as_ref().map(|"@ + name + "| "@
        } else {
            out + "Some("@
        };
        let front = opened + "crate::backends::common::Access { range: "@ + name
            + ".0.gpu_address_subrange(("@ + name + ".1)..("@ + name + ".1 + "@ + name;
        let closed = ", copy_read: false, copy_write: false, }, })"@;
        text::lemma_sum(front, flags, writes);
        let flag = match access {
            KernelBufferAccess::Read => "false"@,
            KernelBufferAccess::ReadWrite => "true"@,
        };
        text::lemma_sum(front + flags, writes, flag);
        text::lemma_part_of_sum(front + flags, writes + flag, closed);
        let whole = with_access(out, emission);
        assert(whole == front + flags + (writes + flag) + closed);
        assert(whole.len() >= opened.len());
        assert forall|i: int| 0 <= i < opened.len() implies #[trigger] whole[i] == opened[i] by {}
        let rest = whole.skip(opened.len() as int);
        let nothing = Seq::<char>::empty();
        assert(whole =~= nothing + opened + rest);
        if buffer.condition is Some {
            let mark = ".as_ref().map(|"@;
            text::lemma_part_of_sum(out + name, mark, name + "| "@);
            text::lemma_sum(out + name + mark, name, "| "@);
            text::lemma_part_of_part(opened, mark, nothing, rest);
        } else {
            text::lemma_part_of_sum(out, "Some("@, nothing);
            assert(out + "Some("@ + nothing =~= opened);
            text::lemma_part_of_part(opened, "Some("@, nothing, rest);
        }
    }
}

} // verus!
