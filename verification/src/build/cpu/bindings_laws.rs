//! What the code that is generated for a kernel function does with the arguments of the function.
use vstd::prelude::*;

use crate::build::cpu::bindings;
use crate::build::cpu::bindings::{emit_bindings, EntryStyle};
use crate::build::cpu::function::{FunctionArgument, FunctionArgumentType, FunctionModel, KernelFunction};
use crate::build::kernel::KernelBufferAccess;
use crate::text;

verus! {

/// How an argument is given when the kernel is encoded: a buffer by a reader or a writer with a lifetime of its
/// own name, everything else by its type.
pub open spec fn given_as(argument: FunctionArgument<Seq<char>>) -> Seq<char> {
    match argument.ty {
        FunctionArgumentType::Buffer(KernelBufferAccess::Read) => {
            "impl crate::backends::common::BufferArg<'"@ + argument.name
                + ", crate::backends::cpu::Cpu>"@
        },
        FunctionArgumentType::Buffer(KernelBufferAccess::ReadWrite) => {
            "impl crate::backends::common::BufferArgMut<'"@ + argument.name
                + ", crate::backends::cpu::Cpu>"@
        },
        FunctionArgumentType::Slice(element) => "&["@ + element + "]"@,
        FunctionArgumentType::Array { item, length } => "&["@ + item + "; "@ + length + "]"@,
        FunctionArgumentType::Scalar(ty) => ty,
        FunctionArgumentType::Specialization(ty) => ty,
    }
}

/// How an argument is made to outlive the call, which is queued: of a buffer a pointer behind its offset is
/// kept, slices and arrays are copied, and what was fixed when the kernel was created is read from it.
pub open spec fn kept_as(argument: FunctionArgument<Seq<char>>) -> Seq<char> {
    let name = argument.name;
    match argument.ty {
        FunctionArgumentType::Buffer(access) => {
            let pointer = match access {
                KernelBufferAccess::Read => {
                    "crate::utils::pointers::SendPtr((&*__dsl_buffer.downcast().get()).as_ptr().byte_add(__dsl_offset))"@
                },
                KernelBufferAccess::ReadWrite => {
                    "crate::utils::pointers::SendPtrMut((&mut *__dsl_buffer.downcast().get()).as_mut_ptr().byte_add(__dsl_offset))"@
                },
            };
            if argument.optional {
                "let "@ + name + " = "@ + name
                    + ".map(|__dsl_buffer_impl| unsafe { let (__dsl_buffer, __dsl_offset, _) = __dsl_buffer_impl.into_parts(); "@
                    + pointer + " }); "@
            } else {
                "let "@ + name + " = unsafe { let (__dsl_buffer, __dsl_offset, _) = "@ + name
                    + ".into_parts(); "@ + pointer + " }; "@
            }
        },
        FunctionArgumentType::Slice(_) => "let "@ + name + " = "@ + name
            + ".to_vec().into_boxed_slice(); "@,
        FunctionArgumentType::Array { .. } => "let "@ + name + " = Box::new(*"@ + name + "); "@,
        FunctionArgumentType::Scalar(_) => Seq::empty(),
        FunctionArgumentType::Specialization(_) => "let "@ + name + " = self."@ + name + "; "@,
    }
}

proof fn lemma_given_as(out: Seq<char>, argument: FunctionArgument<Seq<char>>)
    ensures
        text::is_part(bindings::with_argument_type(out, argument), given_as(argument)),
        text::begins_with(bindings::with_argument_type(out, argument), out),
{
    let opened = if argument.optional {
        out + "Option<"@
    } else {
        out
    };
    let given = given_as(argument);
    match argument.ty {
        FunctionArgumentType::Buffer(KernelBufferAccess::Read) => {
            let kind = "impl crate::backends::common::BufferArg<'"@;
            text::lemma_sum(opened, kind, argument.name);
            text::lemma_sum(opened, kind + argument.name, ", crate::backends::cpu::Cpu>"@);
        },
        FunctionArgumentType::Buffer(KernelBufferAccess::ReadWrite) => {
            let kind = "impl crate::backends::common::BufferArgMut<'"@;
            text::lemma_sum(opened, kind, argument.name);
            text::lemma_sum(opened, kind + argument.name, ", crate::backends::cpu::Cpu>"@);
        },
        FunctionArgumentType::Slice(element) => {
            text::lemma_sum(opened, "&["@, element);
            text::lemma_sum(opened, "&["@ + element, "]"@);
        },
        FunctionArgumentType::Array { item, length } => {
            text::lemma_sum(opened, "&["@, item);
            text::lemma_sum(opened, "&["@ + item, "; "@);
            text::lemma_sum(opened, "&["@ + item + "; "@, length);
            text::lemma_sum(opened, "&["@ + item + "; "@ + length, "]"@);
        },
        FunctionArgumentType::Scalar(_) => {},
        FunctionArgumentType::Specialization(_) => {},
    }
    let whole = bindings::with_argument_type(out, argument);
    assert(text::begins_with(whole, opened + given));
    text::lemma_begins_with_part(opened, given, whole);
    assert forall|i: int| 0 <= i < out.len() implies #[trigger] whole[i] == out[i] by {
        assert(whole[i] == opened[i]);
    }
}

proof fn lemma_kept_as(out: Seq<char>, argument: FunctionArgument<Seq<char>>)
    ensures
        bindings::with_copy(out, argument) == out + kept_as(argument),
{
    let name = argument.name;
    match argument.ty {
        FunctionArgumentType::Buffer(access) => {
            let pointer = match access {
                KernelBufferAccess::Read => {
                    "crate::utils::pointers::SendPtr((&*__dsl_buffer.downcast().get()).as_ptr().byte_add(__dsl_offset))"@
                },
                KernelBufferAccess::ReadWrite => {
                    "crate::utils::pointers::SendPtrMut((&mut *__dsl_buffer.downcast().get()).as_mut_ptr().byte_add(__dsl_offset))"@
                },
            };
            text::lemma_sum(out, "let "@, name);
            if argument.optional {
                let taken =
                    ".map(|__dsl_buffer_impl| unsafe { let (__dsl_buffer, __dsl_offset, _) = __dsl_buffer_impl.into_parts(); "@;
                text::lemma_sum(out, "let "@ + name, " = "@);
                text::lemma_sum(out, "let "@ + name + " = "@, name);
                text::lemma_sum(out, "let "@ + name + " = "@ + name, taken);
                text::lemma_sum(out, "let "@ + name + " = "@ + name + taken, pointer);
                text::lemma_sum(out, "let "@ + name + " = "@ + name + taken + pointer, " }); "@);
            } else {
                let opened = " = unsafe { let (__dsl_buffer, __dsl_offset, _) = "@;
                text::lemma_sum(out, "let "@ + name, opened);
                text::lemma_sum(out, "let "@ + name + opened, name);
                text::lemma_sum(out, "let "@ + name + opened + name, ".into_parts(); "@);
                text::lemma_sum(out, "let "@ + name + opened + name + ".into_parts(); "@, pointer);
                text::lemma_sum(
                    out,
                    "let "@ + name + opened + name + ".into_parts(); "@ + pointer,
                    " }; "@,
                );
            }
        },
        FunctionArgumentType::Slice(_) => {
            text::lemma_sum(out, "let "@, name);
            text::lemma_sum(out, "let "@ + name, " = "@);
            text::lemma_sum(out, "let "@ + name + " = "@, name);
            text::lemma_sum(out, "let "@ + name + " = "@ + name, ".to_vec().into_boxed_slice(); "@);
        },
        FunctionArgumentType::Array { .. } => {
            text::lemma_sum(out, "let "@, name);
            text::lemma_sum(out, "let "@ + name, " = Box::new(*"@);
            text::lemma_sum(out, "let "@ + name + " = Box::new(*"@, name);
            text::lemma_sum(out, "let "@ + name + " = Box::new(*"@ + name, "); "@);
        },
        FunctionArgumentType::Scalar(_) => {
            assert(out + Seq::<char>::empty() =~= out);
        },
        FunctionArgumentType::Specialization(_) => {
            text::lemma_sum(out, "let "@, name);
            text::lemma_sum(out, "let "@ + name, " = self."@);
            text::lemma_sum(out, "let "@ + name + " = self."@, name);
            text::lemma_sum(out, "let "@ + name + " = self."@ + name, "; "@);
        },
    }
}

proof fn lemma_copies(
    out: Seq<char>,
    arguments: Seq<FunctionArgument<Seq<char>>>,
    count: int,
    at: int,
)
    requires
        0 <= count <= arguments.len(),
    ensures
        text::begins_with(bindings::with_copies(out, arguments, count), out),
        0 <= at < count ==> text::is_part(
            bindings::with_copies(out, arguments, count),
            kept_as(arguments[at]),
        ),
    decreases count,
{
    if count > 0 {
        lemma_copies(out, arguments, count - 1, at);
        let before = bindings::with_copies(out, arguments, count - 1);
        let whole = bindings::with_copies(out, arguments, count);
        lemma_kept_as(before, arguments[count - 1]);
        assert forall|i: int| 0 <= i < before.len() implies #[trigger] whole[i] == before[i] by {}
        assert forall|i: int| 0 <= i < out.len() implies #[trigger] whole[i] == out[i] by {
            assert(before[i] == out[i]);
        }
        if 0 <= at < count - 1 {
            text::lemma_part_is_kept(whole, before, kept_as(arguments[at]));
        } else if at == count - 1 {
            assert(text::begins_with(whole, before + kept_as(arguments[at])));
            text::lemma_begins_with_part(before, kept_as(arguments[at]), whole);
        }
    }
}

proof fn lemma_encode_arguments(
    out: Seq<char>,
    arguments: Seq<FunctionArgument<Seq<char>>>,
    count: int,
    at: int,
)
    requires
        0 <= count <= arguments.len(),
    ensures
        text::begins_with(bindings::with_encode_arguments(out, arguments, count), out),
        0 <= at < count && arguments[at].ty !is Specialization ==> text::is_part(
            bindings::with_encode_arguments(out, arguments, count),
            given_as(arguments[at]),
        ),
    decreases count,
{
    if count > 0 {
        lemma_encode_arguments(out, arguments, count - 1, at);
        let before = bindings::with_encode_arguments(out, arguments, count - 1);
        let whole = bindings::with_encode_arguments(out, arguments, count);
        let last = arguments[count - 1];
        if last.ty !is Specialization {
            let named = before + last.name + ": "@;
            lemma_given_as(named, last);
            let typed = bindings::with_argument_type(named, last);
            assert(whole == typed + ", "@);
            assert forall|i: int| 0 <= i < typed.len() implies #[trigger] whole[i] == typed[i] by {}
            assert forall|i: int| 0 <= i < before.len() implies #[trigger] whole[i] == before[i] by {
                assert(named[i] == before[i]);
                assert(typed[i] == named[i]);
            }
            if at == count - 1 {
                text::lemma_part_is_kept(whole, typed, given_as(last));
            }
        }
        assert(text::begins_with(whole, before));
        assert forall|i: int| 0 <= i < out.len() implies #[trigger] whole[i] == out[i] by {
            assert(before[i] == out[i]);
        }
        if 0 <= at < count - 1 && arguments[at].ty !is Specialization {
            text::lemma_part_is_kept(whole, before, given_as(arguments[at]));
        }
    }
}

/// How an argument is passed on to the function.
pub open spec fn passed_as(argument: FunctionArgument<Seq<char>>) -> Seq<char> {
    match argument.ty {
        FunctionArgumentType::Buffer(_) => if argument.optional {
            argument.name + ".map(|p| p.as_ptr() as _)"@
        } else {
            argument.name + ".as_ptr() as _"@
        },
        FunctionArgumentType::Slice(_) => "&*"@ + argument.name,
        FunctionArgumentType::Array { .. } => "&*"@ + argument.name,
        FunctionArgumentType::Scalar(_) => argument.name,
        FunctionArgumentType::Specialization(_) => argument.name,
    }
}

/// All arguments as they are passed on, in their order.
pub open spec fn all_passed(arguments: Seq<FunctionArgument<Seq<char>>>, count: int) -> Seq<char>
    decreases count,
{
    if count <= 0 {
        Seq::empty()
    } else if count == 1 {
        passed_as(arguments[0])
    } else {
        all_passed(arguments, count - 1) + ", "@ + passed_as(arguments[count - 1])
    }
}

proof fn lemma_call_arguments(
    out: Seq<char>,
    arguments: Seq<FunctionArgument<Seq<char>>>,
    count: int,
)
    requires
        0 <= count <= arguments.len(),
    ensures
        bindings::with_call_arguments(out, arguments, count) == out + all_passed(arguments, count),
    decreases count,
{
    if count <= 0 {
        assert(out + Seq::<char>::empty() =~= out);
    } else {
        lemma_call_arguments(out, arguments, count - 1);
        let last = arguments[count - 1];
        let front = if count > 1 {
            out + all_passed(arguments, count - 1) + ", "@
        } else {
            out
        };
        if count == 1 {
            assert(out + Seq::<char>::empty() =~= out);
        }
        match last.ty {
            FunctionArgumentType::Buffer(_) => {
                if last.optional {
                    text::lemma_sum(front, last.name, ".map(|p| p.as_ptr() as _)"@);
                } else {
                    text::lemma_sum(front, last.name, ".as_ptr() as _"@);
                }
            },
            FunctionArgumentType::Slice(_) => {
                text::lemma_sum(front, "&*"@, last.name);
            },
            FunctionArgumentType::Array { .. } => {
                text::lemma_sum(front, "&*"@, last.name);
            },
            _ => {},
        }
        assert(bindings::with_call_arguments(out, arguments, count) == front + passed_as(last));
        if count > 1 {
            let passed = all_passed(arguments, count - 1);
            text::lemma_sum(out, passed, ", "@);
            text::lemma_sum(out, passed + ", "@, passed_as(last));
        }
    }
}

/// The call that is queued is of the function, with the values of the selection and all arguments in their
/// order.
pub proof fn law_queued_call_passes_all_arguments(
    out: Seq<char>,
    function: FunctionModel,
    selection: Seq<usize>,
)
    ensures
        text::is_part(
            bindings::with_call(out, function, selection),
            "("@ + all_passed(function.arguments, function.arguments.len() as int) + ")"@,
        ),
        text::is_part(
            bindings::with_call(out, function, selection),
            "push_command(move || self::"@ + function.function,
        ),
{
    let whole = bindings::with_call(out, function, selection);
    let queued = "encoder.as_command_buffer_mut().push_command(move || self::"@;
    let named = out + queued + function.function;
    let count = function.variants.len() as int;
    let opened = named + "::<"@;
    let values = bindings::with_values(opened, function.variants, selection, count);
    let monomorphized = if count > 0 {
        values + ">"@
    } else {
        named
    };
    lemma_values(opened, function.variants, selection, count);
    assert forall|i: int| 0 <= i < named.len() implies #[trigger] monomorphized[i] == named[i] by {
        if count > 0 {
            assert(values[i] == opened[i]);
        }
    }
    let passed = all_passed(function.arguments, function.arguments.len() as int);
    lemma_call_arguments(
        monomorphized + "("@,
        function.arguments,
        function.arguments.len() as int,
    );
    assert(whole == monomorphized + "("@ + passed + ")); "@);
    reveal_strlit(")); ");
    reveal_strlit(")");
    reveal_strlit("); ");
    assert(")); "@ =~= ")"@ + "); "@);
    text::lemma_sum(monomorphized, "("@, passed);
    text::lemma_sum(monomorphized + ("("@ + passed), ")"@, "); "@);
    text::lemma_sum(monomorphized, "("@ + passed, ")"@);
    text::lemma_part_of_sum(monomorphized, "("@ + passed + ")"@, "); "@);
    reveal_strlit("encoder.as_command_buffer_mut().push_command(move || self::");
    reveal_strlit("encoder.as_command_buffer_mut().");
    reveal_strlit("push_command(move || self::");
    let encoder = "encoder.as_command_buffer_mut()."@;
    let command = "push_command(move || self::"@;
    assert(queued =~= encoder + command);
    text::lemma_sum(out, encoder, command);
    text::lemma_sum(out + encoder, command, function.function);
    assert(named == out + encoder + (command + function.function));
    assert forall|i: int| 0 <= i < named.len() implies #[trigger] whole[i] == named[i] by {
        assert(monomorphized[i] == named[i]);
    }
    text::lemma_begins_with_part(out + encoder, command + function.function, whole);
}

proof fn lemma_values(
    out: Seq<char>,
    variants: Seq<(Seq<char>, Seq<Seq<char>>)>,
    selection: Seq<usize>,
    count: int,
)
    ensures
        text::begins_with(bindings::with_values(out, variants, selection, count), out),
    decreases count,
{
    if count > 0 {
        lemma_values(out, variants, selection, count - 1);
        let before = bindings::with_values(out, variants, selection, count - 1);
        let whole = bindings::with_values(out, variants, selection, count);
        assert forall|i: int| 0 <= i < out.len() implies #[trigger] whole[i] == out[i] by {
            assert(before[i] == out[i]);
        }
    }
}

proof fn lemma_call_grows(out: Seq<char>, function: FunctionModel, selection: Seq<usize>)
    ensures
        text::begins_with(bindings::with_call(out, function, selection), out),
{
    let whole = bindings::with_call(out, function, selection);
    let named = out + "encoder.as_command_buffer_mut().push_command(move || self::"@
        + function.function;
    let count = function.variants.len() as int;
    let opened = named + "::<"@;
    let values = bindings::with_values(opened, function.variants, selection, count);
    lemma_values(opened, function.variants, selection, count);
    let monomorphized = if count > 0 {
        values + ">"@
    } else {
        named
    };
    lemma_call_arguments(
        monomorphized + "("@,
        function.arguments,
        function.arguments.len() as int,
    );
    assert forall|i: int| 0 <= i < out.len() implies #[trigger] whole[i] == out[i] by {
        assert(named[i] == out[i]);
        if count > 0 {
            assert(opened[i] == named[i]);
            assert(values[i] == opened[i]);
        }
        assert(monomorphized[i] == named[i]);
    }
}

proof fn lemma_patterns_grow(
    out: Seq<char>,
    function: FunctionModel,
    selection: Seq<usize>,
    count: int,
)
    ensures
        text::begins_with(bindings::with_patterns(out, function, selection, count), out),
    decreases count,
{
    if count > 0 {
        lemma_patterns_grow(out, function, selection, count - 1);
        let before = bindings::with_patterns(out, function, selection, count - 1);
        let whole = bindings::with_patterns(out, function, selection, count);
        assert forall|i: int| 0 <= i < out.len() implies #[trigger] whole[i] == out[i] by {
            assert(before[i] == out[i]);
        }
    }
}

proof fn lemma_arms_grow(
    out: Seq<char>,
    function: FunctionModel,
    selections: Seq<Seq<usize>>,
    count: int,
)
    ensures
        text::begins_with(bindings::with_arms(out, function, selections, count), out),
    decreases count,
{
    if count > 0 {
        lemma_arms_grow(out, function, selections, count - 1);
        let before = bindings::with_arms(out, function, selections, count - 1);
        let selection = selections[count - 1];
        let matched = if function.parameters.len() == 1 {
            bindings::with_patterns(before, function, selection, 1)
        } else {
            bindings::with_patterns(
                before + "("@,
                function,
                selection,
                function.parameters.len() as int,
            ) + ")"@
        };
        lemma_patterns_grow(before, function, selection, 1);
        lemma_patterns_grow(
            before + "("@,
            function,
            selection,
            function.parameters.len() as int,
        );
        lemma_call_grows(matched + " => { "@, function, selection);
        let called = bindings::with_call(matched + " => { "@, function, selection);
        let whole = bindings::with_arms(out, function, selections, count);
        assert(whole == called + "} , "@);
        assert forall|i: int| 0 <= i < out.len() implies #[trigger] whole[i] == out[i] by {
            assert(before[i] == out[i]);
            assert((before + "("@)[i] == before[i]);
            assert(matched[i] == before[i]);
            assert((matched + " => { "@)[i] == matched[i]);
            assert(called[i] == matched[i]);
        }
    }
}

proof fn lemma_scrutinee_grows(
    out: Seq<char>,
    parameters: Seq<(Seq<char>, Option<Seq<char>>)>,
    count: int,
)
    ensures
        text::begins_with(bindings::with_scrutinee(out, parameters, count), out),
    decreases count,
{
    if count > 0 {
        lemma_scrutinee_grows(out, parameters, count - 1);
        let before = bindings::with_scrutinee(out, parameters, count - 1);
        let whole = bindings::with_scrutinee(out, parameters, count);
        assert forall|i: int| 0 <= i < out.len() implies #[trigger] whole[i] == out[i] by {
            assert(before[i] == out[i]);
        }
    }
}

proof fn lemma_body_grows(out: Seq<char>, function: FunctionModel, selections: Seq<Seq<usize>>)
    ensures
        text::begins_with(bindings::with_encode_body(out, function, selections), out),
{
    let count = function.parameters.len() as int;
    if count == 0 {
        lemma_call_grows(out, function, Seq::empty());
    } else {
        lemma_scrutinee_grows(out + "match "@, function.parameters, count);
        lemma_scrutinee_grows(out + "match ("@, function.parameters, count);
        let scrutinee = if count == 1 {
            bindings::with_scrutinee(out + "match "@, function.parameters, count)
        } else {
            bindings::with_scrutinee(out + "match ("@, function.parameters, count) + ")"@
        };
        let opened = scrutinee + " { "@;
        lemma_arms_grow(opened, function, selections, selections.len() as int);
        let arms = bindings::with_arms(opened, function, selections, selections.len() as int);
        let whole = bindings::with_encode_body(out, function, selections);
        assert forall|i: int| 0 <= i < out.len() implies #[trigger] whole[i] == out[i] by {
            assert((out + "match "@)[i] == out[i]);
            assert((out + "match ("@)[i] == out[i]);
            assert(scrutinee[i] == out[i]);
            assert(opened[i] == scrutinee[i]);
            assert(arms[i] == opened[i]);
        }
    }
}

/// The generated code takes every argument that is not fixed before as what it is, and makes every argument
/// outlive the call in the way that its type asks for.
pub proof fn law_generated_code_keeps_the_arguments(
    function: KernelFunction,
    selections: &[Vec<usize>],
    generated: String,
    at: int,
)
    requires
        call_ensures(emit_bindings, (&function, selections), generated),
        0 <= at < function.deep_view().arguments.len(),
    ensures
        function.deep_view().arguments[at].ty !is Specialization ==> text::is_part(
            generated@,
            given_as(function.deep_view().arguments[at]),
        ),
        text::is_part(generated@, kept_as(function.deep_view().arguments[at])),
{
    let deep = function.deep_view();
    let kernel = text::fragment(deep.kernel);
    let count = deep.arguments.len() as int;
    let opened = bindings::with_entries(
        "#[allow(non_snake_case)] pub struct "@ + kernel + "CpuKernel { "@,
        EntryStyle::Field,
        deep,
    );
    let created = bindings::with_entries(
        opened
            + "} #[allow(clippy::style, clippy::complexity, clippy::perf)] impl crate::backends::common::kernel::"@
            + kernel + "Kernel for "@ + kernel
            + "CpuKernel { type Backend = crate::backends::cpu::Cpu; fn new(#[allow(unused)] context: &crate::backends::cpu::context::CpuContext"@,
        EntryStyle::Argument,
        deep,
    );
    let initialized = bindings::with_entries(
        created + ") -> Result<Self, crate::backends::cpu::error::CpuError> { Ok(Self { "@,
        EntryStyle::Initializer,
        deep,
    );
    let lifetimes = bindings::with_lifetimes(initialized + "}) } fn encode<"@, deep.arguments, count);
    let before = lifetimes + "'encoder>(&self, "@;
    let declared = bindings::with_encode_arguments(before, deep.arguments, count);
    lemma_encode_arguments(before, deep.arguments, count, at);
    let started = declared
        + "encoder: &'encoder mut crate::backends::common::Encoder<crate::backends::cpu::Cpu>) { "@;
    let copied = bindings::with_copies(started, deep.arguments, count);
    lemma_copies(started, deep.arguments, count, at);
    lemma_body_grows(copied, deep, selections.deep_view());
    let body = bindings::with_encode_body(copied, deep, selections.deep_view());
    assert(generated@ == body + "} }"@);
    assert forall|i: int| 0 <= i < copied.len() implies #[trigger] generated@[i] == copied[i] by {
        assert(body[i] == copied[i]);
    }
    text::lemma_part_is_kept(generated@, copied, kept_as(deep.arguments[at]));
    assert forall|i: int| 0 <= i < declared.len() implies #[trigger] copied[i] == declared[i] by {
        assert(started[i] == declared[i]);
    }
    if deep.arguments[at].ty !is Specialization {
        text::lemma_part_is_kept(copied, declared, given_as(deep.arguments[at]));
        text::lemma_part_is_kept(generated@, copied, given_as(deep.arguments[at]));
    }
}

/// A selection is matched by its values in their order: a constant by its value, a type by the name of its data
/// type.
pub proof fn law_selections_are_matched_by_their_values(
    out: Seq<char>,
    function: FunctionModel,
    selection: Seq<usize>,
)
    ensures
        ({
            let value = function.variants[0].1[selection[0] as int];
            bindings::with_patterns(out, function, selection, 1) == out + (match function.parameters[0].1 {
                Some(_) => value,
                None => "crate::data_type::DataType::"@ + crate::build::rust_source::uppercase(value),
            })
        }),
        ({
            let value = function.variants[1].1[selection[1] as int];
            bindings::with_patterns(out, function, selection, 2) == bindings::with_patterns(
                out,
                function,
                selection,
                1,
            ) + ", "@ + (match function.parameters[1].1 {
                Some(_) => value,
                None => "crate::data_type::DataType::"@ + crate::build::rust_source::uppercase(value),
            })
        }),
{
    reveal_with_fuel(bindings::with_patterns, 3);
    let first = bindings::with_patterns(out, function, selection, 1);
    if function.parameters[0].1 is None {
        text::lemma_sum(
            out,
            "crate::data_type::DataType::"@,
            crate::build::rust_source::uppercase(function.variants[0].1[selection[0] as int]),
        );
    }
    if function.parameters[1].1 is None {
        text::lemma_sum(
            first + ", "@,
            "crate::data_type::DataType::"@,
            crate::build::rust_source::uppercase(function.variants[1].1[selection[1] as int]),
        );
    }
}

} // verus!
