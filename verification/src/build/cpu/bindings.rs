//! The code that is generated for a kernel function: a type that holds what is fixed when the kernel
//! is created, and that queues a call of the function when the kernel is encoded.
use vstd::prelude::*;

use crate::build::cpu::function::{
    FunctionArgument, FunctionArgumentType, FunctionModel, KernelFunction,
};
use crate::build::kernel::KernelBufferAccess;
use crate::build::rust_source;
use crate::text;

verus! {

/// How a parameter is written.
#[derive(Clone, Copy, Debug, PartialEq, Eq, Structural)]
pub enum EntryStyle {
    /// As a field of a type.
    Field,
    /// As the initializer of a field.
    Initializer,
    /// As an argument behind another one.
    Argument,
}

/// `out` with a parameter behind it.
pub open spec fn with_entry(out: Seq<char>, style: EntryStyle, name: Seq<char>, ty: Seq<char>) -> Seq<
    char,
> {
    match style {
        EntryStyle::Field => out + name + ": "@ + ty + ", "@,
        EntryStyle::Initializer => out + name + ", "@,
        EntryStyle::Argument => out + ", #[allow(non_snake_case)] "@ + name + ": "@ + ty,
    }
}

fn push_entry(out: &mut String, style: EntryStyle, name: &str, ty: &str)
    ensures
        final(out)@ == with_entry(old(out)@, style, name@, ty@),
{
    match style {
        EntryStyle::Field => {
            text::push_str(out, name);
            text::push_str(out, ": ");
            text::push_str(out, ty);
            text::push_str(out, ", ");
        },
        EntryStyle::Initializer => {
            text::push_str(out, name);
            text::push_str(out, ", ");
        },
        EntryStyle::Argument => {
            text::push_str(out, ", #[allow(non_snake_case)] ");
            text::push_str(out, name);
            text::push_str(out, ": ");
            text::push_str(out, ty);
        },
    }
}

/// The type of a generic parameter: a data type stands for a type.
pub open spec fn parameter_type(ty: Option<Seq<char>>) -> Seq<char> {
    match ty {
        Some(ty) => ty,
        None => "crate::data_type::DataType"@,
    }
}

/// `out` with the first `count` generic parameters behind it.
pub open spec fn with_generic_entries(
    out: Seq<char>,
    style: EntryStyle,
    parameters: Seq<(Seq<char>, Option<Seq<char>>)>,
    count: int,
) -> Seq<char>
    decreases count,
{
    if count <= 0 {
        out
    } else {
        with_entry(
            with_generic_entries(out, style, parameters, count - 1),
            style,
            parameters[count - 1].0,
            parameter_type(parameters[count - 1].1),
        )
    }
}

/// `out` with those of the first `count` arguments behind it that are fixed when the kernel is
/// created.
pub open spec fn with_special_entries(
    out: Seq<char>,
    style: EntryStyle,
    arguments: Seq<FunctionArgument<Seq<char>>>,
    count: int,
) -> Seq<char>
    decreases count,
{
    if count <= 0 {
        out
    } else {
        let before = with_special_entries(out, style, arguments, count - 1);
        match arguments[count - 1].ty {
            FunctionArgumentType::Specialization(ty) => with_entry(
                before,
                style,
                arguments[count - 1].name,
                ty,
            ),
            _ => before,
        }
    }
}

/// `out` with everything behind it that is fixed when the kernel is created.
pub open spec fn with_entries(out: Seq<char>, style: EntryStyle, function: FunctionModel) -> Seq<
    char,
> {
    with_special_entries(
        with_generic_entries(
            out,
            style,
            function.parameters,
            function.parameters.len() as int,
        ),
        style,
        function.arguments,
        function.arguments.len() as int,
    )
}

fn push_entries(out: &mut String, style: EntryStyle, function: &KernelFunction)
    ensures
        final(out)@ == with_entries(old(out)@, style, function.deep_view()),
{
    let ghost before = out@;
    let ghost model = function.deep_view();
    let mut i: usize = 0;
    while i < function.parameters.len()
        invariant
            i <= function.parameters@.len(),
            model == function.deep_view(),
            out@ == with_generic_entries(before, style, model.parameters, i as int),
        decreases function.parameters@.len() - i,
    {
        assert(model.parameters[i as int] == function.parameters@[i as int].deep_view());
        let ty: &str = match &function.parameters[i].1 {
            Some(ty) => ty.as_str(),
            None => "crate::data_type::DataType",
        };
        push_entry(out, style, function.parameters[i].0.as_str(), ty);
        i += 1;
    }
    let ghost generic = out@;
    let mut j: usize = 0;
    while j < function.arguments.len()
        invariant
            j <= function.arguments@.len(),
            model == function.deep_view(),
            out@ == with_special_entries(generic, style, model.arguments, j as int),
        decreases function.arguments@.len() - j,
    {
        assert(model.arguments[j as int] == function.arguments@[j as int].deep_view());
        if let FunctionArgumentType::Specialization(ty) = &function.arguments[j].ty {
            push_entry(out, style, function.arguments[j].name.as_str(), ty.as_str());
        }
        j += 1;
    }
}

/// `out` with the lifetimes of the buffers among the first `count` arguments behind it.
pub open spec fn with_lifetimes(
    out: Seq<char>,
    arguments: Seq<FunctionArgument<Seq<char>>>,
    count: int,
) -> Seq<char>
    decreases count,
{
    if count <= 0 {
        out
    } else {
        let before = with_lifetimes(out, arguments, count - 1);
        match arguments[count - 1].ty {
            FunctionArgumentType::Buffer(_) => before + "'"@ + arguments[count - 1].name + ", "@,
            _ => before,
        }
    }
}

fn push_lifetimes(out: &mut String, arguments: &[FunctionArgument<String>])
    ensures
        final(out)@ == with_lifetimes(
            old(out)@,
            arguments.deep_view(),
            arguments@.len() as int,
        ),
{
    let ghost before = out@;
    let mut i: usize = 0;
    while i < arguments.len()
        invariant
            i <= arguments@.len(),
            out@ == with_lifetimes(before, arguments.deep_view(), i as int),
        decreases arguments@.len() - i,
    {
        assert(arguments.deep_view()[i as int] == arguments@[i as int].deep_view());
        if let FunctionArgumentType::Buffer(_) = &arguments[i].ty {
            text::push_str(out, "'");
            text::push_str(out, arguments[i].name.as_str());
            text::push_str(out, ", ");
        }
        i += 1;
    }
}

/// `out` with the type behind it that an argument has when the kernel is encoded.
pub open spec fn with_argument_type(out: Seq<char>, argument: FunctionArgument<Seq<char>>) -> Seq<
    char,
> {
    let opened = if argument.optional {
        out + "Option<"@
    } else {
        out
    };
    let typed = match argument.ty {
        FunctionArgumentType::Buffer(access) => match access {
            KernelBufferAccess::Read => opened + "impl crate::backends::common::BufferArg<'"@
                + argument.name + ", crate::backends::cpu::Cpu>"@,
            KernelBufferAccess::ReadWrite => opened
                + "impl crate::backends::common::BufferArgMut<'"@ + argument.name
                + ", crate::backends::cpu::Cpu>"@,
        },
        FunctionArgumentType::Slice(element) => opened + "&["@ + element + "]"@,
        FunctionArgumentType::Array { item, length } => opened + "&["@ + item + "; "@ + length
            + "]"@,
        FunctionArgumentType::Scalar(ty) => opened + ty,
        FunctionArgumentType::Specialization(ty) => opened + ty,
    };
    if argument.optional {
        typed + " >"@
    } else {
        typed
    }
}

fn push_argument_type(out: &mut String, argument: &FunctionArgument<String>)
    ensures
        final(out)@ == with_argument_type(old(out)@, argument.deep_view()),
{
    if argument.optional {
        text::push_str(out, "Option<");
    }
    match &argument.ty {
        FunctionArgumentType::Buffer(access) => {
            match access {
                KernelBufferAccess::Read => {
                    text::push_str(out, "impl crate::backends::common::BufferArg<'");
                },
                KernelBufferAccess::ReadWrite => {
                    text::push_str(out, "impl crate::backends::common::BufferArgMut<'");
                },
            }
            text::push_str(out, argument.name.as_str());
            text::push_str(out, ", crate::backends::cpu::Cpu>");
        },
        FunctionArgumentType::Slice(element) => {
            text::push_str(out, "&[");
            text::push_str(out, element.as_str());
            text::push_str(out, "]");
        },
        FunctionArgumentType::Array { item, length } => {
            text::push_str(out, "&[");
            text::push_str(out, item.as_str());
            text::push_str(out, "; ");
            text::push_str(out, length.as_str());
            text::push_str(out, "]");
        },
        FunctionArgumentType::Scalar(ty) => {
            text::push_str(out, ty.as_str());
        },
        FunctionArgumentType::Specialization(ty) => {
            text::push_str(out, ty.as_str());
        },
    }
    if argument.optional {
        text::push_str(out, " >");
    }
}

/// `out` with those of the first `count` arguments behind it that are given when the kernel is
/// encoded.
pub open spec fn with_encode_arguments(
    out: Seq<char>,
    arguments: Seq<FunctionArgument<Seq<char>>>,
    count: int,
) -> Seq<char>
    decreases count,
{
    if count <= 0 {
        out
    } else {
        let before = with_encode_arguments(out, arguments, count - 1);
        match arguments[count - 1].ty {
            FunctionArgumentType::Specialization(_) => before,
            _ => with_argument_type(
                before + arguments[count - 1].name + ": "@,
                arguments[count - 1],
            ) + ", "@,
        }
    }
}

fn push_encode_arguments(out: &mut String, arguments: &[FunctionArgument<String>])
    ensures
        final(out)@ == with_encode_arguments(
            old(out)@,
            arguments.deep_view(),
            arguments@.len() as int,
        ),
{
    let ghost before = out@;
    let mut i: usize = 0;
    while i < arguments.len()
        invariant
            i <= arguments@.len(),
            out@ == with_encode_arguments(before, arguments.deep_view(), i as int),
        decreases arguments@.len() - i,
    {
        assert(arguments.deep_view()[i as int] == arguments@[i as int].deep_view());
        match &arguments[i].ty {
            FunctionArgumentType::Specialization(_) => {},
            _ => {
                text::push_str(out, arguments[i].name.as_str());
                text::push_str(out, ": ");
                push_argument_type(out, &arguments[i]);
                text::push_str(out, ", ");
            },
        }
        i += 1;
    }
}

/// `out` with the pointer behind it that a buffer is passed on as.
pub open spec fn with_pointer(out: Seq<char>, access: KernelBufferAccess) -> Seq<char> {
    match access {
        KernelBufferAccess::Read => out
            + "crate::utils::pointers::SendPtr((&*__dsl_buffer.downcast().get()).as_ptr().byte_add(__dsl_offset))"@,
        KernelBufferAccess::ReadWrite => out
            + "crate::utils::pointers::SendPtrMut((&mut *__dsl_buffer.downcast().get()).as_mut_ptr().byte_add(__dsl_offset))"@,
    }
}

fn push_pointer(out: &mut String, access: KernelBufferAccess)
    ensures
        final(out)@ == with_pointer(old(out)@, access),
{
    match access {
        KernelBufferAccess::Read => {
            text::push_str(
                out,
                "crate::utils::pointers::SendPtr((&*__dsl_buffer.downcast().get()).as_ptr().byte_add(__dsl_offset))",
            );
        },
        KernelBufferAccess::ReadWrite => {
            text::push_str(
                out,
                "crate::utils::pointers::SendPtrMut((&mut *__dsl_buffer.downcast().get()).as_mut_ptr().byte_add(__dsl_offset))",
            );
        },
    }
}

/// `out` with the statement behind it that makes an argument outlive the call.
pub open spec fn with_copy(out: Seq<char>, argument: FunctionArgument<Seq<char>>) -> Seq<char> {
    let name = argument.name;
    match argument.ty {
        FunctionArgumentType::Buffer(access) => if argument.optional {
            with_pointer(
                out + "let "@ + name + " = "@ + name
                    + ".map(|__dsl_buffer_impl| unsafe { let (__dsl_buffer, __dsl_offset, _) = __dsl_buffer_impl.into_parts(); "@,
                access,
            ) + " }); "@
        } else {
            with_pointer(
                out + "let "@ + name
                    + " = unsafe { let (__dsl_buffer, __dsl_offset, _) = "@ + name
                    + ".into_parts(); "@,
                access,
            ) + " }; "@
        },
        FunctionArgumentType::Slice(_) => out + "let "@ + name + " = "@ + name
            + ".to_vec().into_boxed_slice(); "@,
        FunctionArgumentType::Array { .. } => out + "let "@ + name + " = Box::new(*"@ + name
            + "); "@,
        FunctionArgumentType::Scalar(_) => out,
        FunctionArgumentType::Specialization(_) => out + "let "@ + name + " = self."@ + name
            + "; "@,
    }
}

fn push_copy(out: &mut String, argument: &FunctionArgument<String>)
    ensures
        final(out)@ == with_copy(old(out)@, argument.deep_view()),
{
    let name: &str = argument.name.as_str();
    match &argument.ty {
        FunctionArgumentType::Buffer(access) => {
            text::push_str(out, "let ");
            text::push_str(out, name);
            if argument.optional {
                text::push_str(out, " = ");
                text::push_str(out, name);
                text::push_str(
                    out,
                    ".map(|__dsl_buffer_impl| unsafe { let (__dsl_buffer, __dsl_offset, _) = __dsl_buffer_impl.into_parts(); ",
                );
                push_pointer(out, *access);
                text::push_str(out, " }); ");
            } else {
                text::push_str(out, " = unsafe { let (__dsl_buffer, __dsl_offset, _) = ");
                text::push_str(out, name);
                text::push_str(out, ".into_parts(); ");
                push_pointer(out, *access);
                text::push_str(out, " }; ");
            }
        },
        FunctionArgumentType::Slice(_) => {
            text::push_str(out, "let ");
            text::push_str(out, name);
            text::push_str(out, " = ");
            text::push_str(out, name);
            text::push_str(out, ".to_vec().into_boxed_slice(); ");
        },
        FunctionArgumentType::Array { .. } => {
            text::push_str(out, "let ");
            text::push_str(out, name);
            text::push_str(out, " = Box::new(*");
            text::push_str(out, name);
            text::push_str(out, "); ");
        },
        FunctionArgumentType::Scalar(_) => {},
        FunctionArgumentType::Specialization(_) => {
            text::push_str(out, "let ");
            text::push_str(out, name);
            text::push_str(out, " = self.");
            text::push_str(out, name);
            text::push_str(out, "; ");
        },
    }
}

/// `out` with the statements behind it that make the first `count` arguments outlive the call.
pub open spec fn with_copies(
    out: Seq<char>,
    arguments: Seq<FunctionArgument<Seq<char>>>,
    count: int,
) -> Seq<char>
    decreases count,
{
    if count <= 0 {
        out
    } else {
        with_copy(with_copies(out, arguments, count - 1), arguments[count - 1])
    }
}

fn push_copies(out: &mut String, arguments: &[FunctionArgument<String>])
    ensures
        final(out)@ == with_copies(old(out)@, arguments.deep_view(), arguments@.len() as int),
{
    let ghost before = out@;
    let mut i: usize = 0;
    while i < arguments.len()
        invariant
            i <= arguments@.len(),
            out@ == with_copies(before, arguments.deep_view(), i as int),
        decreases arguments@.len() - i,
    {
        assert(arguments.deep_view()[i as int] == arguments@[i as int].deep_view());
        push_copy(out, &arguments[i]);
        i += 1;
    }
}

/// `out` with an argument of the call behind it.
pub open spec fn with_call_argument(out: Seq<char>, argument: FunctionArgument<Seq<char>>) -> Seq<
    char,
> {
    match argument.ty {
        FunctionArgumentType::Buffer(_) => if argument.optional {
            out + argument.name + ".map(|p| p.as_ptr() as _)"@
        } else {
            out + argument.name + ".as_ptr() as _"@
        },
        FunctionArgumentType::Slice(_) => out + "&*"@ + argument.name,
        FunctionArgumentType::Array { .. } => out + "&*"@ + argument.name,
        FunctionArgumentType::Scalar(_) => out + argument.name,
        FunctionArgumentType::Specialization(_) => out + argument.name,
    }
}

/// `out` with the first `count` arguments of the call behind it.
pub open spec fn with_call_arguments(
    out: Seq<char>,
    arguments: Seq<FunctionArgument<Seq<char>>>,
    count: int,
) -> Seq<char>
    decreases count,
{
    if count <= 0 {
        out
    } else {
        let before = with_call_arguments(out, arguments, count - 1);
        with_call_argument(
            if count > 1 {
                before + ", "@
            } else {
                before
            },
            arguments[count - 1],
        )
    }
}

fn push_call_arguments(out: &mut String, arguments: &[FunctionArgument<String>])
    ensures
        final(out)@ == with_call_arguments(
            old(out)@,
            arguments.deep_view(),
            arguments@.len() as int,
        ),
{
    let ghost before = out@;
    let mut i: usize = 0;
    while i < arguments.len()
        invariant
            i <= arguments@.len(),
            out@ == with_call_arguments(before, arguments.deep_view(), i as int),
        decreases arguments@.len() - i,
    {
        assert(arguments.deep_view()[i as int] == arguments@[i as int].deep_view());
        if i > 0 {
            text::push_str(out, ", ");
        }
        let name: &str = arguments[i].name.as_str();
        match &arguments[i].ty {
            FunctionArgumentType::Buffer(_) => {
                text::push_str(out, name);
                if arguments[i].optional {
                    text::push_str(out, ".map(|p| p.as_ptr() as _)");
                } else {
                    text::push_str(out, ".as_ptr() as _");
                }
            },
            FunctionArgumentType::Slice(_) | FunctionArgumentType::Array { .. } => {
                text::push_str(out, "&*");
                text::push_str(out, name);
            },
            FunctionArgumentType::Scalar(_) | FunctionArgumentType::Specialization(_) => {
                text::push_str(out, name);
            },
        }
        i += 1;
    }
}

/// `out` with the first `count` values of a selection behind it, by the texts of the variants.
pub open spec fn with_values(
    out: Seq<char>,
    variants: Seq<(Seq<char>, Seq<Seq<char>>)>,
    selection: Seq<usize>,
    count: int,
) -> Seq<char>
    decreases count,
{
    if count <= 0 {
        out
    } else {
        let before = with_values(out, variants, selection, count - 1);
        (if count > 1 {
            before + ", "@
        } else {
            before
        }) + variants[count - 1].1[selection[count - 1] as int]
    }
}

/// One value per variant list.
pub open spec fn is_selection(variants: Seq<(Seq<char>, Seq<Seq<char>>)>, selection: Seq<usize>) -> bool {
    &&& selection.len() == variants.len()
    &&& forall|i: int| 0 <= i < variants.len() ==> selection[i] < (#[trigger] variants[i]).1.len()
}

fn push_values(out: &mut String, variants: &[(String, Vec<String>)], selection: &[usize])
    requires
        is_selection(variants.deep_view(), selection@),
    ensures
        final(out)@ == with_values(
            old(out)@,
            variants.deep_view(),
            selection@,
            variants@.len() as int,
        ),
{
    let ghost before = out@;
    let mut i: usize = 0;
    while i < variants.len()
        invariant
            i <= variants@.len(),
            is_selection(variants.deep_view(), selection@),
            out@ == with_values(before, variants.deep_view(), selection@, i as int),
        decreases variants@.len() - i,
    {
        assert(variants.deep_view()[i as int] == variants@[i as int].deep_view());
        if i > 0 {
            text::push_str(out, ", ");
        }
        let value: usize = selection[i];
        assert(variants.deep_view()[i as int].1[value as int]
            == variants@[i as int].1@[value as int]@);
        text::push_str(out, variants[i].1[value].as_str());
        i += 1;
    }
}

/// `out` with the statement behind it that queues the call of the function for a selection.
pub open spec fn with_call(out: Seq<char>, function: FunctionModel, selection: Seq<usize>) -> Seq<
    char,
> {
    let named = out + "encoder.as_command_buffer_mut().push_command(move || self::"@
        + function.function;
    let monomorphized = if function.variants.len() > 0 {
        with_values(
            named + "::<"@,
            function.variants,
            selection,
            function.variants.len() as int,
        ) + ">"@
    } else {
        named
    };
    with_call_arguments(
        monomorphized + "("@,
        function.arguments,
        function.arguments.len() as int,
    ) + ")); "@
}

fn push_call(out: &mut String, function: &KernelFunction, selection: &[usize])
    requires
        is_selection(function.deep_view().variants, selection@),
    ensures
        final(out)@ == with_call(old(out)@, function.deep_view(), selection@),
{
    text::push_str(out, "encoder.as_command_buffer_mut().push_command(move || self::");
    text::push_str(out, function.function.as_str());
    if function.variants.len() > 0 {
        text::push_str(out, "::<");
        push_values(out, &function.variants, selection);
        text::push_str(out, ">");
    }
    text::push_str(out, "(");
    push_call_arguments(out, &function.arguments);
    text::push_str(out, ")); ");
}

/// `out` with the first `count` patterns behind it that a selection is matched by.
pub open spec fn with_patterns(
    out: Seq<char>,
    function: FunctionModel,
    selection: Seq<usize>,
    count: int,
) -> Seq<char>
    decreases count,
{
    if count <= 0 {
        out
    } else {
        let before = with_patterns(out, function, selection, count - 1);
        let separated = if count > 1 {
            before + ", "@
        } else {
            before
        };
        let value = function.variants[count - 1].1[selection[count - 1] as int];
        match function.parameters[count - 1].1 {
            Some(_) => separated + value,
            None => separated + "crate::data_type::DataType::"@ + rust_source::uppercase(value),
        }
    }
}

fn push_patterns(out: &mut String, function: &KernelFunction, selection: &[usize])
    requires
        function.parameters@.len() == function.variants@.len(),
        is_selection(function.deep_view().variants, selection@),
    ensures
        final(out)@ == with_patterns(
            old(out)@,
            function.deep_view(),
            selection@,
            function.parameters@.len() as int,
        ),
{
    let ghost before = out@;
    let ghost model = function.deep_view();
    let mut i: usize = 0;
    while i < function.parameters.len()
        invariant
            i <= function.parameters@.len(),
            function.parameters@.len() == function.variants@.len(),
            model == function.deep_view(),
            is_selection(model.variants, selection@),
            out@ == with_patterns(before, model, selection@, i as int),
        decreases function.parameters@.len() - i,
    {
        assert(model.variants[i as int] == function.variants@[i as int].deep_view());
        assert(model.parameters[i as int] == function.parameters@[i as int].deep_view());
        if i > 0 {
            text::push_str(out, ", ");
        }
        let value: usize = selection[i];
        assert(model.variants[i as int].1[value as int]
            == function.variants@[i as int].1@[value as int]@);
        if function.parameters[i].1.is_some() {
            text::push_str(out, function.variants[i].1[value].as_str());
        } else {
            text::push_str(out, "crate::data_type::DataType::");
            text::push_str(
                out,
                rust_source::to_uppercase(function.variants[i].1[value].as_str()).as_str(),
            );
        }
        i += 1;
    }
}

/// `out` with the arms behind it for the first `count` selections.
pub open spec fn with_arms(
    out: Seq<char>,
    function: FunctionModel,
    selections: Seq<Seq<usize>>,
    count: int,
) -> Seq<char>
    decreases count,
{
    if count <= 0 {
        out
    } else {
        let before = with_arms(out, function, selections, count - 1);
        let selection = selections[count - 1];
        let matched = if function.parameters.len() == 1 {
            with_patterns(before, function, selection, 1)
        } else {
            with_patterns(
                before + "("@,
                function,
                selection,
                function.parameters.len() as int,
            ) + ")"@
        };
        with_call(matched + " => { "@, function, selection) + "} , "@
    }
}

/// Every selection has one value per variant list.
pub open spec fn are_selections(
    variants: Seq<(Seq<char>, Seq<Seq<char>>)>,
    selections: Seq<Seq<usize>>,
) -> bool {
    forall|i: int| 0 <= i < selections.len() ==> is_selection(variants, #[trigger] selections[i])
}

fn push_arms(out: &mut String, function: &KernelFunction, selections: &[Vec<usize>])
    requires
        function.parameters@.len() == function.variants@.len(),
        are_selections(function.deep_view().variants, selections.deep_view()),
    ensures
        final(out)@ == with_arms(
            old(out)@,
            function.deep_view(),
            selections.deep_view(),
            selections@.len() as int,
        ),
{
    let ghost before = out@;
    let ghost model = function.deep_view();
    let mut i: usize = 0;
    while i < selections.len()
        invariant
            i <= selections@.len(),
            function.parameters@.len() == function.variants@.len(),
            model == function.deep_view(),
            are_selections(model.variants, selections.deep_view()),
            out@ == with_arms(before, model, selections.deep_view(), i as int),
        decreases selections@.len() - i,
    {
        assert(selections.deep_view()[i as int] =~= selections@[i as int]@);
        if function.parameters.len() == 1 {
            push_patterns(out, function, &selections[i]);
        } else {
            text::push_str(out, "(");
            push_patterns(out, function, &selections[i]);
            text::push_str(out, ")");
        }
        text::push_str(out, " => { ");
        push_call(out, function, &selections[i]);
        text::push_str(out, "} , ");
        i += 1;
    }
}

/// `out` with the first `count` generic parameters behind it, as fields.
pub open spec fn with_scrutinee(
    out: Seq<char>,
    parameters: Seq<(Seq<char>, Option<Seq<char>>)>,
    count: int,
) -> Seq<char>
    decreases count,
{
    if count <= 0 {
        out
    } else {
        let before = with_scrutinee(out, parameters, count - 1);
        (if count > 1 {
            before + ", "@
        } else {
            before
        }) + "self."@ + parameters[count - 1].0
    }
}

fn push_scrutinee(out: &mut String, parameters: &[(String, Option<String>)])
    ensures
        final(out)@ == with_scrutinee(
            old(out)@,
            parameters.deep_view(),
            parameters@.len() as int,
        ),
{
    let ghost before = out@;
    let mut i: usize = 0;
    while i < parameters.len()
        invariant
            i <= parameters@.len(),
            out@ == with_scrutinee(before, parameters.deep_view(), i as int),
        decreases parameters@.len() - i,
    {
        assert(parameters.deep_view()[i as int] == parameters@[i as int].deep_view());
        if i > 0 {
            text::push_str(out, ", ");
        }
        text::push_str(out, "self.");
        text::push_str(out, parameters[i].0.as_str());
        i += 1;
    }
}

/// `out` with the statements behind it that queue the call: for a function with generic parameters,
/// by the selection that their values are.
pub open spec fn with_encode_body(
    out: Seq<char>,
    function: FunctionModel,
    selections: Seq<Seq<usize>>,
) -> Seq<char> {
    let count = function.parameters.len() as int;
    if count == 0 {
        with_call(out, function, Seq::empty())
    } else {
        let scrutinee = if count == 1 {
            with_scrutinee(out + "match "@, function.parameters, count)
        } else {
            with_scrutinee(out + "match ("@, function.parameters, count) + ")"@
        };
        with_arms(scrutinee + " { "@, function, selections, selections.len() as int)
            + "__dsl_variant => unimplemented!(\"variant doesn't exist: {__dsl_variant:?}\"), } "@
    }
}

fn push_encode_body(out: &mut String, function: &KernelFunction, selections: &[Vec<usize>])
    requires
        function.parameters@.len() == function.variants@.len(),
        are_selections(function.deep_view().variants, selections.deep_view()),
    ensures
        final(out)@ == with_encode_body(
            old(out)@,
            function.deep_view(),
            selections.deep_view(),
        ),
{
    if function.parameters.len() == 0 {
        let nothing: Vec<usize> = Vec::new();
        assert(nothing@ =~= Seq::empty());
        push_call(out, function, &nothing);
    } else {
        if function.parameters.len() == 1 {
            text::push_str(out, "match ");
            push_scrutinee(out, &function.parameters);
        } else {
            text::push_str(out, "match (");
            push_scrutinee(out, &function.parameters);
            text::push_str(out, ")");
        }
        text::push_str(out, " { ");
        push_arms(out, function, selections);
        text::push_str(
            out,
            "__dsl_variant => unimplemented!(\"variant doesn't exist: {__dsl_variant:?}\"), } ",
        );
    }
}

/// The code that is generated for a kernel function with the given selections.
pub open spec fn bindings_of(function: FunctionModel, selections: Seq<Seq<usize>>) -> Seq<char> {
    let kernel = text::fragment(function.kernel);
    let opened = with_entries(
        "#[allow(non_snake_case)] pub struct "@ + kernel + "CpuKernel { "@,
        EntryStyle::Field,
        function,
    );
    let created = with_entries(
        opened
            + "} #[allow(clippy::style, clippy::complexity, clippy::perf)] impl crate::backends::common::kernel::"@
            + kernel + "Kernel for "@ + kernel
            + "CpuKernel { type Backend = crate::backends::cpu::Cpu; fn new(#[allow(unused)] context: &crate::backends::cpu::context::CpuContext"@,
        EntryStyle::Argument,
        function,
    );
    let initialized = with_entries(
        created + ") -> Result<Self, crate::backends::cpu::error::CpuError> { Ok(Self { "@,
        EntryStyle::Initializer,
        function,
    );
    let lifetimes = with_lifetimes(
        initialized + "}) } fn encode<"@,
        function.arguments,
        function.arguments.len() as int,
    );
    let declared = with_encode_arguments(
        lifetimes + "'encoder>(&self, "@,
        function.arguments,
        function.arguments.len() as int,
    );
    let copied = with_copies(
        declared
            + "encoder: &'encoder mut crate::backends::common::Encoder<crate::backends::cpu::Cpu>) { "@,
        function.arguments,
        function.arguments.len() as int,
    );
    with_encode_body(copied, function, selections) + "} }"@
}

/// The code that is generated for a kernel function with the given selections.
pub fn emit_bindings(function: &KernelFunction, selections: &[Vec<usize>]) -> (bindings: String)
    requires
        function.parameters@.len() == function.variants@.len(),
        are_selections(function.deep_view().variants, selections.deep_view()),
    ensures
        bindings@ == bindings_of(function.deep_view(), selections.deep_view()),
{
    let kernel: &str = function.kernel.as_str();
    let mut out: String = text::copy_str("#[allow(non_snake_case)] pub struct ");
    text::push_fragment(&mut out, kernel);
    text::push_str(&mut out, "CpuKernel { ");
    push_entries(&mut out, EntryStyle::Field, function);
    text::push_str(
        &mut out,
        "} #[allow(clippy::style, clippy::complexity, clippy::perf)] impl crate::backends::common::kernel::",
    );
    text::push_fragment(&mut out, kernel);
    text::push_str(&mut out, "Kernel for ");
    text::push_fragment(&mut out, kernel);
    text::push_str(
        &mut out,
        "CpuKernel { type Backend = crate::backends::cpu::Cpu; fn new(#[allow(unused)] context: &crate::backends::cpu::context::CpuContext",
    );
    push_entries(&mut out, EntryStyle::Argument, function);
    text::push_str(
        &mut out,
        ") -> Result<Self, crate::backends::cpu::error::CpuError> { Ok(Self { ",
    );
    push_entries(&mut out, EntryStyle::Initializer, function);
    text::push_str(&mut out, "}) } fn encode<");
    push_lifetimes(&mut out, &function.arguments);
    text::push_str(&mut out, "'encoder>(&self, ");
    push_encode_arguments(&mut out, &function.arguments);
    text::push_str(
        &mut out,
        "encoder: &'encoder mut crate::backends::common::Encoder<crate::backends::cpu::Cpu>) { ",
    );
    push_copies(&mut out, &function.arguments);
    push_encode_body(&mut out, function, selections);
    text::push_str(&mut out, "} }");
    out
}

} // verus!
