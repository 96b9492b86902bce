//! The arguments that are fixed when a kernel is created: they become function constants.
use vstd::prelude::*;

use crate::build::metal::bindgen::kernel_info::{
    BindgenError, MetalArgument, MetalArgumentType, SpecializeLowering,
};
use crate::build::rust_source;
use crate::text;

verus! {

/// A specialization, its type and its index among the function constants.
#[derive(Debug, PartialEq, Eq)]
pub struct SpecializeArgument<T> {
    pub name: T,
    pub rust_type: T,
    pub function_constant_index: usize,
    pub lowering: SpecializeLowering,
}

impl DeepView for SpecializeArgument<String> {
    type V = SpecializeArgument<Seq<char>>;

    open spec fn deep_view(&self) -> SpecializeArgument<Seq<char>> {
        SpecializeArgument {
            name: self.name@,
            rust_type: self.rust_type@,
            function_constant_index: self.function_constant_index,
            lowering: self.lowering,
        }
    }
}

/// The specializations among the first `count` arguments; their indices follow each other from `base`
/// on.
pub open spec fn specializations_of(
    arguments: Seq<MetalArgument<Seq<char>>>,
    base: int,
    count: int,
) -> Result<Seq<SpecializeArgument<Seq<char>>>, BindgenError>
    decreases count,
{
    if count <= 0 {
        Ok(Seq::empty())
    } else {
        match specializations_of(arguments, base, count - 1) {
            Err(error) => Err(error),
            Ok(before) => match arguments[count - 1].argument_type {
                MetalArgumentType::Specialize { constant, lowering } =>
                    match rust_source::type_tokens(constant) {
                    None => Err(
                        BindgenError::SpecializeType { argument: (count - 1) as usize },
                    ),
                    Some(rust_type) => Ok(
                        before.push(
                            SpecializeArgument {
                                name: arguments[count - 1].name,
                                rust_type,
                                function_constant_index: (base + before.len()) as usize,
                                lowering,
                            },
                        ),
                    ),
                },
                _ => Ok(before),
            },
        }
    }
}

proof fn lemma_refused_specialization_stands(
    arguments: Seq<MetalArgument<Seq<char>>>,
    base: int,
    count: int,
    total: int,
)
    requires
        0 <= count <= total,
        specializations_of(arguments, base, count) is Err,
    ensures
        specializations_of(arguments, base, total) == specializations_of(arguments, base, count),
    decreases total - count,
{
    if count < total {
        lemma_refused_specialization_stands(arguments, base, count, total - 1);
    }
}

/// Specializations have indices of their own.
pub proof fn law_function_constants_are_distinct(
    arguments: Seq<MetalArgument<Seq<char>>>,
    base: int,
    count: int,
)
    requires
        0 <= count <= arguments.len(),
        0 <= base,
        base + arguments.len() <= usize::MAX,
    ensures
        specializations_of(arguments, base, count) matches Ok(specializations)
            ==> specializations.len() <= count && forall|i: int|
            0 <= i < specializations.len() ==> (
            #[trigger] specializations[i]).function_constant_index == base + i,
    decreases count,
{
    if count > 0 {
        law_function_constants_are_distinct(arguments, base, count - 1);
    }
}

/// The specializations of a kernel. `base` is the index of its first function constant, where it is
/// not the first of its source file.
pub fn parse(arguments: &[MetalArgument<String>], base: Option<usize>) -> (specializations: Result<
    Vec<SpecializeArgument<String>>,
    BindgenError,
>)
    requires
        (match base {
            Some(base) => base as int,
            None => 0,
        }) + arguments@.len() <= usize::MAX,
    ensures
        ({
            let first = match base {
                Some(base) => base as int,
                None => 0,
            };
            match specializations_of(arguments.deep_view(), first, arguments@.len() as int) {
                Ok(expected) => specializations matches Ok(specializations)
                    && specializations.deep_view() == expected,
                Err(error) => specializations matches Err(found) && found == error,
            }
        }),
{
    let first: usize = match base {
        Some(base) => base,
        None => 0,
    };
    let ghost all = arguments.deep_view();
    let mut specializations: Vec<SpecializeArgument<String>> = Vec::new();
    assert(specializations.deep_view() =~= Seq::empty());
    let mut i: usize = 0;
    while i < arguments.len()
        invariant
            i <= arguments@.len(),
            all == arguments.deep_view(),
            first == (match base {
                Some(base) => base as int,
                None => 0,
            }),
            first + arguments@.len() <= usize::MAX,
            specializations@.len() <= i,
            specializations_of(all, first as int, i as int) == Ok::<
                Seq<SpecializeArgument<Seq<char>>>,
                BindgenError,
            >(specializations.deep_view()),
        decreases arguments@.len() - i,
    {
        assert(all[i as int] == arguments@[i as int].deep_view());
        let ghost before = specializations.deep_view();
        if let MetalArgumentType::Specialize { constant, lowering } = &arguments[i].argument_type {
            let rust_type: String = match rust_source::read_type(constant.as_str()) {
                Some(rust_type) => rust_type,
                None => {
                    proof {
                        lemma_refused_specialization_stands(
                            all,
                            first as int,
                            i + 1,
                            all.len() as int,
                        );
                    }
                    return Err(BindgenError::SpecializeType { argument: i });
                },
            };
            let specialization: SpecializeArgument<String> = SpecializeArgument {
                name: text::copy_str(arguments[i].name.as_str()),
                rust_type,
                function_constant_index: first + specializations.len(),
                lowering: *lowering,
            };
            let ghost added = specialization.deep_view();
            specializations.push(specialization);
            assert(specializations.deep_view() =~= before.push(added));
        }
        i += 1;
    }
    Ok(specializations)
}

/// The parts of the generated code that specializations take part in.
#[derive(Clone, Copy, Debug, PartialEq, Eq, Structural)]
pub enum SpecializePart {
    /// The arguments of the function that creates the kernel.
    Argument,
    /// The calls that set function constants.
    Value,
    /// The names, behind what tells apart instances of a kernel.
    Key,
}

/// `out` with one part of the code for a specialization behind it.
pub open spec fn with_part(
    out: Seq<char>,
    part: SpecializePart,
    argument: SpecializeArgument<Seq<char>>,
) -> Seq<char> {
    match part {
        SpecializePart::Argument => out + ", "@ + argument.name + ": "@ + argument.rust_type,
        SpecializePart::Value => (match argument.lowering {
            SpecializeLowering::Direct => out + "function_constants.set_value(&"@ + argument.name
                + ", "@,
            SpecializeLowering::Enum => out + "function_constants.set_value(&("@ + argument.name
                + " as u32), "@,
            SpecializeLowering::OptionSet => out + "function_constants.set_value(&"@ + argument.name
                + ".bits(), "@,
        }) + text::decimal(argument.function_constant_index as nat) + "usize); "@,
        SpecializePart::Key => out + ", "@ + argument.name,
    }
}

/// `out` with one part of the code for the first `count` specializations behind it.
pub open spec fn with_parts(
    out: Seq<char>,
    part: SpecializePart,
    arguments: Seq<SpecializeArgument<Seq<char>>>,
    count: int,
) -> Seq<char>
    decreases count,
{
    if count <= 0 {
        out
    } else {
        with_part(with_parts(out, part, arguments, count - 1), part, arguments[count - 1])
    }
}

/// Appends one part of the code for specializations.
pub fn push_parts(
    out: &mut String,
    part: SpecializePart,
    arguments: &[SpecializeArgument<String>],
)
    ensures
        final(out)@ == with_parts(
            old(out)@,
            part,
            arguments.deep_view(),
            arguments@.len() as int,
        ),
{
    let ghost before = out@;
    let mut i: usize = 0;
    while i < arguments.len()
        invariant
            i <= arguments@.len(),
            out@ == with_parts(before, part, arguments.deep_view(), i as int),
        decreases arguments@.len() - i,
    {
        assert(arguments.deep_view()[i as int] == arguments@[i as int].deep_view());
        let name: &str = arguments[i].name.as_str();
        match part {
            SpecializePart::Argument => {
                text::push_str(out, ", ");
                text::push_str(out, name);
                text::push_str(out, ": ");
                text::push_str(out, arguments[i].rust_type.as_str());
            },
            SpecializePart::Value => {
                match arguments[i].lowering {
                    SpecializeLowering::Direct => {
                        text::push_str(out, "function_constants.set_value(&");
                        text::push_str(out, name);
                        text::push_str(out, ", ");
                    },
                    SpecializeLowering::Enum => {
                        text::push_str(out, "function_constants.set_value(&(");
                        text::push_str(out, name);
                        text::push_str(out, " as u32), ");
                    },
                    SpecializeLowering::OptionSet => {
                        text::push_str(out, "function_constants.set_value(&");
                        text::push_str(out, name);
                        text::push_str(out, ".bits(), ");
                    },
                }
                text::push_decimal(out, arguments[i].function_constant_index as u64);
                text::push_str(out, "usize); ");
            },
            SpecializePart::Key => {
                text::push_str(out, ", ");
                text::push_str(out, name);
            },
        }
        i += 1;
    }
}

/// `out` with those of the first `count` specializations behind it that host expressions speak of: as
/// fields, or as their initializers.
pub open spec fn with_retained(
    out: Seq<char>,
    arguments: Seq<SpecializeArgument<Seq<char>>>,
    referenced: Seq<String>,
    fields: bool,
    count: int,
) -> Seq<char>
    decreases count,
{
    if count <= 0 {
        out
    } else {
        let before = with_retained(out, arguments, referenced, fields, count - 1);
        let argument = arguments[count - 1];
        if !text::is_listed(referenced, argument.name) {
            before
        } else if fields {
            before + "specialize_"@ + argument.name + ": "@ + argument.rust_type + ", "@
        } else {
            before + ", specialize_"@ + argument.name + ": "@ + argument.name
        }
    }
}

/// Whether a text is among `texts`.
pub fn contains(texts: &[String], wanted: &str) -> (found: bool)
    ensures
        found == text::is_listed(texts@, wanted@),
{
    let mut i: usize = 0;
    while i < texts.len()
        invariant
            i <= texts@.len(),
            forall|j: int| 0 <= j < i ==> (#[trigger] texts@[j])@ != wanted@,
        decreases texts@.len() - i,
    {
        if text::is_same(texts[i].as_str(), wanted) {
            assert(texts@[i as int]@ == wanted@);
            return true;
        }
        i += 1;
    }
    false
}

/// Appends those specializations that host expressions speak of: as fields, or as their initializers.
pub fn push_retained(
    out: &mut String,
    arguments: &[SpecializeArgument<String>],
    referenced: &[String],
    fields: bool,
)
    ensures
        final(out)@ == with_retained(
            old(out)@,
            arguments.deep_view(),
            referenced@,
            fields,
            arguments@.len() as int,
        ),
{
    let ghost before = out@;
    let mut i: usize = 0;
    while i < arguments.len()
        invariant
            i <= arguments@.len(),
            out@ == with_retained(
                before,
                arguments.deep_view(),
                referenced@,
                fields,
                i as int,
            ),
        decreases arguments@.len() - i,
    {
        assert(arguments.deep_view()[i as int] == arguments@[i as int].deep_view());
        let name: &str = arguments[i].name.as_str();
        if contains(referenced, name) {
            if fields {
                text::push_str(out, "specialize_");
                text::push_str(out, name);
                text::push_str(out, ": ");
                text::push_str(out, arguments[i].rust_type.as_str());
                text::push_str(out, ", ");
            } else {
                text::push_str(out, ", specialize_");
                text::push_str(out, name);
                text::push_str(out, ": ");
                text::push_str(out, name);
            }
        }
        i += 1;
    }
}

/// `out` with the statements behind it that set the function constants.
pub open spec fn with_constants(
    out: Seq<char>,
    arguments: Seq<SpecializeArgument<Seq<char>>>,
) -> Seq<char> {
    if arguments.len() == 0 {
        out
    } else {
        with_parts(
            out + "let function_constants = MTLFunctionConstantValues::new(); "@,
            SpecializePart::Value,
            arguments,
            arguments.len() as int,
        )
    }
}

/// Appends the statements that set the function constants.
pub fn push_constants(out: &mut String, arguments: &[SpecializeArgument<String>])
    ensures
        final(out)@ == with_constants(old(out)@, arguments.deep_view()),
{
    if arguments.len() > 0 {
        text::push_str(out, "let function_constants = MTLFunctionConstantValues::new(); ");
        push_parts(out, SpecializePart::Value, arguments);
    }
}

/// The format that tells apart instances of a kernel by `count` specializations.
pub open spec fn key_format(count: int) -> Seq<char>
    decreases count,
{
    if count <= 0 {
        "{}"@
    } else {
        key_format(count - 1) + "_{:?}"@
    }
}

/// `out` with what tells apart instances of a kernel behind it.
pub open spec fn with_cache_key(
    out: Seq<char>,
    arguments: Seq<SpecializeArgument<Seq<char>>>,
) -> Seq<char> {
    if arguments.len() == 0 {
        out + "&entry_name"@
    } else {
        with_parts(
            out + "&format!("@ + rust_source::string_literal(key_format(arguments.len() as int))
                + ", &entry_name"@,
            SpecializePart::Key,
            arguments,
            arguments.len() as int,
        ) + ")"@
    }
}

/// Appends what tells apart instances of a kernel.
pub fn push_cache_key(out: &mut String, arguments: &[SpecializeArgument<String>])
    ensures
        final(out)@ == with_cache_key(old(out)@, arguments.deep_view()),
{
    if arguments.len() == 0 {
        text::push_str(out, "&entry_name");
        return ;
    }
    let mut format: String = text::copy_str("{}");
    let mut i: usize = 0;
    while i < arguments.len()
        invariant
            i <= arguments@.len(),
            format@ == key_format(i as int),
        decreases arguments@.len() - i,
    {
        text::push_str(&mut format, "_{:?}");
        i += 1;
    }
    text::push_str(out, "&format!(");
    text::push_str(out, rust_source::write_string_literal(format.as_str()).as_str());
    text::push_str(out, ", &entry_name");
    push_parts(out, SpecializePart::Key, arguments);
    text::push_str(out, ")");
}

proof fn lemma_specializations(
    arguments: Seq<MetalArgument<Seq<char>>>,
    base: int,
    count: int,
    at: int,
)
    requires
        0 <= count <= arguments.len(),
    ensures
        specializations_of(arguments, base, count) matches Ok(all) ==> (0 <= at < count
            && arguments[at].argument_type is Specialize ==> exists|i: int|
            0 <= i < all.len() && (#[trigger] all[i]).name == arguments[at].name && all[i].lowering
                == arguments[at].argument_type->lowering && rust_source::type_tokens(
                arguments[at].argument_type->constant,
            ) == Some(all[i].rust_type)),
    decreases count,
{
    if count > 0 {
        lemma_specializations(arguments, base, count - 1, at);
        if let Ok(all) = specializations_of(arguments, base, count) {
            let before = specializations_of(arguments, base, count - 1)->Ok_0;
            if 0 <= at < count && arguments[at].argument_type is Specialize {
                if at < count - 1 {
                    let i = choose|i: int|
                        0 <= i < before.len() && (#[trigger] before[i]).name == arguments[at].name
                            && before[i].lowering == arguments[at].argument_type->lowering
                            && rust_source::type_tokens(
                            arguments[at].argument_type->constant,
                        ) == Some(before[i].rust_type);
                    assert(all[i] == before[i]);
                } else {
                    assert(all[all.len() - 1].name == arguments[at].name);
                }
            }
        }
    }
}

/// Every argument that is specialized becomes a function constant of its name, its type and its way of being
/// passed, and the constants are numbered from the first index on.
pub proof fn law_specialized_arguments_are_numbered(
    arguments: &[MetalArgument<String>],
    base: Option<usize>,
    specializations: Vec<SpecializeArgument<String>>,
    at: int,
    index: int,
)
    requires
        (match base {
            Some(base) => base as int,
            None => 0,
        }) + arguments@.len() <= usize::MAX,
        call_ensures(
            parse,
            (arguments, base),
            Ok::<Vec<SpecializeArgument<String>>, BindgenError>(specializations),
        ),
    ensures
        0 <= index < specializations@.len() ==> specializations@[index].function_constant_index == (match
            base {
            Some(base) => base as int,
            None => 0,
        }) + index,
        0 <= at < arguments@.len() && arguments.deep_view()[at].argument_type is Specialize ==> exists|
            i: int,
        |
            0 <= i < specializations@.len() && (#[trigger] specializations.deep_view()[i]).name
                == arguments.deep_view()[at].name && specializations.deep_view()[i].lowering
                == arguments.deep_view()[at].argument_type->lowering,
        specializations@.len() <= arguments@.len(),
{
    let deep = arguments.deep_view();
    let first = match base {
        Some(base) => base as int,
        None => 0,
    };
    assert(deep.len() == arguments@.len());
    assert(specializations.deep_view().len() == specializations@.len());
    law_function_constants_are_distinct(deep, first, deep.len() as int);
    lemma_specializations(deep, first, deep.len() as int, at);
    if 0 <= index < specializations@.len() {
        assert(specializations.deep_view()[index] == specializations@[index].deep_view());
    }
}

/// How the value of a specialization is written where it is handed over as a function constant.
pub open spec fn handed_over(argument: SpecializeArgument<Seq<char>>) -> Seq<char> {
    match argument.lowering {
        SpecializeLowering::Direct => argument.name,
        SpecializeLowering::Enum => "("@ + argument.name + " as u32)"@,
        SpecializeLowering::OptionSet => argument.name + ".bits()"@,
    }
}

proof fn lemma_value_part(out: Seq<char>, argument: SpecializeArgument<Seq<char>>)
    ensures
        with_part(out, SpecializePart::Value, argument) == out + ("function_constants.set_value(&"@
            + handed_over(argument) + ", "@ + text::decimal(argument.function_constant_index as nat)
            + "usize); "@),
{
    reveal_strlit("function_constants.set_value(&");
    reveal_strlit("function_constants.set_value(&(");
    reveal_strlit("(");
    reveal_strlit(" as u32)");
    reveal_strlit(" as u32), ");
    reveal_strlit(".bits()");
    reveal_strlit(".bits(), ");
    reveal_strlit(", ");
    let index = text::decimal(argument.function_constant_index as nat);
    let front = match argument.lowering {
        SpecializeLowering::Direct => "function_constants.set_value(&"@ + argument.name + ", "@,
        SpecializeLowering::Enum => "function_constants.set_value(&("@ + argument.name + " as u32), "@,
        SpecializeLowering::OptionSet => "function_constants.set_value(&"@ + argument.name
            + ".bits(), "@,
    };
    let given = "function_constants.set_value(&"@ + handed_over(argument) + ", "@;
    assert(front =~= given);
    let whole = with_part(out, SpecializePart::Value, argument);
    match argument.lowering {
        SpecializeLowering::Direct => {
            assert(out + "function_constants.set_value(&"@ + argument.name + ", "@ =~= out + front);
        },
        SpecializeLowering::Enum => {
            assert(out + "function_constants.set_value(&("@ + argument.name + " as u32), "@ =~= out
                + front);
        },
        SpecializeLowering::OptionSet => {
            assert(out + "function_constants.set_value(&"@ + argument.name + ".bits(), "@ =~= out
                + front);
        },
    }
    text::lemma_sum(out, given, index);
    text::lemma_sum(out, given + index, "usize); "@);
}

proof fn lemma_value_parts(
    out: Seq<char>,
    arguments: Seq<SpecializeArgument<Seq<char>>>,
    count: int,
    at: int,
)
    requires
        0 <= at < count <= arguments.len(),
    ensures
        text::is_part(
            with_parts(out, SpecializePart::Value, arguments, count),
            "function_constants.set_value(&"@ + handed_over(arguments[at]) + ", "@ + text::decimal(
                arguments[at].function_constant_index as nat,
            ) + "usize); "@,
        ),
    decreases count,
{
    let nothing = Seq::<char>::empty();
    let before = with_parts(out, SpecializePart::Value, arguments, count - 1);
    let last = arguments[count - 1];
    lemma_value_part(before, last);
    let added = "function_constants.set_value(&"@ + handed_over(last) + ", "@ + text::decimal(
        last.function_constant_index as nat,
    ) + "usize); "@;
    let whole = with_parts(out, SpecializePart::Value, arguments, count);
    assert(whole == before + added);
    if at < count - 1 {
        lemma_value_parts(out, arguments, count - 1, at);
        let part = "function_constants.set_value(&"@ + handed_over(arguments[at]) + ", "@ + text::decimal(
            arguments[at].function_constant_index as nat,
        ) + "usize); "@;
        text::lemma_part_of_part(before, part, nothing, added);
        assert(nothing + before + added =~= whole);
    } else {
        text::lemma_part_of_sum(before, added, nothing);
        assert(before + added + nothing =~= whole);
    }
}

/// Every specialization is handed over under its own number: an enumeration by its number, a set of options by
/// its bits, and everything else as it is.
pub proof fn law_constants_are_set_by_their_numbers(
    out: &mut String,
    arguments: &[SpecializeArgument<String>],
    at: int,
)
    requires
        call_ensures(push_constants, (out, arguments), ()),
        0 <= at < arguments@.len(),
    ensures
        text::is_part(
            final(out)@,
            "function_constants.set_value(&"@ + handed_over(arguments.deep_view()[at]) + ", "@
                + text::decimal(arguments.deep_view()[at].function_constant_index as nat)
                + "usize); "@,
        ),
{
    let deep = arguments.deep_view();
    assert(deep.len() == arguments@.len());
    lemma_value_parts(
        old(out)@ + "let function_constants = MTLFunctionConstantValues::new(); "@,
        deep,
        deep.len() as int,
        at,
    );
}

} // verus!
