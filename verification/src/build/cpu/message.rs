//! Why a function is no kernel, in words.
use vstd::prelude::*;

use crate::build::cpu::function::{
    self, AttributesModel, FunctionArgument, KernelAttributes, KernelError,
};
use crate::build::rust_source;
use crate::text;

verus! {

/// What the attributes of a function say; nothing where they cannot be read.
pub open spec fn attributes_in(source: Seq<char>) -> AttributesModel {
    match rust_source::function_parts(source) {
        Some((attributes, _, _, _)) => match function::attributes_of(
            attributes,
            attributes.len() as int,
        ) {
            Ok(attributes) => attributes,
            Err(_) => function::no_attributes(),
        },
        None => function::no_attributes(),
    }
}

/// The generic parameters of a function; none where they cannot be read.
pub open spec fn parameters_in(source: Seq<char>) -> Seq<(Seq<char>, Option<Seq<char>>)> {
    match rust_source::function_parts(source) {
        Some((_, _, parameters, _)) => match function::parameters_of(
            parameters,
            parameters.len() as int,
        ) {
            Ok(parameters) => parameters,
            Err(_) => Seq::empty(),
        },
        None => Seq::empty(),
    }
}

/// The arguments of a function; none where they cannot be read.
pub open spec fn arguments_in(source: Seq<char>) -> Seq<FunctionArgument<Seq<char>>> {
    match rust_source::function_parts(source) {
        Some((_, _, _, arguments)) => match function::arguments_of(
            arguments,
            arguments.len() as int,
        ) {
            Ok(arguments) => arguments,
            Err(_) => Seq::empty(),
        },
        None => Seq::empty(),
    }
}

/// The name of a generic parameter, empty where there is no such parameter.
pub open spec fn parameter_name(source: Seq<char>, index: int) -> Seq<char> {
    if index < parameters_in(source).len() {
        parameters_in(source)[index].0
    } else {
        Seq::empty()
    }
}

/// The name of a `variants`, empty where there is no such attribute.
pub open spec fn variant_name(source: Seq<char>, index: int) -> Seq<char> {
    if index < attributes_in(source).variants.len() {
        attributes_in(source).variants[index].0
    } else {
        Seq::empty()
    }
}

/// A value of a `variants`, empty where there is none.
pub open spec fn variant_value(source: Seq<char>, parameter: int, variant: int) -> Seq<char> {
    let variants = attributes_in(source).variants;
    if parameter < variants.len() && variant < variants[parameter].1.len() {
        variants[parameter].1[variant]
    } else {
        Seq::empty()
    }
}

/// The name of an argument, empty where there is no such argument.
pub open spec fn argument_name(source: Seq<char>, index: int) -> Seq<char> {
    if index < arguments_in(source).len() {
        arguments_in(source)[index].name
    } else {
        Seq::empty()
    }
}

/// The text of a constraint, empty where there is no such constraint.
pub open spec fn constraint_text(source: Seq<char>, index: int) -> Seq<char> {
    if index < attributes_in(source).constraints.len() {
        attributes_in(source).constraints[index]
    } else {
        Seq::empty()
    }
}

fn read_attributes_in(source: &str) -> (read: KernelAttributes)
    ensures
        read.deep_view() == attributes_in(source@),
{
    if let Some((attributes, _, _, _)) = rust_source::read_function(source) {
        assert(attributes@.len() == attributes.deep_view().len());
        if let Ok(read) = function::read_attributes(&attributes) {
            return read;
        }
    }
    let read = KernelAttributes { kernel: None, variants: Vec::new(), constraints: Vec::new() };
    assert(read.deep_view() =~= function::no_attributes());
    read
}

fn read_parameters_in(source: &str) -> (read: Vec<(String, Option<String>)>)
    ensures
        read.deep_view() == parameters_in(source@),
{
    if let Some((_, _, parameters, _)) = rust_source::read_function(source) {
        assert(parameters@.len() == parameters.deep_view().len());
        if let Ok(read) = function::read_parameters(&parameters) {
            return read;
        }
    }
    let read: Vec<(String, Option<String>)> = Vec::new();
    assert(read.deep_view() =~= Seq::empty());
    read
}

fn read_arguments_in(source: &str) -> (read: Vec<FunctionArgument<String>>)
    ensures
        read.deep_view() == arguments_in(source@),
{
    if let Some((_, _, _, arguments)) = rust_source::read_function(source) {
        assert(arguments@.len() == arguments.deep_view().len());
        if let Ok(read) = function::read_arguments(&arguments) {
            return read;
        }
    }
    let read: Vec<FunctionArgument<String>> = Vec::new();
    assert(read.deep_view() =~= Seq::empty());
    read
}

fn push_parameter_name(message: &mut String, source: &str, index: usize)
    ensures
        final(message)@ == old(message)@ + parameter_name(source@, index as int),
{
    let parameters: Vec<(String, Option<String>)> = read_parameters_in(source);
    assert(parameters@.len() == parameters.deep_view().len());
    if index < parameters.len() {
        assert(parameters.deep_view()[index as int] == parameters@[index as int].deep_view());
        text::push_str(message, parameters[index].0.as_str());
    }
    assert(message@ =~= old(message)@ + parameter_name(source@, index as int));
}

fn push_variant_name(message: &mut String, source: &str, index: usize)
    ensures
        final(message)@ == old(message)@ + variant_name(source@, index as int),
{
    let attributes: KernelAttributes = read_attributes_in(source);
    let variants: &Vec<(String, Vec<String>)> = &attributes.variants;
    assert(variants@.len() == variants.deep_view().len());
    if index < variants.len() {
        assert(variants.deep_view()[index as int] == variants@[index as int].deep_view());
        text::push_str(message, variants[index].0.as_str());
    }
    assert(message@ =~= old(message)@ + variant_name(source@, index as int));
}

fn push_variant_value(message: &mut String, source: &str, parameter: usize, variant: usize)
    ensures
        final(message)@ == old(message)@ + variant_value(source@, parameter as int, variant as int),
{
    let attributes: KernelAttributes = read_attributes_in(source);
    let variants: &Vec<(String, Vec<String>)> = &attributes.variants;
    assert(variants@.len() == variants.deep_view().len());
    if parameter < variants.len() {
        assert(variants.deep_view()[parameter as int] == variants@[parameter as int].deep_view());
        let values: &Vec<String> = &variants[parameter].1;
        assert(values@.len() == values.deep_view().len());
        if variant < values.len() {
            assert(values.deep_view()[variant as int] == values@[variant as int]@);
            text::push_str(message, values[variant].as_str());
        }
    }
    assert(message@ =~= old(message)@ + variant_value(source@, parameter as int, variant as int));
}

fn push_argument_name(message: &mut String, source: &str, index: usize)
    ensures
        final(message)@ == old(message)@ + argument_name(source@, index as int),
{
    let arguments: Vec<FunctionArgument<String>> = read_arguments_in(source);
    assert(arguments@.len() == arguments.deep_view().len());
    if index < arguments.len() {
        assert(arguments.deep_view()[index as int] == arguments@[index as int].deep_view());
        text::push_str(message, arguments[index].name.as_str());
    }
    assert(message@ =~= old(message)@ + argument_name(source@, index as int));
}

fn push_constraint_text(message: &mut String, source: &str, index: usize)
    ensures
        final(message)@ == old(message)@ + constraint_text(source@, index as int),
{
    let attributes: KernelAttributes = read_attributes_in(source);
    let constraints: &Vec<String> = &attributes.constraints;
    assert(constraints@.len() == constraints.deep_view().len());
    if index < constraints.len() {
        assert(constraints.deep_view()[index as int] == constraints@[index as int]@);
        text::push_str(message, constraints[index].as_str());
    }
    assert(message@ =~= old(message)@ + constraint_text(source@, index as int));
}

impl KernelError {
    /// The reason in words, for an error that comes of every function alike.
    pub open spec fn plain_message(self) -> Option<Seq<char>> {
        match self {
            KernelError::NotAFunction => Some("cannot parse ast"@),
            KernelError::MultipleKernelAttributes => Some("Multiple kernel attributes!"@),
            KernelError::KernelAttribute => Some("cannot parse kernel attribute arg"@),
            KernelError::VariantsAttribute => Some("cannot parse variants attribute args"@),
            KernelError::MissingVariantName => Some("variant must have a name"@),
            KernelError::VariantName => Some("variant name must be an identifier"@),
            KernelError::ConstraintAttribute => Some("cannot parse constraint attribute"@),
            KernelError::NotAKernel => Some("Not a kernel"@),
            KernelError::UnsupportedParameter => Some("unsupported kernel parameter type"@),
            KernelError::SelfArgument => Some("self argument in a kernel is not supported"@),
            KernelError::ArgumentPattern => Some("kernel argument name must be an identifier"@),
            KernelError::ArgumentBinding => Some("kernel argument name must be a plain identifier"@),
            KernelError::OptionalAttribute => Some("cannot parse optional argument condition"@),
            KernelError::ConditionalPath => Some("conditional argument must be a type path"@),
            KernelError::ConditionalSegments => Some(
                "conditional argument type path must have one segment"@,
            ),
            KernelError::ConditionalOption => Some(
                "conditional argument type must be Option<...>"@,
            ),
            KernelError::ConditionalBrackets => Some(
                "conditional argument type must be angle bracketed"@,
            ),
            KernelError::ConditionalArguments => Some(
                "conditional argument type Option must have one generic argument"@,
            ),
            KernelError::ConditionalType => Some(
                "conditional argument type Option must have a type argument"@,
            ),
            KernelError::UnsupportedReference => Some("unsupported reference type"@),
            KernelError::UnsupportedType => Some("unsupported type"@),
            _ => None,
        }
    }

    /// The reason in words, where `source` is the text of the function.
    pub open spec fn spec_message(self, source: Seq<char>) -> Seq<char> {
        match self {
            KernelError::VariantCount { parameters, variants } => "Kernel function has "@
                + text::decimal(parameters as nat) + " generics != "@ + text::decimal(variants as nat)
                + " #[variants(...)]!"@,
            KernelError::VariantMismatch { index } => "Parameter name doesn't match variant name: "@
                + parameter_name(source, index as int) + " | "@ + variant_name(source, index as int),
            KernelError::DataTypeName { parameter, variant } => "variant `"@ + variant_value(
                source,
                parameter as int,
                variant as int,
            ) + "` of "@ + parameter_name(source, parameter as int) + " is not the name of a data type"@,
            KernelError::LifetimeName { index } => "argument `"@ + argument_name(
                source,
                index as int,
            ) + "` is not the name of a lifetime"@,
            KernelError::ConstraintSyntax { index } => "constraint `"@ + constraint_text(
                source,
                index as int,
            ) + "` failed to compile"@,
            KernelError::ConstraintValue { index } => "constraint `"@ + constraint_text(
                source,
                index as int,
            ) + "` failed to evaluate"@,
            KernelError::VariantValue { index } => "a variant of "@ + parameter_name(
                source,
                index as int,
            ) + " runs something"@,
            _ => match self.plain_message() {
                Some(message) => message,
                None => Seq::empty(),
            },
        }
    }

    fn read_plain_message(self) -> (message: Option<&'static str>)
        ensures
            message.deep_view() == self.plain_message(),
    {
        match self {
            KernelError::NotAFunction => Some("cannot parse ast"),
            KernelError::MultipleKernelAttributes => Some("Multiple kernel attributes!"),
            KernelError::KernelAttribute => Some("cannot parse kernel attribute arg"),
            KernelError::VariantsAttribute => Some("cannot parse variants attribute args"),
            KernelError::MissingVariantName => Some("variant must have a name"),
            KernelError::VariantName => Some("variant name must be an identifier"),
            KernelError::ConstraintAttribute => Some("cannot parse constraint attribute"),
            KernelError::NotAKernel => Some("Not a kernel"),
            KernelError::UnsupportedParameter => Some("unsupported kernel parameter type"),
            KernelError::SelfArgument => Some("self argument in a kernel is not supported"),
            KernelError::ArgumentPattern => Some("kernel argument name must be an identifier"),
            KernelError::ArgumentBinding => Some("kernel argument name must be a plain identifier"),
            KernelError::OptionalAttribute => Some("cannot parse optional argument condition"),
            KernelError::ConditionalPath => Some("conditional argument must be a type path"),
            KernelError::ConditionalSegments => Some(
                "conditional argument type path must have one segment",
            ),
            KernelError::ConditionalOption => Some("conditional argument type must be Option<...>"),
            KernelError::ConditionalBrackets => Some(
                "conditional argument type must be angle bracketed",
            ),
            KernelError::ConditionalArguments => Some(
                "conditional argument type Option must have one generic argument",
            ),
            KernelError::ConditionalType => Some(
                "conditional argument type Option must have a type argument",
            ),
            KernelError::UnsupportedReference => Some("unsupported reference type"),
            KernelError::UnsupportedType => Some("unsupported type"),
            _ => None,
        }
    }

    /// The reason in words, where `source` is the text of the function: the names that the error
    /// points at are read from it.
    pub fn message(self, source: &str) -> (message: String)
        ensures
            message@ == self.spec_message(source@),
    {
        let mut message: String = String::new();
        match self {
            KernelError::VariantCount { parameters, variants } => {
                text::push_str(&mut message, "Kernel function has ");
                text::push_decimal(&mut message, parameters as u64);
                text::push_str(&mut message, " generics != ");
                text::push_decimal(&mut message, variants as u64);
                text::push_str(&mut message, " #[variants(...)]!");
            },
            KernelError::VariantMismatch { index } => {
                text::push_str(&mut message, "Parameter name doesn't match variant name: ");
                push_parameter_name(&mut message, source, index);
                text::push_str(&mut message, " | ");
                push_variant_name(&mut message, source, index);
            },
            KernelError::DataTypeName { parameter, variant } => {
                text::push_str(&mut message, "variant `");
                push_variant_value(&mut message, source, parameter, variant);
                text::push_str(&mut message, "` of ");
                push_parameter_name(&mut message, source, parameter);
                text::push_str(&mut message, " is not the name of a data type");
            },
            KernelError::LifetimeName { index } => {
                text::push_str(&mut message, "argument `");
                push_argument_name(&mut message, source, index);
                text::push_str(&mut message, "` is not the name of a lifetime");
            },
            KernelError::ConstraintSyntax { index } => {
                text::push_str(&mut message, "constraint `");
                push_constraint_text(&mut message, source, index);
                text::push_str(&mut message, "` failed to compile");
            },
            KernelError::ConstraintValue { index } => {
                text::push_str(&mut message, "constraint `");
                push_constraint_text(&mut message, source, index);
                text::push_str(&mut message, "` failed to evaluate");
            },
            KernelError::VariantValue { index } => {
                text::push_str(&mut message, "a variant of ");
                push_parameter_name(&mut message, source, index);
                text::push_str(&mut message, " runs something");
            },
            _ => {
                if let Some(plain) = self.read_plain_message() {
                    text::push_str(&mut message, plain);
                }
            },
        }
        assert(message@ =~= self.spec_message(source@));
        message
    }
}

/// Where a `variants` has another name than its generic parameter, the message holds the two names,
/// which differ.
pub proof fn law_a_mismatch_names_both(source: Seq<char>, index: usize)
    requires
        function::function_of(source) == Err::<function::FunctionModel, KernelError>(
            KernelError::VariantMismatch { index },
        ),
        parameters_in(source).len() <= usize::MAX,
    ensures
        index < parameters_in(source).len() == attributes_in(source).variants.len(),
        parameter_name(source, index as int) != variant_name(source, index as int),
        parameter_name(source, index as int) == parameters_in(source)[index as int].0,
        variant_name(source, index as int) == attributes_in(source).variants[index as int].0,
{
    let (attributes, _, parameters, arguments) = rust_source::function_parts(source)->0;
    lemma_attributes_do_not_mismatch(attributes, attributes.len() as int);
    lemma_parameters_do_not_mismatch(parameters, parameters.len() as int);
    lemma_arguments_do_not_mismatch(arguments, arguments.len() as int);
    lemma_mismatch(parameters_in(source), attributes_in(source).variants, 0);
}

proof fn lemma_attributes_do_not_mismatch(attributes: Seq<Seq<char>>, count: int)
    ensures
        function::attributes_of(attributes, count) matches Err(error) ==> !(error is VariantMismatch),
    decreases count,
{
    if count > 0 {
        lemma_attributes_do_not_mismatch(attributes, count - 1);
    }
}

proof fn lemma_parameters_do_not_mismatch(parameters: Seq<Seq<char>>, count: int)
    ensures
        function::parameters_of(parameters, count) matches Err(error) ==> !(error is VariantMismatch),
    decreases count,
{
    if count > 0 {
        lemma_parameters_do_not_mismatch(parameters, count - 1);
    }
}

proof fn lemma_arguments_do_not_mismatch(arguments: Seq<Seq<char>>, count: int)
    ensures
        function::arguments_of(arguments, count) matches Err(error) ==> !(error is VariantMismatch),
    decreases count,
{
    if count > 0 {
        lemma_arguments_do_not_mismatch(arguments, count - 1);
    }
}

proof fn lemma_mismatch(
    parameters: Seq<(Seq<char>, Option<Seq<char>>)>,
    variants: Seq<(Seq<char>, Seq<Seq<char>>)>,
    from: int,
)
    requires
        0 <= from,
        parameters.len() == variants.len(),
    ensures
        function::mismatch_from(parameters, variants, from) matches Some(index) ==> from <= index
            < parameters.len() && parameters[index].0 != variants[index].0,
    decreases parameters.len() - from,
{
    if from < parameters.len() && parameters[from].0 == variants[from].0 {
        lemma_mismatch(parameters, variants, from + 1);
    }
}

/// A message about something that the source holds shows it: the argument, the constraint, the value or the
/// parameter that the error points at, and the numbers that differ.
pub proof fn law_messages_show_what_is_wrong(error: KernelError, source: &str, message: String)
    requires
        call_ensures(KernelError::message, (error, source), message),
    ensures
        match error {
            KernelError::VariantCount { parameters, variants } => text::is_part(
                message@,
                text::decimal(parameters as nat) + " generics != "@ + text::decimal(variants as nat),
            ),
            KernelError::VariantMismatch { index } => text::is_part(
                message@,
                parameter_name(source@, index as int) + " | "@ + variant_name(source@, index as int),
            ),
            KernelError::DataTypeName { parameter, variant } => text::is_part(
                message@,
                variant_value(source@, parameter as int, variant as int),
            ) && text::is_part(message@, parameter_name(source@, parameter as int)),
            KernelError::LifetimeName { index } => text::is_part(
                message@,
                argument_name(source@, index as int),
            ),
            KernelError::ConstraintSyntax { index } => text::is_part(
                message@,
                constraint_text(source@, index as int),
            ),
            KernelError::ConstraintValue { index } => text::is_part(
                message@,
                constraint_text(source@, index as int),
            ),
            KernelError::VariantValue { index } => text::is_part(
                message@,
                parameter_name(source@, index as int),
            ),
            _ => true,
        },
{
    let nothing = Seq::<char>::empty();
    match error {
        KernelError::VariantCount { parameters, variants } => {
            let front = "Kernel function has "@;
            let left = text::decimal(parameters as nat);
            let right = text::decimal(variants as nat);
            text::lemma_sum(front, left, " generics != "@);
            text::lemma_sum(front, left + " generics != "@, right);
            text::lemma_part_of_sum(front, left + " generics != "@ + right, " #[variants(...)]!"@);
        },
        KernelError::VariantMismatch { index } => {
            let front = "Parameter name doesn't match variant name: "@;
            let left = parameter_name(source@, index as int);
            let right = variant_name(source@, index as int);
            text::lemma_sum(front, left, " | "@);
            text::lemma_sum(front, left + " | "@, right);
            text::lemma_part_of_sum(front, left + " | "@ + right, nothing);
            assert(front + (left + " | "@ + right) + nothing =~= front + (left + " | "@ + right));
        },
        KernelError::DataTypeName { parameter, variant } => {
            let value = variant_value(source@, parameter as int, variant as int);
            let name = parameter_name(source@, parameter as int);
            let end = " is not the name of a data type"@;
            text::lemma_part_of_sum("variant `"@ + value + "` of "@, name, end);
            text::lemma_sum("variant `"@ + value, "` of "@, name);
            text::lemma_sum("variant `"@ + value, "` of "@ + name, end);
            text::lemma_part_of_sum("variant `"@, value, "` of "@ + name + end);
        },
        KernelError::LifetimeName { index } => {
            text::lemma_part_of_sum(
                "argument `"@,
                argument_name(source@, index as int),
                "` is not the name of a lifetime"@,
            );
        },
        KernelError::ConstraintSyntax { index } => {
            text::lemma_part_of_sum(
                "constraint `"@,
                constraint_text(source@, index as int),
                "` failed to compile"@,
            );
        },
        KernelError::ConstraintValue { index } => {
            text::lemma_part_of_sum(
                "constraint `"@,
                constraint_text(source@, index as int),
                "` failed to evaluate"@,
            );
        },
        KernelError::VariantValue { index } => {
            text::lemma_part_of_sum(
                "a variant of "@,
                parameter_name(source@, index as int),
                " runs something"@,
            );
        },
        _ => {},
    }
}

} // verus!
