//! The function behind a kernel, read from its source.
use vstd::prelude::*;

use crate::build::kernel::KernelBufferAccess;
use crate::build::rust_source::{self, TypeShape};
use crate::text;

verus! {

/// Why a function is no kernel.
#[derive(Clone, Copy, Debug, PartialEq, Eq, Structural)]
pub enum KernelError {
    /// The text is no function.
    NotAFunction,
    /// More than one `kernel` attribute.
    MultipleKernelAttributes,
    /// The argument of `kernel` is no identifier.
    KernelAttribute,
    /// The arguments of `variants` are no expressions.
    VariantsAttribute,
    /// `variants` has no arguments.
    MissingVariantName,
    /// The first argument of `variants` is no identifier.
    VariantName,
    /// The argument of `constraint` is no expression.
    ConstraintAttribute,
    /// No `kernel` attribute.
    NotAKernel,
    /// A generic parameter that is neither a type nor a constant.
    UnsupportedParameter,
    /// A `self` argument.
    SelfArgument,
    /// An argument whose pattern is no identifier.
    ArgumentPattern,
    /// An argument that is bound by reference, mutably or with a pattern.
    ArgumentBinding,
    /// The argument of `optional` is no expression.
    OptionalAttribute,
    /// The type of a conditional argument is no path.
    ConditionalPath,
    /// The type of a conditional argument has several segments.
    ConditionalSegments,
    /// The type of a conditional argument is no `Option`.
    ConditionalOption,
    /// The arguments of `Option` do not stand in angle brackets.
    ConditionalBrackets,
    /// `Option` does not have one argument.
    ConditionalArguments,
    /// The argument of `Option` is no type.
    ConditionalType,
    /// A reference to what is neither a slice nor an array.
    UnsupportedReference,
    /// A type that is no pointer, reference or path.
    UnsupportedType,
    /// There are not as many `variants` as generic parameters.
    VariantCount { parameters: usize, variants: usize },
    /// The name of a `variants` is not that of its generic parameter.
    VariantMismatch { index: usize },
    /// A variant of a type parameter is not the name of a data type.
    DataTypeName { parameter: usize, variant: usize },
    /// The name of a buffer argument is not the name of a lifetime.
    LifetimeName { index: usize },
    /// A constraint cannot be read.
    ConstraintSyntax { index: usize },
    /// A constraint cannot be evaluated.
    ConstraintValue { index: usize },
    /// The value of the generic parameter at `index` runs something, so no constraint can be asked.
    VariantValue { index: usize },
}

/// What an argument of a kernel function is.
#[derive(Debug, PartialEq, Eq)]
pub enum FunctionArgumentType<T> {
    Buffer(KernelBufferAccess),
    Slice(T),
    Array { item: T, length: T },
    Scalar(T),
    Specialization(T),
}

/// An argument of a kernel function.
#[derive(Debug, PartialEq, Eq)]
pub struct FunctionArgument<T> {
    pub name: T,
    pub optional: bool,
    pub ty: FunctionArgumentType<T>,
}

impl DeepView for FunctionArgumentType<String> {
    type V = FunctionArgumentType<Seq<char>>;

    open spec fn deep_view(&self) -> FunctionArgumentType<Seq<char>> {
        match self {
            FunctionArgumentType::Buffer(access) => FunctionArgumentType::Buffer(*access),
            FunctionArgumentType::Slice(element) => FunctionArgumentType::Slice(element@),
            FunctionArgumentType::Array { item, length } => FunctionArgumentType::Array {
                item: item@,
                length: length@,
            },
            FunctionArgumentType::Scalar(scalar) => FunctionArgumentType::Scalar(scalar@),
            FunctionArgumentType::Specialization(special) => FunctionArgumentType::Specialization(
                special@,
            ),
        }
    }
}

impl DeepView for FunctionArgument<String> {
    type V = FunctionArgument<Seq<char>>;

    open spec fn deep_view(&self) -> FunctionArgument<Seq<char>> {
        FunctionArgument {
            name: self.name@,
            optional: self.optional,
            ty: self.ty.deep_view(),
        }
    }
}

/// What the attributes of a function say.
#[derive(Debug)]
pub struct KernelAttributes {
    pub kernel: Option<String>,
    pub variants: Vec<(String, Vec<String>)>,
    pub constraints: Vec<String>,
}

/// What [`KernelAttributes`] hold.
#[verifier::ext_equal]
pub ghost struct AttributesModel {
    pub kernel: Option<Seq<char>>,
    pub variants: Seq<(Seq<char>, Seq<Seq<char>>)>,
    pub constraints: Seq<Seq<char>>,
}

impl DeepView for KernelAttributes {
    type V = AttributesModel;

    open spec fn deep_view(&self) -> AttributesModel {
        AttributesModel {
            kernel: self.kernel.deep_view(),
            variants: self.variants.deep_view(),
            constraints: self.constraints.deep_view(),
        }
    }
}

/// A kernel function.
///
/// A parameter is its name, with its type where it is a constant. A variant list is the name of its
/// parameter with the values that the parameter may have.
#[derive(Debug)]
pub struct KernelFunction {
    pub kernel: String,
    pub function: String,
    pub parameters: Vec<(String, Option<String>)>,
    pub arguments: Vec<FunctionArgument<String>>,
    pub variants: Vec<(String, Vec<String>)>,
    pub constraints: Vec<String>,
}

/// What a [`KernelFunction`] holds.
#[verifier::ext_equal]
pub ghost struct FunctionModel {
    pub kernel: Seq<char>,
    pub function: Seq<char>,
    pub parameters: Seq<(Seq<char>, Option<Seq<char>>)>,
    pub arguments: Seq<FunctionArgument<Seq<char>>>,
    pub variants: Seq<(Seq<char>, Seq<Seq<char>>)>,
    pub constraints: Seq<Seq<char>>,
}

impl DeepView for KernelFunction {
    type V = FunctionModel;

    open spec fn deep_view(&self) -> FunctionModel {
        FunctionModel {
            kernel: self.kernel@,
            function: self.function@,
            parameters: self.parameters.deep_view(),
            arguments: self.arguments.deep_view(),
            variants: self.variants.deep_view(),
            constraints: self.constraints.deep_view(),
        }
    }
}

/// A result by its view.
pub open spec fn seen<T: DeepView>(result: Result<T, KernelError>) -> Result<T::V, KernelError> {
    match result {
        Ok(value) => Ok(value.deep_view()),
        Err(error) => Err(error),
    }
}

pub open spec fn no_attributes() -> AttributesModel {
    AttributesModel { kernel: None, variants: Seq::empty(), constraints: Seq::empty() }
}

/// What a `kernel` attribute adds, whose argument was read as an identifier.
pub open spec fn kernel_added(state: AttributesModel, identifier: Option<Seq<char>>) -> Result<
    AttributesModel,
    KernelError,
> {
    if state.kernel is Some {
        Err(KernelError::MultipleKernelAttributes)
    } else {
        match identifier {
            Some(kernel) => Ok(AttributesModel { kernel: Some(kernel), ..state }),
            None => Err(KernelError::KernelAttribute),
        }
    }
}

/// What a `variants` attribute adds, whose arguments were read as expressions, and the first of them
/// as an identifier: a name with values behind it.
pub open spec fn variants_added(
    state: AttributesModel,
    expressions: Option<Seq<Seq<char>>>,
    name: Option<Seq<char>>,
) -> Result<AttributesModel, KernelError> {
    match expressions {
        None => Err(KernelError::VariantsAttribute),
        Some(expressions) => if expressions.len() == 0 {
            Err(KernelError::MissingVariantName)
        } else {
            match name {
                None => Err(KernelError::VariantName),
                Some(name) => Ok(
                    AttributesModel {
                        variants: state.variants.push((name, expressions.skip(1))),
                        ..state
                    },
                ),
            }
        },
    }
}

/// What a `constraint` attribute adds, whose argument was read as an expression.
pub open spec fn constraint_added(state: AttributesModel, expression: Option<Seq<char>>) -> Result<
    AttributesModel,
    KernelError,
> {
    match expression {
        Some(constraint) => Ok(
            AttributesModel { constraints: state.constraints.push(constraint), ..state },
        ),
        None => Err(KernelError::ConstraintAttribute),
    }
}

/// The position of the first character from `from` on that is no space.
pub open spec fn behind_spaces(source: Seq<char>, from: int) -> int
    decreases source.len() - from,
{
    if 0 <= from < source.len() && source[from] == ' ' {
        behind_spaces(source, from + 1)
    } else {
        from
    }
}

/// An attribute as it stands before an item: one that stands inside of a function, `#![..]`, without
/// its exclamation mark.
pub open spec fn outer_form(attribute: Seq<char>) -> Seq<char> {
    let mark = behind_spaces(attribute, 1);
    if attribute.len() > 0 && attribute[0] == '#' && mark < attribute.len() && attribute[mark] == '!' {
        seq!['#'] + attribute.skip(mark + 1)
    } else {
        attribute
    }
}

/// Writes an attribute as it stands before an item.
fn to_outer_form(attribute: &str) -> (outer: String)
    ensures
        outer@ == outer_form(attribute@),
{
    let letters: Vec<char> = text::characters(attribute);
    if letters.len() == 0 || letters[0] != '#' {
        return text::copy_str(attribute);
    }
    let mut mark: usize = 1;
    while mark < letters.len() && letters[mark] == ' '
        invariant
            1 <= mark <= letters@.len(),
            behind_spaces(letters@, mark as int) == behind_spaces(letters@, 1),
        decreases letters@.len() - mark,
    {
        mark += 1;
    }
    if mark == letters.len() || letters[mark] != '!' {
        return text::copy_str(attribute);
    }
    let rest: &str = attribute.substring_char(mark + 1, letters.len());
    proof {
        reveal_strlit("#");
    }
    let mut outer: String = text::copy_str("#");
    text::push_str(&mut outer, rest);
    assert(outer@ =~= outer_form(attribute@));
    outer
}

/// What one more attribute adds.
pub open spec fn attribute_added(state: AttributesModel, attribute: Seq<char>) -> Result<
    AttributesModel,
    KernelError,
> {
    match rust_source::attribute_parts(outer_form(attribute)) {
        Some((Some(name), arguments)) => if name == "kernel"@ {
            kernel_added(state, parsed_identifier(arguments))
        } else if name == "variants"@ {
            let expressions = parsed_expressions(arguments);
            variants_added(state, expressions, first_identifier(expressions))
        } else if name == "constraint"@ {
            constraint_added(state, parsed_expression(arguments))
        } else {
            Ok(state)
        },
        _ => Ok(state),
    }
}

/// The arguments of an attribute as expressions.
pub open spec fn parsed_expressions(arguments: Option<Seq<char>>) -> Option<Seq<Seq<char>>> {
    match arguments {
        Some(arguments) => rust_source::expressions(arguments),
        None => None,
    }
}

/// The identifier that the first of the expressions consists of.
pub open spec fn first_identifier(expressions: Option<Seq<Seq<char>>>) -> Option<Seq<char>> {
    match expressions {
        Some(expressions) => if expressions.len() == 0 {
            None
        } else {
            rust_source::expression_identifier(expressions[0])
        },
        None => None,
    }
}

/// The arguments of an attribute as an identifier.
pub open spec fn parsed_identifier(arguments: Option<Seq<char>>) -> Option<Seq<char>> {
    match arguments {
        Some(arguments) => rust_source::identifier(arguments),
        None => None,
    }
}

/// The arguments of an attribute as an expression.
pub open spec fn parsed_expression(arguments: Option<Seq<char>>) -> Option<Seq<char>> {
    match arguments {
        Some(arguments) => rust_source::expression(arguments),
        None => None,
    }
}

/// What the first `count` attributes say.
pub open spec fn attributes_of(attributes: Seq<Seq<char>>, count: int) -> Result<
    AttributesModel,
    KernelError,
>
    decreases count,
{
    if count <= 0 {
        Ok(no_attributes())
    } else {
        match attributes_of(attributes, count - 1) {
            Ok(state) => attribute_added(state, attributes[count - 1]),
            Err(error) => Err(error),
        }
    }
}

proof fn lemma_first_error_stands(attributes: Seq<Seq<char>>, count: int, total: int)
    requires
        0 <= count <= total,
        attributes_of(attributes, count) is Err,
    ensures
        attributes_of(attributes, total) == attributes_of(attributes, count),
    decreases total - count,
{
    if count < total {
        lemma_first_error_stands(attributes, count, total - 1);
    }
}

fn read_optional_identifier(arguments: &Option<String>) -> (identifier: Option<String>)
    ensures
        identifier.deep_view() == parsed_identifier(arguments.deep_view()),
{
    match arguments {
        Some(arguments) => rust_source::read_identifier(arguments.as_str()),
        None => None,
    }
}

fn read_optional_expression(arguments: &Option<String>) -> (expression: Option<String>)
    ensures
        expression.deep_view() == parsed_expression(arguments.deep_view()),
{
    match arguments {
        Some(arguments) => rust_source::read_expression(arguments.as_str()),
        None => None,
    }
}

fn read_optional_expressions(arguments: &Option<String>) -> (expressions: Option<Vec<String>>)
    ensures
        expressions.deep_view() == parsed_expressions(arguments.deep_view()),
{
    match arguments {
        Some(arguments) => rust_source::read_expressions(arguments.as_str()),
        None => None,
    }
}

fn read_first_identifier(expressions: &Option<Vec<String>>) -> (name: Option<String>)
    ensures
        name.deep_view() == first_identifier(expressions.deep_view()),
{
    match expressions {
        Some(expressions) => {
            assert(expressions.deep_view().len() == expressions@.len());
            if expressions.len() == 0 {
                return None;
            }
            assert(expressions.deep_view()[0] == expressions@[0]@);
            rust_source::read_expression_identifier(expressions[0].as_str())
        },
        None => None,
    }
}

/// `outcome` is what became of the state: its new value, or the error.
pub open spec fn is_added(
    expected: Result<AttributesModel, KernelError>,
    outcome: Result<(), KernelError>,
    state: AttributesModel,
) -> bool {
    match outcome {
        Ok(()) => expected == Ok::<AttributesModel, KernelError>(state),
        Err(error) => expected == Err::<AttributesModel, KernelError>(error),
    }
}

/// Adds a `kernel` attribute, whose argument was read as an identifier.
pub fn add_kernel(state: &mut KernelAttributes, identifier: Option<String>) -> (added: Result<
    (),
    KernelError,
>)
    ensures
        is_added(
            kernel_added(old(state).deep_view(), identifier.deep_view()),
            added,
            final(state).deep_view(),
        ),
{
    let ghost before = state.deep_view();
    if state.kernel.is_some() {
        return Err(KernelError::MultipleKernelAttributes);
    }
    match identifier {
        Some(kernel) => {
            state.kernel = Some(kernel);
            assert(state.deep_view() =~= (AttributesModel { kernel: Some(kernel@), ..before }));
            Ok(())
        },
        None => Err(KernelError::KernelAttribute),
    }
}

/// Adds a `variants` attribute, whose arguments were read as expressions, and the first of them as
/// an identifier.
pub fn add_variants(
    state: &mut KernelAttributes,
    expressions: Option<Vec<String>>,
    name: Option<String>,
) -> (added: Result<(), KernelError>)
    ensures
        is_added(
            variants_added(old(state).deep_view(), expressions.deep_view(), name.deep_view()),
            added,
            final(state).deep_view(),
        ),
{
    let ghost before = state.deep_view();
    let mut expressions: Vec<String> = match expressions {
        Some(expressions) => expressions,
        None => {
            return Err(KernelError::VariantsAttribute);
        },
    };
    let ghost all = expressions.deep_view();
    assert(all.len() == expressions@.len());
    if expressions.len() == 0 {
        return Err(KernelError::MissingVariantName);
    }
    match name {
        Some(name) => {
            expressions.remove(0);
            assert(expressions.deep_view() =~= all.skip(1));
            state.variants.push((name, expressions));
            assert(state.deep_view() =~= (AttributesModel {
                variants: before.variants.push((name@, all.skip(1))),
                ..before
            }));
            Ok(())
        },
        None => Err(KernelError::VariantName),
    }
}

/// Adds a `constraint` attribute, whose argument was read as an expression.
pub fn add_constraint(state: &mut KernelAttributes, expression: Option<String>) -> (added: Result<
    (),
    KernelError,
>)
    ensures
        is_added(
            constraint_added(old(state).deep_view(), expression.deep_view()),
            added,
            final(state).deep_view(),
        ),
{
    let ghost before = state.deep_view();
    match expression {
        Some(constraint) => {
            let ghost added = constraint@;
            state.constraints.push(constraint);
            assert(state.deep_view() =~= (AttributesModel {
                constraints: before.constraints.push(added),
                ..before
            }));
            Ok(())
        },
        None => Err(KernelError::ConstraintAttribute),
    }
}

fn add_attribute(state: &mut KernelAttributes, attribute: &str) -> (added: Result<(), KernelError>)
    ensures
        is_added(
            attribute_added(old(state).deep_view(), attribute@),
            added,
            final(state).deep_view(),
        ),
{
    let attribute: String = to_outer_form(attribute);
    let parts: Option<(Option<String>, Option<String>)> = rust_source::read_attribute(
        attribute.as_str(),
    );
    let (name, arguments): (String, Option<String>) = match parts {
        Some((Some(name), arguments)) => (name, arguments),
        _ => {
            return Ok(());
        },
    };
    if text::is_same(name.as_str(), "kernel") {
        add_kernel(state, read_optional_identifier(&arguments))
    } else if text::is_same(name.as_str(), "variants") {
        let expressions: Option<Vec<String>> = read_optional_expressions(&arguments);
        let first: Option<String> = read_first_identifier(&expressions);
        add_variants(state, expressions, first)
    } else if text::is_same(name.as_str(), "constraint") {
        add_constraint(state, read_optional_expression(&arguments))
    } else {
        Ok(())
    }
}

/// What the attributes of a function say.
pub fn read_attributes(attributes: &[String]) -> (read: Result<KernelAttributes, KernelError>)
    ensures
        seen(read) == attributes_of(attributes.deep_view(), attributes@.len() as int),
{
    let mut state = KernelAttributes { kernel: None, variants: Vec::new(), constraints: Vec::new() };
    assert(state.deep_view() =~= no_attributes());
    let mut i: usize = 0;
    while i < attributes.len()
        invariant
            i <= attributes@.len(),
            attributes_of(attributes.deep_view(), i as int) == Ok::<AttributesModel, KernelError>(
                state.deep_view(),
            ),
        decreases attributes@.len() - i,
    {
        let ghost before = state.deep_view();
        assert(attributes.deep_view()[i as int] == attributes@[i as int]@);
        match add_attribute(&mut state, attributes[i].as_str()) {
            Ok(()) => {},
            Err(error) => {
                proof {
                    lemma_first_error_stands(
                        attributes.deep_view(),
                        i + 1,
                        attributes@.len() as int,
                    );
                }
                return Err(error);
            },
        }
        i += 1;
    }
    Ok(state)
}

/// The first `count` parameters.
pub open spec fn parameters_of(parameters: Seq<Seq<char>>, count: int) -> Result<
    Seq<(Seq<char>, Option<Seq<char>>)>,
    KernelError,
>
    decreases count,
{
    if count <= 0 {
        Ok(Seq::empty())
    } else {
        match parameters_of(parameters, count - 1) {
            Ok(before) => match rust_source::generic_parameter(parameters[count - 1]) {
                Some(parameter) => Ok(before.push(parameter)),
                None => Err(KernelError::UnsupportedParameter),
            },
            Err(error) => Err(error),
        }
    }
}

proof fn lemma_unsupported_parameter_stands(parameters: Seq<Seq<char>>, count: int, total: int)
    requires
        0 <= count <= total,
        parameters_of(parameters, count) is Err,
    ensures
        parameters_of(parameters, total) == parameters_of(parameters, count),
    decreases total - count,
{
    if count < total {
        lemma_unsupported_parameter_stands(parameters, count, total - 1);
    }
}

/// The generic parameters of a function.
pub fn read_parameters(parameters: &[String]) -> (read: Result<
    Vec<(String, Option<String>)>,
    KernelError,
>)
    ensures
        seen(read) == parameters_of(parameters.deep_view(), parameters@.len() as int),
{
    let mut read: Vec<(String, Option<String>)> = Vec::new();
    assert(read.deep_view() =~= Seq::empty());
    let mut i: usize = 0;
    while i < parameters.len()
        invariant
            i <= parameters@.len(),
            parameters_of(parameters.deep_view(), i as int) == Ok::<
                Seq<(Seq<char>, Option<Seq<char>>)>,
                KernelError,
            >(read.deep_view()),
        decreases parameters@.len() - i,
    {
        let ghost before = read.deep_view();
        assert(parameters.deep_view()[i as int] == parameters@[i as int]@);
        match rust_source::read_generic_parameter(parameters[i].as_str()) {
            Some(parameter) => {
                let ghost added = parameter.deep_view();
                read.push(parameter);
                assert(read.deep_view() =~= before.push(added));
            },
            None => {
                proof {
                    lemma_unsupported_parameter_stands(
                        parameters.deep_view(),
                        i + 1,
                        parameters@.len() as int,
                    );
                }
                return Err(KernelError::UnsupportedParameter);
            },
        }
        i += 1;
    }
    Ok(read)
}

/// The arguments of the first attribute from `from` on that has the name.
pub open spec fn find_attribute(attributes: Seq<Seq<char>>, name: Seq<char>, from: int) -> Option<
    Option<Seq<char>>,
>
    decreases attributes.len() - from,
{
    if from >= attributes.len() {
        None
    } else {
        match rust_source::attribute_parts(outer_form(attributes[from])) {
            Some((Some(found), arguments)) => if found == name {
                Some(arguments)
            } else {
                find_attribute(attributes, name, from + 1)
            },
            _ => find_attribute(attributes, name, from + 1),
        }
    }
}

pub(crate) fn find_named_attribute(attributes: &[String], name: &str) -> (found: Option<Option<String>>)
    ensures
        found.deep_view() == find_attribute(attributes.deep_view(), name@, 0),
{
    let mut i: usize = 0;
    while i < attributes.len()
        invariant
            i <= attributes@.len(),
            find_attribute(attributes.deep_view(), name@, 0) == find_attribute(
                attributes.deep_view(),
                name@,
                i as int,
            ),
        decreases attributes@.len() - i,
    {
        assert(attributes.deep_view()[i as int] == attributes@[i as int]@);
        let attribute: String = to_outer_form(attributes[i].as_str());
        if let Some((Some(found), arguments)) = rust_source::read_attribute(attribute.as_str()) {
            if text::is_same(found.as_str(), name) {
                return Some(arguments);
            }
        }
        i += 1;
    }
    None
}

/// What a type of the given shape is as an argument; `target` is the shape of what it refers to.
pub open spec fn type_from_shapes(
    shape: Option<TypeShape<Seq<char>>>,
    target: Option<TypeShape<Seq<char>>>,
    type_text: Seq<char>,
) -> Result<FunctionArgumentType<Seq<char>>, KernelError> {
    match shape {
        Some(TypeShape::Pointer { mutable }) => Ok(
            FunctionArgumentType::Buffer(
                if mutable {
                    KernelBufferAccess::ReadWrite
                } else {
                    KernelBufferAccess::Read
                },
            ),
        ),
        Some(TypeShape::Reference { .. }) => match target {
            Some(TypeShape::Slice { element }) => Ok(FunctionArgumentType::Slice(element)),
            Some(TypeShape::Array { item, length }) => Ok(
                FunctionArgumentType::Array { item, length },
            ),
            _ => Err(KernelError::UnsupportedReference),
        },
        Some(TypeShape::Path) => Ok(FunctionArgumentType::Scalar(type_text)),
        _ => Err(KernelError::UnsupportedType),
    }
}

/// What a type is as an argument.
pub open spec fn argument_type(type_text: Seq<char>) -> Result<
    FunctionArgumentType<Seq<char>>,
    KernelError,
> {
    let shape = rust_source::type_shape(type_text);
    type_from_shapes(
        shape,
        match shape {
            Some(TypeShape::Reference { target }) => rust_source::type_shape(target),
            _ => None,
        },
        type_text,
    )
}

/// What a type of the given shape is as an argument; `target` is the shape of what it refers to.
pub fn classify_type(
    shape: Option<TypeShape<String>>,
    target: Option<TypeShape<String>>,
    type_text: &str,
) -> (parsed: Result<FunctionArgumentType<String>, KernelError>)
    ensures
        seen(parsed) == type_from_shapes(shape.deep_view(), target.deep_view(), type_text@),
{
    match shape {
        Some(TypeShape::Pointer { mutable }) => Ok(
            FunctionArgumentType::Buffer(
                if mutable {
                    KernelBufferAccess::ReadWrite
                } else {
                    KernelBufferAccess::Read
                },
            ),
        ),
        Some(TypeShape::Reference { .. }) => match target {
            Some(TypeShape::Slice { element }) => Ok(FunctionArgumentType::Slice(element)),
            Some(TypeShape::Array { item, length }) => Ok(
                FunctionArgumentType::Array { item, length },
            ),
            _ => Err(KernelError::UnsupportedReference),
        },
        Some(TypeShape::Path) => Ok(FunctionArgumentType::Scalar(text::copy_str(type_text))),
        _ => Err(KernelError::UnsupportedType),
    }
}

/// What a type is as an argument.
pub fn parse_type(type_text: &str) -> (parsed: Result<FunctionArgumentType<String>, KernelError>)
    ensures
        seen(parsed) == argument_type(type_text@),
{
    let shape: Option<TypeShape<String>> = rust_source::read_type_shape(type_text);
    let target: Option<TypeShape<String>> = match &shape {
        Some(TypeShape::Reference { target }) => rust_source::read_type_shape(target.as_str()),
        _ => None,
    };
    classify_type(shape, target, type_text)
}

/// The type inside an `Option`, by the segments of its path.
pub open spec fn option_argument(
    segments: Seq<(Seq<char>, Option<Seq<(bool, Seq<char>)>>)>,
) -> Result<Seq<char>, KernelError> {
    if segments.len() != 1 {
        Err(KernelError::ConditionalSegments)
    } else if segments[0].0 != "Option"@ {
        Err(KernelError::ConditionalOption)
    } else {
        match segments[0].1 {
            None => Err(KernelError::ConditionalBrackets),
            Some(arguments) => if arguments.len() != 1 {
                Err(KernelError::ConditionalArguments)
            } else if !arguments[0].0 {
                Err(KernelError::ConditionalType)
            } else {
                Ok(arguments[0].1)
            },
        }
    }
}

/// The type inside an `Option`, by the segments of its path.
pub fn unwrap_option(segments: &[(String, Option<Vec<(bool, String)>>)]) -> (inner: Result<
    String,
    KernelError,
>)
    ensures
        seen(inner) == option_argument(segments.deep_view()),
{
    assert(segments.deep_view().len() == segments@.len());
    if segments.len() != 1 {
        return Err(KernelError::ConditionalSegments);
    }
    assert(segments.deep_view()[0] == segments@[0].deep_view());
    if !text::is_same(segments[0].0.as_str(), "Option") {
        return Err(KernelError::ConditionalOption);
    }
    match &segments[0].1 {
        Some(arguments) => {
            assert(arguments.deep_view().len() == arguments@.len());
            if arguments.len() != 1 {
                return Err(KernelError::ConditionalArguments);
            }
            assert(arguments.deep_view()[0] == arguments@[0].deep_view());
            if !arguments[0].0 {
                return Err(KernelError::ConditionalType);
            }
            Ok(text::copy_str(arguments[0].1.as_str()))
        },
        None => Err(KernelError::ConditionalBrackets),
    }
}

/// The type inside the `Option` of a conditional argument.
pub open spec fn conditional_type(type_text: Seq<char>) -> Result<Seq<char>, KernelError> {
    match rust_source::type_shape(type_text) {
        Some(TypeShape::Path) => match rust_source::path_segments(type_text) {
            None => Err(KernelError::ConditionalPath),
            Some(segments) => option_argument(segments),
        },
        _ => Err(KernelError::ConditionalPath),
    }
}

fn read_conditional_type(type_text: &str) -> (inner: Result<String, KernelError>)
    ensures
        seen(inner) == conditional_type(type_text@),
{
    match rust_source::read_type_shape(type_text) {
        Some(TypeShape::Path) => match rust_source::read_path_segments(type_text) {
            Some(segments) => unwrap_option(&segments),
            None => Err(KernelError::ConditionalPath),
        },
        _ => Err(KernelError::ConditionalPath),
    }
}

/// What an argument is by its parts: what its pattern binds; whether its condition can be read,
/// where it has one; whether it is a specialization; its type, and what that is as an argument.
pub open spec fn argument_from(
    binding: Option<(Seq<char>, bool, bool, bool)>,
    condition: Option<bool>,
    specialized: bool,
    type_text: Seq<char>,
    ty: Result<FunctionArgumentType<Seq<char>>, KernelError>,
) -> Result<FunctionArgument<Seq<char>>, KernelError> {
    match binding {
        None => Err(KernelError::ArgumentPattern),
        Some((name, by_reference, mutable, with_pattern)) => if by_reference || mutable
            || with_pattern {
            Err(KernelError::ArgumentBinding)
        } else if condition == Some(false) {
            Err(KernelError::OptionalAttribute)
        } else if specialized {
            Ok(
                FunctionArgument {
                    name,
                    optional: condition is Some,
                    ty: FunctionArgumentType::Specialization(type_text),
                },
            )
        } else {
            match ty {
                Err(error) => Err(error),
                Ok(ty) => Ok(FunctionArgument { name, optional: condition is Some, ty }),
            }
        },
    }
}

/// What an argument is by its parts: what its pattern binds; whether its condition can be read,
/// where it has one; whether it is a specialization; its type, and what that is as an argument.
pub fn assemble_argument(
    binding: Option<(String, bool, bool, bool)>,
    condition: Option<bool>,
    specialized: bool,
    type_text: String,
    ty: Result<FunctionArgumentType<String>, KernelError>,
) -> (argument: Result<FunctionArgument<String>, KernelError>)
    ensures
        seen(argument) == argument_from(
            binding.deep_view(),
            condition,
            specialized,
            type_text@,
            seen(ty),
        ),
{
    let (name, by_reference, mutable, with_pattern): (String, bool, bool, bool) = match binding {
        Some(parts) => parts,
        None => {
            return Err(KernelError::ArgumentPattern);
        },
    };
    if by_reference || mutable || with_pattern {
        return Err(KernelError::ArgumentBinding);
    }
    let optional: bool = match condition {
        Some(readable) => {
            if !readable {
                return Err(KernelError::OptionalAttribute);
            }
            true
        },
        None => false,
    };
    if specialized {
        return Ok(
            FunctionArgument { name, optional, ty: FunctionArgumentType::Specialization(type_text) },
        );
    }
    match ty {
        Ok(ty) => Ok(FunctionArgument { name, optional, ty }),
        Err(error) => Err(error),
    }
}

/// Whether the condition of an argument can be read, where it has one.
pub open spec fn condition_of(attributes: Seq<Seq<char>>) -> Option<bool> {
    match find_attribute(attributes, "optional"@, 0) {
        Some(condition) => Some(parsed_expression(condition) is Some),
        None => None,
    }
}

fn read_condition(attributes: &[String]) -> (condition: Option<bool>)
    ensures
        condition == condition_of(attributes.deep_view()),
{
    match find_named_attribute(attributes, "optional") {
        Some(condition) => Some(read_optional_expression(&condition).is_some()),
        None => None,
    }
}

/// What the type of an argument is, behind the `Option` where the argument is conditional.
pub open spec fn type_behind_condition(conditional: bool, type_text: Seq<char>) -> Result<
    FunctionArgumentType<Seq<char>>,
    KernelError,
> {
    if conditional {
        match conditional_type(type_text) {
            Err(error) => Err(error),
            Ok(inner) => argument_type(inner),
        }
    } else {
        argument_type(type_text)
    }
}

fn read_type_behind_condition(conditional: bool, type_text: &str) -> (ty: Result<
    FunctionArgumentType<String>,
    KernelError,
>)
    ensures
        seen(ty) == type_behind_condition(conditional, type_text@),
{
    if conditional {
        match read_conditional_type(type_text) {
            Ok(inner) => parse_type(inner.as_str()),
            Err(error) => Err(error),
        }
    } else {
        parse_type(type_text)
    }
}

/// An argument of a function.
pub open spec fn argument_of(argument: Seq<char>) -> Result<
    FunctionArgument<Seq<char>>,
    KernelError,
> {
    match rust_source::argument_parts(argument) {
        None => Err(KernelError::SelfArgument),
        Some((attributes, pattern, type_text)) => argument_from(
            rust_source::identifier_pattern(pattern),
            condition_of(attributes),
            find_attribute(attributes, "specialize"@, 0) is Some,
            type_text,
            type_behind_condition(condition_of(attributes) is Some, type_text),
        ),
    }
}

/// Reads an argument of a function.
pub fn read_argument(argument: &str) -> (read: Result<FunctionArgument<String>, KernelError>)
    ensures
        seen(read) == argument_of(argument@),
{
    let (attributes, pattern, type_text): (Vec<String>, String, String) =
        match rust_source::read_argument(argument) {
        Some(parts) => parts,
        None => {
            return Err(KernelError::SelfArgument);
        },
    };
    let binding: Option<(String, bool, bool, bool)> = rust_source::read_pattern(pattern.as_str());
    let condition: Option<bool> = read_condition(&attributes);
    let specialized: bool = find_named_attribute(&attributes, "specialize").is_some();
    let ty: Result<FunctionArgumentType<String>, KernelError> = read_type_behind_condition(
        condition.is_some(),
        type_text.as_str(),
    );
    assemble_argument(binding, condition, specialized, type_text, ty)
}

/// The first `count` arguments.
pub open spec fn arguments_of(arguments: Seq<Seq<char>>, count: int) -> Result<
    Seq<FunctionArgument<Seq<char>>>,
    KernelError,
>
    decreases count,
{
    if count <= 0 {
        Ok(Seq::empty())
    } else {
        match arguments_of(arguments, count - 1) {
            Ok(before) => match argument_of(arguments[count - 1]) {
                Ok(argument) => Ok(before.push(argument)),
                Err(error) => Err(error),
            },
            Err(error) => Err(error),
        }
    }
}

proof fn lemma_refused_argument_stands(arguments: Seq<Seq<char>>, count: int, total: int)
    requires
        0 <= count <= total,
        arguments_of(arguments, count) is Err,
    ensures
        arguments_of(arguments, total) == arguments_of(arguments, count),
    decreases total - count,
{
    if count < total {
        lemma_refused_argument_stands(arguments, count, total - 1);
    }
}

/// The arguments of a function.
pub fn read_arguments(arguments: &[String]) -> (read: Result<
    Vec<FunctionArgument<String>>,
    KernelError,
>)
    ensures
        seen(read) == arguments_of(arguments.deep_view(), arguments@.len() as int),
{
    let mut read: Vec<FunctionArgument<String>> = Vec::new();
    assert(read.deep_view() =~= Seq::empty());
    let mut i: usize = 0;
    while i < arguments.len()
        invariant
            i <= arguments@.len(),
            arguments_of(arguments.deep_view(), i as int) == Ok::<
                Seq<FunctionArgument<Seq<char>>>,
                KernelError,
            >(read.deep_view()),
        decreases arguments@.len() - i,
    {
        let ghost before = read.deep_view();
        assert(arguments.deep_view()[i as int] == arguments@[i as int]@);
        match read_argument(arguments[i].as_str()) {
            Ok(argument) => {
                let ghost added = argument.deep_view();
                read.push(argument);
                assert(read.deep_view() =~= before.push(added));
            },
            Err(error) => {
                proof {
                    lemma_refused_argument_stands(
                        arguments.deep_view(),
                        i + 1,
                        arguments@.len() as int,
                    );
                }
                return Err(error);
            },
        }
        i += 1;
    }
    Ok(read)
}

/// The first parameter from `from` on whose variants have another name.
pub open spec fn mismatch_from(
    parameters: Seq<(Seq<char>, Option<Seq<char>>)>,
    variants: Seq<(Seq<char>, Seq<Seq<char>>)>,
    from: int,
) -> Option<int>
    decreases parameters.len() - from,
{
    if from >= parameters.len() {
        None
    } else if parameters[from].0 != variants[from].0 {
        Some(from)
    } else {
        mismatch_from(parameters, variants, from + 1)
    }
}

/// A kernel function by its parts: what its attributes say, its name, its parameters and its
/// arguments. The first part that cannot be read is the error.
pub open spec fn function_from(
    attributes: Result<AttributesModel, KernelError>,
    name: Seq<char>,
    parameters: Result<Seq<(Seq<char>, Option<Seq<char>>)>, KernelError>,
    arguments: Result<Seq<FunctionArgument<Seq<char>>>, KernelError>,
) -> Result<FunctionModel, KernelError> {
    match (attributes, parameters, arguments) {
        (Err(error), _, _) => Err(error),
        (Ok(attributes), parameters, arguments) => match (attributes.kernel, parameters, arguments) {
            (None, _, _) => Err(KernelError::NotAKernel),
            (_, Err(error), _) => Err(error),
            (_, _, Err(error)) => Err(error),
            (Some(kernel), Ok(parameters), Ok(arguments)) => if parameters.len()
                != attributes.variants.len() {
                Err(
                    KernelError::VariantCount {
                        parameters: parameters.len() as usize,
                        variants: attributes.variants.len() as usize,
                    },
                )
            } else {
                match mismatch_from(parameters, attributes.variants, 0) {
                    Some(index) => Err(KernelError::VariantMismatch { index: index as usize }),
                    None => Ok(
                        FunctionModel {
                            kernel,
                            function: name,
                            parameters,
                            arguments,
                            variants: attributes.variants,
                            constraints: attributes.constraints,
                        },
                    ),
                }
            },
        },
    }
}

/// The kernel function of which `function` is the text.
pub open spec fn function_of(function: Seq<char>) -> Result<FunctionModel, KernelError> {
    match rust_source::function_parts(function) {
        None => Err(KernelError::NotAFunction),
        Some((attributes, name, parameters, arguments)) => function_from(
            attributes_of(attributes, attributes.len() as int),
            name,
            parameters_of(parameters, parameters.len() as int),
            arguments_of(arguments, arguments.len() as int),
        ),
    }
}

fn find_mismatch(parameters: &[(String, Option<String>)], variants: &[(String, Vec<String>)]) -> (
found: Option<usize>)
    requires
        parameters@.len() == variants@.len(),
    ensures
        match found {
            Some(index) => mismatch_from(parameters.deep_view(), variants.deep_view(), 0) == Some(
                index as int,
            ),
            None => mismatch_from(parameters.deep_view(), variants.deep_view(), 0) is None,
        },
{
    let mut i: usize = 0;
    while i < parameters.len()
        invariant
            i <= parameters@.len(),
            parameters@.len() == variants@.len(),
            mismatch_from(parameters.deep_view(), variants.deep_view(), 0) == mismatch_from(
                parameters.deep_view(),
                variants.deep_view(),
                i as int,
            ),
        decreases parameters@.len() - i,
    {
        assert(parameters.deep_view()[i as int] == parameters@[i as int].deep_view());
        assert(variants.deep_view()[i as int] == variants@[i as int].deep_view());
        if !text::is_same(parameters[i].0.as_str(), variants[i].0.as_str()) {
            return Some(i);
        }
        i += 1;
    }
    None
}

/// A kernel function by its parts: what its attributes say, its name, its parameters and its
/// arguments. The first part that cannot be read is the error.
pub fn assemble_function(
    attributes: Result<KernelAttributes, KernelError>,
    name: String,
    parameters: Result<Vec<(String, Option<String>)>, KernelError>,
    arguments: Result<Vec<FunctionArgument<String>>, KernelError>,
) -> (function: Result<KernelFunction, KernelError>)
    ensures
        seen(function) == function_from(
            seen(attributes),
            name@,
            seen(parameters),
            seen(arguments),
        ),
{
    let attributes: KernelAttributes = match attributes {
        Ok(attributes) => attributes,
        Err(error) => {
            return Err(error);
        },
    };
    let KernelAttributes { kernel, variants, constraints } = attributes;
    let kernel: String = match kernel {
        Some(kernel) => kernel,
        None => {
            return Err(KernelError::NotAKernel);
        },
    };
    let parameters: Vec<(String, Option<String>)> = match parameters {
        Ok(parameters) => parameters,
        Err(error) => {
            return Err(error);
        },
    };
    let arguments: Vec<FunctionArgument<String>> = match arguments {
        Ok(arguments) => arguments,
        Err(error) => {
            return Err(error);
        },
    };
    assert(parameters.deep_view().len() == parameters@.len());
    assert(variants.deep_view().len() == variants@.len());
    if parameters.len() != variants.len() {
        return Err(
            KernelError::VariantCount { parameters: parameters.len(), variants: variants.len() },
        );
    }
    match find_mismatch(&parameters, &variants) {
        Some(index) => Err(KernelError::VariantMismatch { index }),
        None => Ok(
            KernelFunction { kernel, function: name, parameters, arguments, variants, constraints },
        ),
    }
}

/// Reads a kernel function.
pub fn read_kernel_function(function: &str) -> (read: Result<KernelFunction, KernelError>)
    ensures
        seen(read) == function_of(function@),
{
    match rust_source::read_function(function) {
        Some((attributes, name, parameters, arguments)) => assemble_function(
            read_attributes(&attributes),
            name,
            read_parameters(&parameters),
            read_arguments(&arguments),
        ),
        None => Err(KernelError::NotAFunction),
    }
}

/// A function is a kernel by one attribute, whose argument is its name; further ones are refused.
pub proof fn law_kernels_are_named_once(
    state: &mut KernelAttributes,
    identifier: Option<String>,
    added: Result<(), KernelError>,
)
    requires
        call_ensures(add_kernel, (state, identifier), added),
    ensures
        added is Ok <==> old(state).deep_view().kernel is None && identifier is Some,
        added is Ok ==> (identifier matches Some(name) && final(state).deep_view().kernel == Some(name@)),
        added is Ok ==> final(state).deep_view().variants == old(state).deep_view().variants,
        added is Ok ==> final(state).deep_view().constraints == old(state).deep_view().constraints,
        old(state).deep_view().kernel is Some ==> added == Err::<(), KernelError>(
            KernelError::MultipleKernelAttributes,
        ),
{
    if let Some(name) = identifier {
        assert(identifier.deep_view() == Some(name@));
    }
}

/// The first expression of `variants` is the name of the parameter, and those behind it are its values.
pub proof fn law_values_stand_behind_their_parameter(
    state: &mut KernelAttributes,
    expressions: Option<Vec<String>>,
    name: Option<String>,
    added: Result<(), KernelError>,
    at: int,
)
    requires
        call_ensures(add_variants, (state, expressions, name), added),
    ensures
        added is Ok <==> name is Some && (expressions matches Some(expressions) && expressions@.len() > 0),
        added is Ok ==> {
            let before = old(state).deep_view().variants;
            let after = final(state).deep_view().variants;
            &&& after.len() == before.len() + 1
            &&& after.drop_last() == before
            &&& name matches Some(name) && after.last().0 == name@
            &&& expressions matches Some(expressions) && after.last().1.len() + 1 == expressions@.len() && (
            0 <= at < after.last().1.len() ==> after.last().1[at] == expressions.deep_view()[at + 1])
        },
        added is Ok ==> final(state).deep_view().kernel == old(state).deep_view().kernel,
        added is Ok ==> final(state).deep_view().constraints == old(state).deep_view().constraints,
{
    if let Some(name) = name {
        assert(Some(name).deep_view() == Some(name@));
    }
    if let Some(expressions) = expressions {
        assert(Some(expressions).deep_view() == Some(expressions.deep_view()));
        assert(expressions.deep_view().len() == expressions@.len());
    }
    if added is Ok {
        assert(final(state).deep_view().variants.drop_last() =~= old(state).deep_view().variants);
    }
}

/// Constraints are kept in their order.
pub proof fn law_constraints_are_kept_in_order(
    state: &mut KernelAttributes,
    expression: Option<String>,
    added: Result<(), KernelError>,
)
    requires
        call_ensures(add_constraint, (state, expression), added),
    ensures
        added is Ok <==> expression is Some,
        added is Ok ==> {
            let before = old(state).deep_view().constraints;
            let after = final(state).deep_view().constraints;
            &&& after.len() == before.len() + 1
            &&& after.drop_last() == before
            &&& expression matches Some(expression) && after.last() == expression@
        },
        added is Ok ==> final(state).deep_view().kernel == old(state).deep_view().kernel,
        added is Ok ==> final(state).deep_view().variants == old(state).deep_view().variants,
{
    if let Some(expression) = expression {
        assert(Some(expression).deep_view() == Some(expression@));
    }
    if added is Ok {
        assert(final(state).deep_view().constraints.drop_last() =~= old(
            state,
        ).deep_view().constraints);
    }
}

proof fn lemma_parameters_of(parameters: Seq<Seq<char>>, count: int, at: int)
    requires
        0 <= count <= parameters.len(),
    ensures
        parameters_of(parameters, count) matches Ok(read) ==> read.len() == count && (0 <= at < count
            ==> rust_source::generic_parameter(parameters[at]) == Some(read[at])),
        parameters_of(parameters, count) is Err ==> exists|i: int|
            0 <= i < count && rust_source::generic_parameter(#[trigger] parameters[i]) is None,
    decreases count,
{
    if count > 0 {
        lemma_parameters_of(parameters, count - 1, at);
    }
}

/// Every generic parameter is read, in its place; a function with one that cannot be is refused.
pub proof fn law_parameters_are_read_in_order(
    parameters: &[String],
    read: Result<Vec<(String, Option<String>)>, KernelError>,
    at: int,
)
    requires
        call_ensures(read_parameters, (parameters,), read),
    ensures
        read matches Ok(read) ==> read@.len() == parameters@.len() && (0 <= at < parameters@.len()
            ==> rust_source::generic_parameter(parameters.deep_view()[at]) == Some(
            read.deep_view()[at],
        )),
        read is Err <==> exists|i: int|
            0 <= i < parameters@.len() && rust_source::generic_parameter(
                #[trigger] parameters.deep_view()[i],
            ) is None,
{
    let deep = parameters.deep_view();
    assert(deep.len() == parameters@.len());
    lemma_parameters_of(deep, deep.len() as int, at);
    if let Ok(found) = read {
        assert(found.deep_view().len() == found@.len());
        assert forall|i: int| 0 <= i < deep.len() implies rust_source::generic_parameter(
            #[trigger] deep[i],
        ) is Some by {
            lemma_parameters_of(deep, deep.len() as int, i);
        }
    }
}

proof fn lemma_arguments_of(arguments: Seq<Seq<char>>, count: int, at: int)
    requires
        0 <= count <= arguments.len(),
    ensures
        arguments_of(arguments, count) matches Ok(read) ==> read.len() == count && (0 <= at < count
            ==> argument_of(arguments[at]) == Ok::<FunctionArgument<Seq<char>>, KernelError>(read[at])),
        arguments_of(arguments, count) matches Err(error) ==> exists|i: int|
            0 <= i < count && argument_of(#[trigger] arguments[i]) == Err::<
                FunctionArgument<Seq<char>>,
                KernelError,
            >(error),
    decreases count,
{
    if count > 0 {
        lemma_arguments_of(arguments, count - 1, at);
    }
}

/// Every argument is read, in its place.
pub proof fn law_arguments_are_read_in_order(
    arguments: &[String],
    read: Vec<FunctionArgument<String>>,
    at: int,
    argument: &str,
    alone: Result<FunctionArgument<String>, KernelError>,
)
    requires
        call_ensures(
            read_arguments,
            (arguments,),
            Ok::<Vec<FunctionArgument<String>>, KernelError>(read),
        ),
        0 <= at < arguments@.len(),
        argument@ == arguments.deep_view()[at],
        call_ensures(read_argument, (argument,), alone),
    ensures
        read@.len() == arguments@.len(),
        alone matches Ok(alone) && alone.deep_view() == read.deep_view()[at],
{
    let deep = arguments.deep_view();
    assert(deep.len() == arguments@.len());
    assert(read.deep_view().len() == read@.len());
    lemma_arguments_of(deep, deep.len() as int, at);
}

/// A pointer is a buffer, which is written where the pointer is mutable; a reference is a slice or an array;
/// a path is a value of its own text; nothing else is an argument.
pub proof fn law_types_are_arguments_by_their_shape(
    shape: Option<TypeShape<String>>,
    target: Option<TypeShape<String>>,
    type_text: &str,
    parsed: Result<FunctionArgumentType<String>, KernelError>,
)
    requires
        call_ensures(classify_type, (shape, target, type_text), parsed),
    ensures
        shape matches Some(TypeShape::Pointer { mutable }) ==> (parsed
            matches Ok(FunctionArgumentType::Buffer(access)) && (access is ReadWrite <==> mutable)),
        shape matches Some(TypeShape::Path) ==> (parsed matches Ok(FunctionArgumentType::Scalar(text))
            && text@ == type_text@),
        shape matches Some(TypeShape::Reference { .. }) ==> match target {
            Some(TypeShape::Slice { element }) => parsed matches Ok(FunctionArgumentType::Slice(found))
                && found@ == element@,
            Some(TypeShape::Array { item, length }) => parsed matches Ok(
                FunctionArgumentType::Array { item: found, length: count },
            ) && found@ == item@ && count@ == length@,
            _ => parsed == Err::<FunctionArgumentType<String>, KernelError>(
                KernelError::UnsupportedReference,
            ),
        },
        parsed is Ok ==> (shape matches Some(shape) && (shape is Pointer || shape is Path
            || shape is Reference)),
{
    if let Some(found) = shape {
        assert(shape.deep_view() == Some(found.deep_view()));
    }
    if let Some(found) = target {
        assert(target.deep_view() == Some(found.deep_view()));
    }
    if let Ok(found) = parsed {
        assert(seen(parsed) == Ok::<FunctionArgumentType<Seq<char>>, KernelError>(found.deep_view()));
    }
}

/// The type inside an `Option` is its one argument; what is not an `Option` of one type is refused.
pub proof fn law_options_hold_one_type(
    segments: &[(String, Option<Vec<(bool, String)>>)],
    inner: Result<String, KernelError>,
)
    requires
        call_ensures(unwrap_option, (segments,), inner),
    ensures
        inner matches Ok(inner) ==> {
            let deep = segments.deep_view();
            &&& deep.len() == 1
            &&& deep[0].0 == "Option"@
            &&& deep[0].1 matches Some(arguments) && arguments.len() == 1 && arguments[0].0
                && arguments[0].1 == inner@
        },
        inner is Err ==> {
            let deep = segments.deep_view();
            !(deep.len() == 1 && deep[0].0 == "Option"@ && (deep[0].1 matches Some(arguments)
                && arguments.len() == 1 && arguments[0].0))
        },
{
}

/// An argument keeps its name and is optional where it has a condition. One that is specialized is its type,
/// and every other one what its type is.
pub proof fn law_arguments_are_what_their_parts_say(
    binding: Option<(String, bool, bool, bool)>,
    condition: Option<bool>,
    specialized: bool,
    type_text: String,
    ty: Result<FunctionArgumentType<String>, KernelError>,
    argument: Result<FunctionArgument<String>, KernelError>,
)
    requires
        call_ensures(assemble_argument, (binding, condition, specialized, type_text, ty), argument),
    ensures
        argument matches Ok(argument) ==> {
            &&& binding matches Some((name, by_reference, mutable, with_pattern)) && argument.name@ == name@
                && !by_reference && !mutable && !with_pattern
            &&& condition != Some(false)
            &&& argument.optional <==> condition is Some
            &&& specialized ==> argument.ty.deep_view() == FunctionArgumentType::Specialization(type_text@)
            &&& !specialized ==> (ty matches Ok(ty) && argument.ty.deep_view() == ty.deep_view())
        },
        binding is None ==> argument is Err,
        (binding matches Some((_, by_reference, mutable, with_pattern)) && !by_reference && !mutable
            && !with_pattern) && condition != Some(false) && (specialized || ty is Ok) ==> argument is Ok,
{
    if let Some(bound) = binding {
        assert(binding.deep_view() == Some(bound.deep_view()));
        assert(bound.deep_view() == (bound.0@, bound.1, bound.2, bound.3));
    }
}

proof fn lemma_mismatch_from(
    parameters: Seq<(Seq<char>, Option<Seq<char>>)>,
    variants: Seq<(Seq<char>, Seq<Seq<char>>)>,
    from: int,
    at: int,
)
    requires
        0 <= from <= at < parameters.len(),
    ensures
        match mismatch_from(parameters, variants, from) {
            Some(index) => from <= index < parameters.len() && parameters[index].0 != variants[index].0 && (
            at < index ==> parameters[at].0 == variants[at].0),
            None => parameters[at].0 == variants[at].0,
        },
    decreases parameters.len() - from,
{
    assert(mismatch_from(parameters, variants, parameters.len() as int) is None);
    if parameters[from].0 == variants[from].0 && from + 1 < parameters.len() {
        lemma_mismatch_from(
            parameters,
            variants,
            from + 1,
            if at > from {
                at
            } else {
                from + 1
            },
        );
    }
}

/// A kernel function has the name of its attribute, and for each generic parameter values under the same name;
/// its arguments and constraints are those that were read.
pub proof fn law_parameters_and_values_go_together(
    attributes: Result<KernelAttributes, KernelError>,
    name: String,
    parameters: Result<Vec<(String, Option<String>)>, KernelError>,
    arguments: Result<Vec<FunctionArgument<String>>, KernelError>,
    function: Result<KernelFunction, KernelError>,
    at: int,
)
    requires
        call_ensures(assemble_function, (attributes, name, parameters, arguments), function),
        seen(parameters) matches Ok(read) ==> read.len() <= usize::MAX,
    ensures
        function matches Ok(function) ==> {
            let deep = function.deep_view();
            &&& attributes matches Ok(attributes) && attributes.deep_view().kernel == Some(deep.kernel)
                && attributes.deep_view().variants == deep.variants
                && attributes.deep_view().constraints == deep.constraints
            &&& parameters matches Ok(parameters) && parameters.deep_view() == deep.parameters
            &&& arguments matches Ok(arguments) && arguments.deep_view() == deep.arguments
            &&& deep.function == name@
            &&& deep.parameters.len() == deep.variants.len()
            &&& 0 <= at < deep.parameters.len() ==> deep.parameters[at].0 == deep.variants[at].0
        },
        function matches Err(KernelError::NotAKernel) ==> (attributes matches Ok(attributes)
            && attributes.deep_view().kernel is None) || attributes is Err || parameters is Err
            || arguments is Err,
        (attributes matches Ok(attributes) && attributes.deep_view().kernel is None) ==> function == Err::<
            KernelFunction,
            KernelError,
        >(KernelError::NotAKernel),
{
    if let Ok(found) = function {
        let deep = found.deep_view();
        assert(seen(function) == Ok::<FunctionModel, KernelError>(deep));
        if 0 <= at < deep.parameters.len() {
            lemma_mismatch_from(deep.parameters, deep.variants, 0, at);
        }
    }
}

proof fn lemma_behind_spaces(source: Seq<char>, from: int)
    requires
        0 <= from <= source.len(),
    ensures
        from <= behind_spaces(source, from) <= source.len(),
        behind_spaces(source, from) < source.len() ==> source[behind_spaces(source, from)] != ' ',
        forall|i: int| from <= i < behind_spaces(source, from) ==> source[i] == ' ',
    decreases source.len() - from,
{
    if from < source.len() && source[from] == ' ' {
        lemma_behind_spaces(source, from + 1);
    }
}

/// An attribute inside of a function is read without its exclamation mark, and one before a function as it is.
pub proof fn law_inner_attributes_lose_their_mark(rest: Seq<char>)
    ensures
        outer_form("#!"@ + rest) == "#"@ + rest,
        rest.len() > 0 && rest[0] == '[' ==> outer_form("#"@ + rest) == "#"@ + rest,
{
    reveal_strlit("#!");
    reveal_strlit("#");
    let inner = "#!"@ + rest;
    lemma_behind_spaces(inner, 1);
    assert(outer_form(inner) =~= "#"@ + rest);
    let outer = "#"@ + rest;
    lemma_behind_spaces(outer, 1);
}

proof fn lemma_find_attribute(attributes: Seq<Seq<char>>, name: Seq<char>, from: int, at: int)
    requires
        0 <= from <= at < attributes.len(),
        forall|i: int|
            from <= i < at ==> !(rust_source::attribute_parts(outer_form(#[trigger] attributes[i])) matches Some(
                (Some(found), _),
            ) && found == name),
    ensures
        (rust_source::attribute_parts(outer_form(attributes[at])) matches Some((Some(found), arguments))
            && found == name) ==> find_attribute(attributes, name, from) == Some(
            (rust_source::attribute_parts(outer_form(attributes[at]))->0).1,
        ),
    decreases at - from,
{
    if from < at {
        let first = attributes[from];
        assert(!(rust_source::attribute_parts(outer_form(first)) matches Some((Some(found), _)) && found
            == name));
        lemma_find_attribute(attributes, name, from + 1, at);
    }
}

/// The first attribute of a name is found, with its arguments.
pub proof fn law_first_attribute_is_found(attributes: Seq<Seq<char>>, name: Seq<char>, at: int)
    requires
        0 <= at < attributes.len(),
        rust_source::attribute_parts(outer_form(attributes[at])) matches Some((Some(found), _)) && found
            == name,
        forall|i: int|
            0 <= i < at ==> !(rust_source::attribute_parts(outer_form(#[trigger] attributes[i])) matches Some(
                (Some(found), _),
            ) && found == name),
    ensures
        find_attribute(attributes, name, 0) == Some(
            (rust_source::attribute_parts(outer_form(attributes[at]))->0).1,
        ),
{
    lemma_find_attribute(attributes, name, 0, at);
}

/// A function that is read as a kernel has values for each of its generic parameters, under the same name; its
/// arguments stand in their order.
pub proof fn law_read_functions_go_together(
    source: &str,
    function: KernelFunction,
    parameter: int,
    argument: int,
)
    requires
        call_ensures(
            read_kernel_function,
            (source,),
            Ok::<KernelFunction, KernelError>(function),
        ),
    ensures
        ({
            let deep = function.deep_view();
            &&& rust_source::function_parts(source@) matches Some((attributes, name, parameters, arguments))
                && deep.function == name && deep.parameters.len() == parameters.len()
                && deep.arguments.len() == arguments.len() && (0 <= argument < arguments.len()
                ==> argument_of(arguments[argument]) == Ok::<FunctionArgument<Seq<char>>, KernelError>(
                deep.arguments[argument],
            )) && (0 <= parameter < parameters.len() ==> rust_source::generic_parameter(
                parameters[parameter],
            ) == Some(deep.parameters[parameter]))
            &&& deep.parameters.len() == deep.variants.len()
            &&& 0 <= parameter < deep.parameters.len() ==> deep.parameters[parameter].0
                == deep.variants[parameter].0
        }),
{
    let deep = function.deep_view();
    assert(function_of(source@) == Ok::<FunctionModel, KernelError>(deep));
    if let Some((attributes, name, parameters, arguments)) = rust_source::function_parts(source@) {
        lemma_parameters_of(parameters, parameters.len() as int, parameter);
        lemma_arguments_of(arguments, arguments.len() as int, argument);
        if 0 <= parameter < deep.parameters.len() {
            lemma_mismatch_from(deep.parameters, deep.variants, 0, parameter);
        }
    }
}

proof fn lemma_attributes_of(attributes: Seq<Seq<char>>, count: int, at: int)
    requires
        0 <= at < count <= attributes.len(),
    ensures
        attributes_of(attributes, count) matches Ok(read) ==> (rust_source::attribute_parts(
            outer_form(attributes[at]),
        ) matches Some((Some(name), arguments)) ==> (name == "kernel"@ ==> parsed_identifier(arguments)
            == read.kernel && read.kernel is Some) && (name == "constraint"@ ==> (parsed_expression(
            arguments,
        ) matches Some(constraint) && read.constraints.contains(constraint)))),
    decreases count,
{
    if let Ok(read) = attributes_of(attributes, count) {
        let before = attributes_of(attributes, count - 1)->Ok_0;
        reveal_strlit("kernel");
        reveal_strlit("variants");
        reveal_strlit("constraint");
        assert("kernel"@.len() == 6 && "variants"@.len() == 8 && "constraint"@.len() == 10);
        if at < count - 1 {
            lemma_attributes_of(attributes, count - 1, at);
            if let Some((Some(name), arguments)) = rust_source::attribute_parts(
                outer_form(attributes[at]),
            ) {
                if name == "constraint"@ {
                    let constraint = parsed_expression(arguments)->0;
                    let i = choose|i: int|
                        0 <= i < before.constraints.len() && before.constraints[i] == constraint;
                    assert(read.constraints[i] == constraint);
                }
            }
        } else {
            if let Some((Some(name), arguments)) = rust_source::attribute_parts(
                outer_form(attributes[at]),
            ) {
                if name == "constraint"@ {
                    let last = read.constraints.len() - 1;
                    assert(read.constraints[last] == parsed_expression(arguments)->0);
                }
            }
        }
    }
}

/// The kernel has the name that its attribute gives, and every constraint that an attribute gives.
pub proof fn law_attributes_are_all_read(
    attributes: &[String],
    read: KernelAttributes,
    at: int,
)
    requires
        call_ensures(
            read_attributes,
            (attributes,),
            Ok::<KernelAttributes, KernelError>(read),
        ),
        0 <= at < attributes@.len(),
    ensures
        rust_source::attribute_parts(outer_form(attributes.deep_view()[at])) matches Some(
            (Some(name), arguments),
        ) ==> (name == "kernel"@ ==> parsed_identifier(arguments) == read.deep_view().kernel) && (name
            == "constraint"@ ==> (parsed_expression(arguments) matches Some(constraint)
            && read.deep_view().constraints.contains(constraint))),
{
    assert(attributes.deep_view().len() == attributes@.len());
    lemma_attributes_of(attributes.deep_view(), attributes@.len() as int, at);
}

} // verus!
