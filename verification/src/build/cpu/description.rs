//! What the callers of a kernel function have to know of it.
use vstd::prelude::*;

use crate::build::cpu::function::{
    FunctionArgument, FunctionArgumentType, FunctionModel, KernelFunction,
};
use crate::build::kernel::{
    Kernel, KernelArgument, KernelArgumentType, KernelModel, KernelParameter, KernelParameterType,
};
use crate::text;

verus! {

/// The enumerations that kernels and their callers share. Each type that stands for one is listed
/// with the path by which both can name it.
#[derive(Debug, PartialEq, Eq)]
pub struct EnumPaths {
    pub types: Vec<(String, String)>,
}

/// The path that is listed for a type from `from` on, or the type itself.
pub open spec fn canonical_from(
    types: Seq<(Seq<char>, Seq<char>)>,
    type_text: Seq<char>,
    from: int,
) -> Seq<char>
    decreases types.len() - from,
{
    if from >= types.len() {
        type_text
    } else if types[from].0 == type_text {
        types[from].1
    } else {
        canonical_from(types, type_text, from + 1)
    }
}

impl EnumPaths {
    /// The text by which both sides can name a type.
    pub open spec fn canonical(self, type_text: Seq<char>) -> Seq<char> {
        text::with_tight_paths(canonical_from(self.types.deep_view(), type_text, 0), 0)
    }

    /// The text by which both sides can name a type.
    pub fn canonicalize_type(&self, type_text: &str) -> (canonical: String)
        ensures
            canonical@ == self.canonical(type_text@),
    {
        let mut i: usize = 0;
        while i < self.types.len()
            invariant
                i <= self.types@.len(),
                canonical_from(self.types.deep_view(), type_text@, 0) == canonical_from(
                    self.types.deep_view(),
                    type_text@,
                    i as int,
                ),
            decreases self.types@.len() - i,
        {
            assert(self.types.deep_view()[i as int] == self.types@[i as int].deep_view());
            if text::is_same(self.types[i].0.as_str(), type_text) {
                return text::tighten_paths(self.types[i].1.as_str());
            }
            i += 1;
        }
        text::tighten_paths(type_text)
    }
}

/// An argument as callers see it; nothing for one that is fixed when the kernel is created.
pub open spec fn kernel_argument(argument: FunctionArgument<Seq<char>>, paths: EnumPaths) -> Option<
    KernelArgument<Seq<char>>,
> {
    let ty = match argument.ty {
        FunctionArgumentType::Buffer(access) => Some(KernelArgumentType::Buffer(access)),
        FunctionArgumentType::Slice(element) => Some(
            KernelArgumentType::Constant("&["@ + paths.canonical(element) + "]"@),
        ),
        FunctionArgumentType::Array { item, length } => Some(
            KernelArgumentType::Constant("&["@ + paths.canonical(item) + "; "@ + length + "]"@),
        ),
        FunctionArgumentType::Scalar(scalar) => Some(
            KernelArgumentType::Constant(paths.canonical(scalar)),
        ),
        FunctionArgumentType::Specialization(_) => None,
    };
    match ty {
        Some(ty) => Some(
            KernelArgument { name: argument.name, conditional: argument.optional, ty },
        ),
        None => None,
    }
}

/// The parameter that an argument is, where it is fixed when the kernel is created.
pub open spec fn argument_parameter(
    argument: FunctionArgument<Seq<char>>,
    paths: EnumPaths,
) -> Option<KernelParameter<Seq<char>>> {
    match argument.ty {
        FunctionArgumentType::Specialization(special) => Some(
            KernelParameter {
                name: argument.name,
                ty: KernelParameterType::Value(paths.canonical(special)),
            },
        ),
        _ => None,
    }
}

/// A generic parameter as callers see it.
pub open spec fn kernel_parameter(
    parameter: (Seq<char>, Option<Seq<char>>),
    paths: EnumPaths,
) -> KernelParameter<Seq<char>> {
    KernelParameter {
        name: parameter.0,
        ty: match parameter.1 {
            Some(ty) => KernelParameterType::Value(paths.canonical(ty)),
            None => KernelParameterType::Type,
        },
    }
}

impl FunctionArgument<String> {
    /// The argument as callers see it; nothing for one that is fixed when the kernel is created.
    pub fn to_kernel_argument(&self, paths: &EnumPaths) -> (argument: Option<
        KernelArgument<String>,
    >)
        ensures
            argument.deep_view() == kernel_argument(self.deep_view(), *paths),
    {
        let ty: KernelArgumentType<String> = match &self.ty {
            FunctionArgumentType::Buffer(access) => KernelArgumentType::Buffer(*access),
            FunctionArgumentType::Slice(element) => {
                let mut constant: String = text::copy_str("&[");
                text::push_str(&mut constant, paths.canonicalize_type(element.as_str()).as_str());
                text::push_str(&mut constant, "]");
                KernelArgumentType::Constant(constant)
            },
            FunctionArgumentType::Array { item, length } => {
                let mut constant: String = text::copy_str("&[");
                text::push_str(&mut constant, paths.canonicalize_type(item.as_str()).as_str());
                text::push_str(&mut constant, "; ");
                text::push_str(&mut constant, length.as_str());
                text::push_str(&mut constant, "]");
                KernelArgumentType::Constant(constant)
            },
            FunctionArgumentType::Scalar(scalar) => {
                KernelArgumentType::Constant(paths.canonicalize_type(scalar.as_str()))
            },
            FunctionArgumentType::Specialization(_) => {
                return None;
            },
        };
        Some(
            KernelArgument {
                name: text::copy_str(self.name.as_str()),
                conditional: self.optional,
                ty,
            },
        )
    }

    /// The parameter that the argument is, where it is fixed when the kernel is created.
    pub fn to_kernel_parameter(&self, paths: &EnumPaths) -> (parameter: Option<
        KernelParameter<String>,
    >)
        ensures
            parameter.deep_view() == argument_parameter(self.deep_view(), *paths),
    {
        match &self.ty {
            FunctionArgumentType::Specialization(special) => Some(
                KernelParameter {
                    name: text::copy_str(self.name.as_str()),
                    ty: KernelParameterType::Value(paths.canonicalize_type(special.as_str())),
                },
            ),
            _ => None,
        }
    }
}

/// The first `count` generic parameters as callers see them.
pub open spec fn generic_parameters(
    parameters: Seq<(Seq<char>, Option<Seq<char>>)>,
    paths: EnumPaths,
    count: int,
) -> Seq<KernelParameter<Seq<char>>>
    decreases count,
{
    if count <= 0 {
        Seq::empty()
    } else {
        generic_parameters(parameters, paths, count - 1).push(
            kernel_parameter(parameters[count - 1], paths),
        )
    }
}

/// `before`, and behind it the parameters among the first `count` arguments.
pub open spec fn with_argument_parameters(
    before: Seq<KernelParameter<Seq<char>>>,
    arguments: Seq<FunctionArgument<Seq<char>>>,
    paths: EnumPaths,
    count: int,
) -> Seq<KernelParameter<Seq<char>>>
    decreases count,
{
    if count <= 0 {
        before
    } else {
        let shorter = with_argument_parameters(before, arguments, paths, count - 1);
        match argument_parameter(arguments[count - 1], paths) {
            Some(parameter) => shorter.push(parameter),
            None => shorter,
        }
    }
}

/// The first `count` arguments as callers see them.
pub open spec fn kernel_arguments(
    arguments: Seq<FunctionArgument<Seq<char>>>,
    paths: EnumPaths,
    count: int,
) -> Seq<KernelArgument<Seq<char>>>
    decreases count,
{
    if count <= 0 {
        Seq::empty()
    } else {
        let shorter = kernel_arguments(arguments, paths, count - 1);
        match kernel_argument(arguments[count - 1], paths) {
            Some(argument) => shorter.push(argument),
            None => shorter,
        }
    }
}

/// A kernel function as its callers see it: the generic parameters and behind them the arguments
/// that are fixed when the kernel is created, and the other arguments.
pub open spec fn kernel_of(function: FunctionModel, paths: EnumPaths) -> KernelModel {
    KernelModel {
        name: function.kernel,
        parameters: with_argument_parameters(
            generic_parameters(function.parameters, paths, function.parameters.len() as int),
            function.arguments,
            paths,
            function.arguments.len() as int,
        ),
        arguments: kernel_arguments(
            function.arguments,
            paths,
            function.arguments.len() as int,
        ),
    }
}

fn describe_parameters(function: &KernelFunction, paths: &EnumPaths) -> (parameters: Vec<
    KernelParameter<String>,
>)
    ensures
        parameters.deep_view() == kernel_of(function.deep_view(), *paths).parameters,
{
    let ghost model = function.deep_view();
    let mut parameters: Vec<KernelParameter<String>> = Vec::new();
    assert(parameters.deep_view() =~= Seq::empty());
    let mut i: usize = 0;
    while i < function.parameters.len()
        invariant
            i <= function.parameters@.len(),
            model == function.deep_view(),
            parameters.deep_view() == generic_parameters(model.parameters, *paths, i as int),
        decreases function.parameters@.len() - i,
    {
        let ghost before = parameters.deep_view();
        assert(model.parameters[i as int] == function.parameters@[i as int].deep_view());
        let ty: KernelParameterType<String> = match &function.parameters[i].1 {
            Some(ty) => KernelParameterType::Value(paths.canonicalize_type(ty.as_str())),
            None => KernelParameterType::Type,
        };
        let parameter: KernelParameter<String> = KernelParameter {
            name: text::copy_str(function.parameters[i].0.as_str()),
            ty,
        };
        let ghost added = parameter.deep_view();
        parameters.push(parameter);
        i += 1;
        assert(parameters.deep_view() =~= before.push(added));
    }
    let ghost generic = parameters.deep_view();
    let mut j: usize = 0;
    while j < function.arguments.len()
        invariant
            j <= function.arguments@.len(),
            model == function.deep_view(),
            parameters.deep_view() == with_argument_parameters(
                generic,
                model.arguments,
                *paths,
                j as int,
            ),
        decreases function.arguments@.len() - j,
    {
        let ghost before = parameters.deep_view();
        assert(model.arguments[j as int] == function.arguments@[j as int].deep_view());
        if let Some(parameter) = function.arguments[j].to_kernel_parameter(paths) {
            let ghost added = parameter.deep_view();
            parameters.push(parameter);
            assert(parameters.deep_view() =~= before.push(added));
        }
        j += 1;
    }
    parameters
}

/// The kernel function as its callers see it.
pub fn describe_kernel(function: &KernelFunction, paths: &EnumPaths) -> (kernel: Kernel)
    ensures
        kernel.deep_view() == kernel_of(function.deep_view(), *paths),
{
    let ghost model = function.deep_view();
    let parameters: Vec<KernelParameter<String>> = describe_parameters(function, paths);
    let mut arguments: Vec<KernelArgument<String>> = Vec::new();
    assert(arguments.deep_view() =~= Seq::empty());
    let mut i: usize = 0;
    while i < function.arguments.len()
        invariant
            i <= function.arguments@.len(),
            model == function.deep_view(),
            arguments.deep_view() == kernel_arguments(model.arguments, *paths, i as int),
        decreases function.arguments@.len() - i,
    {
        let ghost before = arguments.deep_view();
        assert(model.arguments[i as int] == function.arguments@[i as int].deep_view());
        if let Some(argument) = function.arguments[i].to_kernel_argument(paths) {
            let ghost added = argument.deep_view();
            arguments.push(argument);
            assert(arguments.deep_view() =~= before.push(added));
        }
        i += 1;
    }
    Kernel { name: text::copy_str(function.kernel.as_str()), parameters, arguments }
}

/// Every argument of a kernel function is given to the kernel once: when it is created or when it is
/// encoded.
pub proof fn law_arguments_are_given_once(argument: FunctionArgument<Seq<char>>, paths: EnumPaths)
    ensures
        kernel_argument(argument, paths) is Some <==> argument_parameter(argument, paths) is None,
{
}

/// Callers give as many parameters and arguments as the function has.
pub proof fn law_callers_give_everything(
    before: Seq<KernelParameter<Seq<char>>>,
    arguments: Seq<FunctionArgument<Seq<char>>>,
    paths: EnumPaths,
    count: int,
)
    requires
        0 <= count <= arguments.len(),
    ensures
        with_argument_parameters(before, arguments, paths, count).len() + kernel_arguments(
            arguments,
            paths,
            count,
        ).len() == before.len() + count,
    decreases count,
{
    if count > 0 {
        law_callers_give_everything(before, arguments, paths, count - 1);
    }
}

proof fn lemma_canonical(types: Seq<(Seq<char>, Seq<char>)>, type_text: Seq<char>, from: int, at: int)
    requires
        0 <= from <= at <= types.len(),
        forall|i: int| from <= i < at ==> (#[trigger] types[i]).0 != type_text,
        at < types.len() ==> types[at].0 == type_text,
    ensures
        canonical_from(types, type_text, from) == if at < types.len() {
            types[at].1
        } else {
            type_text
        },
    decreases at - from,
{
    if from < at {
        assert(types[from].0 != type_text);
        lemma_canonical(types, type_text, from + 1, at);
    }
}

/// A type is named by the path that is listed for it, the first where there are several, and by itself where
/// none is; spaces around colons are left out.
pub proof fn law_types_are_named_by_their_paths(
    paths: EnumPaths,
    type_text: &str,
    canonical: String,
    at: int,
    listed: &str,
    tight: String,
)
    requires
        call_ensures(EnumPaths::canonicalize_type, (&paths, type_text), canonical),
        0 <= at <= paths.types@.len(),
        forall|i: int| 0 <= i < at ==> (#[trigger] paths.types.deep_view()[i]).0 != type_text@,
        at < paths.types@.len() ==> paths.types.deep_view()[at].0 == type_text@,
        listed@ == (if at < paths.types@.len() {
            paths.types.deep_view()[at].1
        } else {
            type_text@
        }),
        call_ensures(text::tighten_paths, (listed,), tight),
    ensures
        canonical@ == tight@,
{
    assert(paths.types.deep_view().len() == paths.types@.len());
    lemma_canonical(paths.types.deep_view(), type_text@, 0, at);
}

/// Callers give a buffer as a buffer of the same access, and everything else as a constant; what is fixed when
/// the kernel is created is a parameter in its place. Names and options stay.
pub proof fn law_callers_see_what_the_function_takes(
    argument: FunctionArgument<String>,
    paths: &EnumPaths,
    seen: Option<KernelArgument<String>>,
    parameter: Option<KernelParameter<String>>,
)
    requires
        call_ensures(FunctionArgument::<String>::to_kernel_argument, (&argument, paths), seen),
        call_ensures(FunctionArgument::<String>::to_kernel_parameter, (&argument, paths), parameter),
    ensures
        seen is Some <==> argument.ty !is Specialization,
        parameter is Some <==> argument.ty is Specialization,
        seen matches Some(seen) ==> seen.name@ == argument.name@ && seen.conditional == argument.optional,
        parameter matches Some(parameter) ==> parameter.name@ == argument.name@,
        argument.ty matches FunctionArgumentType::Buffer(access) ==> (seen matches Some(seen) && seen.ty
            matches KernelArgumentType::Buffer(given) && given == access),
        argument.ty !is Buffer ==> (seen matches Some(seen) ==> seen.ty is Constant),
{
    if let Some(found) = seen {
        assert(seen.deep_view() == Some(found.deep_view()));
    }
    if let Some(found) = parameter {
        assert(parameter.deep_view() == Some(found.deep_view()));
    }
}

proof fn lemma_generic_parameters(
    parameters: Seq<(Seq<char>, Option<Seq<char>>)>,
    paths: EnumPaths,
    count: int,
)
    requires
        0 <= count <= parameters.len(),
    ensures
        generic_parameters(parameters, paths, count).len() == count,
        forall|i: int|
            0 <= i < count ==> #[trigger] generic_parameters(parameters, paths, count)[i]
                == kernel_parameter(parameters[i], paths),
    decreases count,
{
    if count > 0 {
        lemma_generic_parameters(parameters, paths, count - 1);
    }
}

proof fn lemma_argument_parameters(
    before: Seq<KernelParameter<Seq<char>>>,
    arguments: Seq<FunctionArgument<Seq<char>>>,
    paths: EnumPaths,
    count: int,
    at: int,
)
    requires
        0 <= count <= arguments.len(),
    ensures
        ({
            let all = with_argument_parameters(before, arguments, paths, count);
            &&& all.len() >= before.len()
            &&& forall|i: int| 0 <= i < before.len() ==> all[i] == before[i]
            &&& 0 <= at < count && arguments[at].ty is Specialization ==> exists|i: int|
                before.len() <= i < all.len() && (#[trigger] all[i]).name == arguments[at].name
        }),
    decreases count,
{
    if count > 0 {
        lemma_argument_parameters(before, arguments, paths, count - 1, at);
        let shorter = with_argument_parameters(before, arguments, paths, count - 1);
        let all = with_argument_parameters(before, arguments, paths, count);
        if 0 <= at < count && arguments[at].ty is Specialization {
            if at < count - 1 {
                let i = choose|i: int|
                    before.len() <= i < shorter.len() && (#[trigger] shorter[i]).name
                        == arguments[at].name;
                assert(all[i] == shorter[i]);
            } else {
                assert(all[all.len() - 1].name == arguments[at].name);
            }
        }
    }
}

proof fn lemma_kernel_arguments(
    arguments: Seq<FunctionArgument<Seq<char>>>,
    paths: EnumPaths,
    count: int,
    at: int,
)
    requires
        0 <= count <= arguments.len(),
    ensures
        0 <= at < count && arguments[at].ty !is Specialization ==> exists|i: int|
            0 <= i < kernel_arguments(arguments, paths, count).len() && Some(
                #[trigger] kernel_arguments(arguments, paths, count)[i],
            ) == kernel_argument(arguments[at], paths),
    decreases count,
{
    if count > 0 && 0 <= at < count && arguments[at].ty !is Specialization {
        let shorter = kernel_arguments(arguments, paths, count - 1);
        let all = kernel_arguments(arguments, paths, count);
        if at < count - 1 {
            lemma_kernel_arguments(arguments, paths, count - 1, at);
            let i = choose|i: int|
                0 <= i < shorter.len() && Some(#[trigger] shorter[i]) == kernel_argument(
                    arguments[at],
                    paths,
                );
            assert(all[i] == shorter[i]);
        } else {
            assert(Some(all[all.len() - 1]) == kernel_argument(arguments[at], paths));
        }
    }
}

/// A kernel has the name of its function. Its generic parameters come first, in their order and with types where
/// they are values; behind them come the arguments that are fixed when it is created, and all others are
/// its arguments.
pub proof fn law_kernels_are_described_in_order(
    function: KernelFunction,
    paths: &EnumPaths,
    kernel: Kernel,
    parameter: int,
    argument: int,
)
    requires
        call_ensures(describe_kernel, (&function, paths), kernel),
    ensures
        kernel.deep_view().name == function.deep_view().kernel,
        0 <= parameter < function.deep_view().parameters.len() ==> {
            let described = kernel.deep_view().parameters[parameter];
            &&& described.name == function.deep_view().parameters[parameter].0
            &&& described.ty is Type <==> function.deep_view().parameters[parameter].1 is None
        },
        0 <= argument < function.deep_view().arguments.len() ==> {
            let given = function.deep_view().arguments[argument];
            &&& given.ty is Specialization ==> exists|i: int|
                function.deep_view().parameters.len() <= i < kernel.deep_view().parameters.len() && (
                #[trigger] kernel.deep_view().parameters[i]).name == given.name
            &&& given.ty !is Specialization ==> exists|i: int|
                0 <= i < kernel.deep_view().arguments.len() && (
                #[trigger] kernel.deep_view().arguments[i]).name == given.name
                    && kernel.deep_view().arguments[i].conditional == given.optional
        },
        kernel.deep_view().parameters.len() + kernel.deep_view().arguments.len()
            == function.deep_view().parameters.len() + function.deep_view().arguments.len(),
{
    let deep = function.deep_view();
    let count = deep.arguments.len() as int;
    let generics = generic_parameters(deep.parameters, *paths, deep.parameters.len() as int);
    lemma_generic_parameters(deep.parameters, *paths, deep.parameters.len() as int);
    lemma_argument_parameters(generics, deep.arguments, *paths, count, argument);
    lemma_kernel_arguments(deep.arguments, *paths, count, argument);
    law_callers_give_everything(generics, deep.arguments, *paths, count);
    if 0 <= argument < count && deep.arguments[argument].ty !is Specialization {
        let all = kernel_arguments(deep.arguments, *paths, count);
        let i = choose|i: int|
            0 <= i < all.len() && Some(#[trigger] all[i]) == kernel_argument(
                deep.arguments[argument],
                *paths,
            );
        assert(kernel.deep_view().arguments[i] == all[i]);
    }
}

} // verus!
