//! From source files to the kernels in them and the code that is generated for them.
use vstd::prelude::*;

use crate::build::constraints::{self, Refusal};
use crate::build::cpu::bindings;
use crate::build::cpu::description::{self, EnumPaths};
use crate::build::cpu::function::{
    self, FunctionArgument, FunctionArgumentType, FunctionModel, KernelError, KernelFunction,
};
use crate::build::cpu::selections;
use crate::build::kernel::Kernel;
use crate::build::rust_source::{self, ItemKind};
use crate::text;

verus! {

/// The first buffer from `from` on whose name cannot be that of a lifetime.
pub open spec fn bad_lifetime(arguments: Seq<FunctionArgument<Seq<char>>>, from: int) -> Option<int>
    decreases arguments.len() - from,
{
    if from >= arguments.len() {
        None
    } else if arguments[from].ty is Buffer && text::is_raw(arguments[from].name) {
        Some(from)
    } else {
        bad_lifetime(arguments, from + 1)
    }
}

/// Whether the variant of a type parameter names a data type: its name in upper case is an
/// identifier.
pub open spec fn names_data_type(variant: Seq<char>) -> bool {
    let upper = rust_source::uppercase(variant);
    upper == "_"@ || rust_source::identifier(upper) == Some(upper)
}

/// The first of the values from `from` on that does not name a data type.
pub open spec fn bad_value(values: Seq<Seq<char>>, from: int) -> Option<int>
    decreases values.len() - from,
{
    if from >= values.len() {
        None
    } else if !names_data_type(values[from]) {
        Some(from)
    } else {
        bad_value(values, from + 1)
    }
}

/// The first type parameter from `from` on with a variant that does not name a data type, and the
/// variant.
pub open spec fn bad_data_type(function: FunctionModel, from: int) -> Option<(int, int)>
    decreases function.parameters.len() - from,
{
    if from >= function.parameters.len() {
        None
    } else if function.parameters[from].1 is None && bad_value(
        function.variants[from].1,
        0,
    ) is Some {
        Some((from, bad_value(function.variants[from].1, 0)->0))
    } else {
        bad_data_type(function, from + 1)
    }
}

/// Why no code can be generated for a kernel function. Where there is no selection, no variant is
/// ever named.
pub open spec fn naming_error(function: FunctionModel) -> Option<KernelError> {
    match bad_lifetime(function.arguments, 0) {
        Some(index) => Some(KernelError::LifetimeName { index: index as usize }),
        None => if selections::product(
            function.variants,
            function.variants.len() as int,
        ).len() == 0 {
            None
        } else {
            match bad_data_type(function, 0) {
                Some((parameter, variant)) => Some(
                    KernelError::DataTypeName {
                        parameter: parameter as usize,
                        variant: variant as usize,
                    },
                ),
                None => None,
            }
        },
    }
}

fn find_bad_lifetime(arguments: &[FunctionArgument<String>]) -> (bad: Option<usize>)
    ensures
        match bad {
            Some(index) => bad_lifetime(arguments.deep_view(), 0) == Some(index as int),
            None => bad_lifetime(arguments.deep_view(), 0) is None,
        },
{
    let mut i: usize = 0;
    while i < arguments.len()
        invariant
            i <= arguments@.len(),
            bad_lifetime(arguments.deep_view(), 0) == bad_lifetime(
                arguments.deep_view(),
                i as int,
            ),
        decreases arguments@.len() - i,
    {
        assert(arguments.deep_view()[i as int] == arguments@[i as int].deep_view());
        if let FunctionArgumentType::Buffer(_) = &arguments[i].ty {
            if text::is_raw_identifier(arguments[i].name.as_str()) {
                return Some(i);
            }
        }
        i += 1;
    }
    None
}

fn check_data_type(variant: &str) -> (valid: bool)
    ensures
        valid == names_data_type(variant@),
{
    let upper: String = rust_source::to_uppercase(variant);
    if text::is_same(upper.as_str(), "_") {
        return true;
    }
    match rust_source::read_identifier(upper.as_str()) {
        Some(identifier) => text::is_same(identifier.as_str(), upper.as_str()),
        None => false,
    }
}

fn find_bad_value(values: &[String]) -> (bad: Option<usize>)
    ensures
        match bad {
            Some(index) => bad_value(values.deep_view(), 0) == Some(index as int),
            None => bad_value(values.deep_view(), 0) is None,
        },
{
    let mut i: usize = 0;
    while i < values.len()
        invariant
            i <= values@.len(),
            bad_value(values.deep_view(), 0) == bad_value(values.deep_view(), i as int),
        decreases values@.len() - i,
    {
        assert(values.deep_view()[i as int] == values@[i as int]@);
        if !check_data_type(values[i].as_str()) {
            return Some(i);
        }
        i += 1;
    }
    None
}

fn find_bad_data_type(function: &KernelFunction) -> (bad: Option<(usize, usize)>)
    requires
        function.parameters@.len() == function.variants@.len(),
    ensures
        match bad {
            Some((parameter, variant)) => bad_data_type(function.deep_view(), 0) == Some(
                (parameter as int, variant as int),
            ),
            None => bad_data_type(function.deep_view(), 0) is None,
        },
{
    let ghost model = function.deep_view();
    let mut i: usize = 0;
    while i < function.parameters.len()
        invariant
            i <= function.parameters@.len(),
            function.parameters@.len() == function.variants@.len(),
            model == function.deep_view(),
            bad_data_type(model, 0) == bad_data_type(model, i as int),
        decreases function.parameters@.len() - i,
    {
        assert(model.variants[i as int] == function.variants@[i as int].deep_view());
        assert(model.parameters[i as int] == function.parameters@[i as int].deep_view());
        if function.parameters[i].1.is_none() {
            if let Some(variant) = find_bad_value(&function.variants[i].1) {
                return Some((i, variant));
            }
        }
        i += 1;
    }
    None
}

/// The code is generated for all selections that the constraints of the function keep; without
/// constraints or parameters, for all.
pub open spec fn is_generated(function: FunctionModel, generated: Seq<char>) -> bool {
    let all = selections::product(function.variants, function.variants.len() as int);
    exists|keep: Seq<bool>|
        keep.len() == all.len() && (function.parameters.len() > 0 ==> selections::are_answers(
            function,
            all,
            keep,
        )) && (function.constraints.len() == 0 || function.parameters.len() == 0 ==> forall|i: int|
            0 <= i < keep.len() ==> keep[i]) && generated == #[trigger] bindings::bindings_of(
            function,
            selections::kept(all, keep, keep.len() as int),
        )
}

/// Whether an item is a function with a `kernel` attribute.
pub open spec fn is_kernel(item: (ItemKind, Seq<char>)) -> bool {
    item.0 == ItemKind::Function && match rust_source::function_parts(item.1) {
        Some((attributes, _, _, _)) => function::find_attribute(
            attributes,
            "kernel"@,
            0,
        ) is Some,
        None => false,
    }
}

/// The kernel functions among the first `count` items.
pub open spec fn kernels_among(items: Seq<(ItemKind, Seq<char>)>, count: int) -> Seq<Seq<char>>
    decreases count,
{
    if count <= 0 {
        Seq::empty()
    } else {
        let before = kernels_among(items, count - 1);
        if is_kernel(items[count - 1]) {
            before.push(items[count - 1].1)
        } else {
            before
        }
    }
}

/// The texts of the kernel functions of a source file; nothing where it is no source file.
pub fn find_kernels(source: &str) -> (kernels: Option<Vec<String>>)
    ensures
        match rust_source::items(source@) {
            Some(items) => kernels.deep_view() == Some(kernels_among(items, items.len() as int)),
            None => kernels is None,
        },
{
    let items: Vec<(ItemKind, String)> = match rust_source::read_items(source) {
        Some(items) => items,
        None => {
            return None;
        },
    };
    let mut kernels: Vec<String> = Vec::new();
    assert(kernels.deep_view() =~= Seq::empty());
    let mut i: usize = 0;
    while i < items.len()
        invariant
            i <= items@.len(),
            kernels.deep_view() == kernels_among(items.deep_view(), i as int),
        decreases items@.len() - i,
    {
        let ghost before = kernels.deep_view();
        assert(items.deep_view()[i as int] == items@[i as int].deep_view());
        if is_kernel_item(items[i].0, items[i].1.as_str()) {
            kernels.push(text::copy_str(items[i].1.as_str()));
            assert(kernels.deep_view() =~= before.push(items@[i as int].1@));
        }
        i += 1;
    }
    Some(kernels)
}

fn is_kernel_item(kind: ItemKind, item: &str) -> (kernel: bool)
    ensures
        kernel == is_kernel((kind, item@)),
{
    if kind != ItemKind::Function {
        return false;
    }
    match rust_source::read_function(item) {
        Some((attributes, _, _, _)) => function::find_named_attribute(
            &attributes,
            "kernel",
        ).is_some(),
        None => false,
    }
}

/// `out` with the first `count` texts behind it, two colons between them.
pub open spec fn with_path(out: Seq<char>, segments: Seq<Seq<char>>, count: int) -> Seq<char>
    decreases count,
{
    if count <= 0 {
        out
    } else {
        let before = with_path(out, segments, count - 1);
        (if count > 1 {
            before + "::"@
        } else {
            before
        }) + segments[count - 1]
    }
}

fn push_path(out: &mut String, segments: &[String])
    ensures
        final(out)@ == with_path(old(out)@, segments.deep_view(), segments@.len() as int),
{
    let ghost before = out@;
    let mut i: usize = 0;
    while i < segments.len()
        invariant
            i <= segments@.len(),
            out@ == with_path(before, segments.deep_view(), i as int),
        decreases segments@.len() - i,
    {
        assert(segments.deep_view()[i as int] == segments@[i as int]@);
        if i > 0 {
            text::push_str(out, "::");
        }
        text::push_str(out, segments[i].as_str());
        i += 1;
    }
}

/// `out` with the first `count` kernels of the source file at `path` behind it, each as the type that
/// the backend has for it.
pub open spec fn with_associated_types(
    out: Seq<char>,
    path: Seq<Seq<char>>,
    kernels: Seq<Seq<char>>,
    count: int,
) -> Seq<char>
    decreases count,
{
    if count <= 0 {
        out
    } else {
        let before = with_associated_types(out, path, kernels, count - 1);
        with_path(
            before + "type "@ + kernels[count - 1] + "Kernel = "@,
            path,
            path.len() as int,
        ) + "::"@ + kernels[count - 1] + "CpuKernel; "@
    }
}

/// `out` with the kernels of the first `count` source files behind it.
pub open spec fn with_objects(
    out: Seq<char>,
    objects: Seq<(Seq<Seq<char>>, Seq<Seq<char>>)>,
    count: int,
) -> Seq<char>
    decreases count,
{
    if count <= 0 {
        out
    } else {
        with_associated_types(
            with_objects(out, objects, count - 1),
            objects[count - 1].0,
            objects[count - 1].1,
            objects[count - 1].1.len() as int,
        )
    }
}

fn push_associated_types(out: &mut String, path: &[String], kernels: &[String])
    ensures
        final(out)@ == with_associated_types(
            old(out)@,
            path.deep_view(),
            kernels.deep_view(),
            kernels@.len() as int,
        ),
{
    let ghost before = out@;
    let mut i: usize = 0;
    while i < kernels.len()
        invariant
            i <= kernels@.len(),
            out@ == with_associated_types(
                before,
                path.deep_view(),
                kernels.deep_view(),
                i as int,
            ),
        decreases kernels@.len() - i,
    {
        assert(kernels.deep_view()[i as int] == kernels@[i as int]@);
        text::push_str(out, "type ");
        text::push_str(out, kernels[i].as_str());
        text::push_str(out, "Kernel = ");
        push_path(out, path);
        text::push_str(out, "::");
        text::push_str(out, kernels[i].as_str());
        text::push_str(out, "CpuKernel; ");
        i += 1;
    }
}

/// Where the sources of the kernels are, and where the generated code goes.
#[derive(Debug, PartialEq, Eq)]
pub struct CpuCompiler {
    pub src_dir: String,
    pub build_dir: String,
}

impl CpuCompiler {
    /// The compiler for a package and the directory of what is built for it.
    pub fn new(manifest_dir: &str, out_dir: &str) -> (compiler: CpuCompiler)
        ensures
            compiler.src_dir@ == text::joined(manifest_dir@, "src/backends/cpu/kernel"@),
            compiler.build_dir@ == text::joined(out_dir@, "cpu"@),
    {
        CpuCompiler {
            src_dir: text::join_path(manifest_dir, "src/backends/cpu/kernel"),
            build_dir: text::join_path(out_dir, "cpu"),
        }
    }

    /// The file that the code of a kernel goes to.
    pub fn kernel_file(&self, kernel: &str) -> (file: String)
        ensures
            file@ == text::joined(self.build_dir@, kernel@) + ".rs"@,
    {
        let mut file: String = text::join_path(self.build_dir.as_str(), kernel);
        text::push_str(&mut file, ".rs");
        file
    }

    /// The file that lists the kernels.
    pub fn bindings_file(&self) -> (file: String)
        ensures
            file@ == self.build_dir@ + ".rs"@,
    {
        let mut file: String = text::copy_str(self.build_dir.as_str());
        text::push_str(&mut file, ".rs");
        file
    }

    /// Reads a kernel function, describes it to its callers and generates its code.
    pub fn compile_kernel(&self, source: &str, paths: &EnumPaths) -> (compiled: Result<
        (Kernel, String),
        KernelError,
    >)
        ensures
            match function::function_of(source@) {
                Err(error) => compiled matches Err(found) && found == error,
                Ok(function) => match naming_error(function) {
                    Some(error) => compiled matches Err(found) && found == error,
                    None => match compiled {
                        Ok((kernel, generated)) => kernel.deep_view() == description::kernel_of(
                            function,
                            *paths,
                        ) && is_generated(function, generated@),
                        Err(KernelError::ConstraintSyntax { index }) => function.parameters.len() > 0
                            && constraints::is_refused(
                            selections::values_of(
                                function.variants,
                                function.variants.len() as int,
                            ),
                            function.constraints,
                            index as int,
                        ),
                        Err(KernelError::ConstraintValue { index }) => function.parameters.len() > 0
                            && selections::is_unanswered(
                            function,
                            selections::product(
                                function.variants,
                                function.variants.len() as int,
                            ),
                            Refusal::Condition(index),
                        ),
                        Err(KernelError::VariantValue { index }) => function.parameters.len() > 0
                            && selections::is_unanswered(
                            function,
                            selections::product(
                                function.variants,
                                function.variants.len() as int,
                            ),
                            Refusal::Value(index),
                        ),
                        Err(_) => false,
                    },
                },
            },
    {
        let read: Result<KernelFunction, KernelError> = function::read_kernel_function(source);
        let function: KernelFunction = match read {
            Ok(function) => function,
            Err(error) => {
                return Err(error);
            },
        };
        let ghost model = function.deep_view();
        assert(function.parameters@.len() == function.variants@.len()) by {
            assert(model.parameters.len() == function.parameters@.len());
            assert(model.variants.len() == function.variants@.len());
        }
        if let Some(index) = find_bad_lifetime(&function.arguments) {
            return Err(KernelError::LifetimeName { index });
        }
        let all: Vec<Vec<usize>> = selections::cartesian_product(&function.variants);
        let ghost everything = all.deep_view();
        if all.len() > 0 {
            if let Some((parameter, variant)) = find_bad_data_type(&function) {
                return Err(KernelError::DataTypeName { parameter, variant });
            }
        }
        let kernel: Kernel = description::describe_kernel(&function, paths);
        let keep: Vec<bool> = if function.parameters.len() == 0 {
            selections::keep_all(all.len())
        } else {
            match selections::ask_constraints(&function, &all) {
                Ok(keep) => keep,
                Err(error) => {
                    return Err(error);
                },
            }
        };
        let kept: Vec<Vec<usize>> = selections::keep_selections(&function.variants, all, &keep);
        let generated: String = bindings::emit_bindings(&function, &kept);
        assert(is_generated(model, generated@)) by {
            assert(generated@ == bindings::bindings_of(
                model,
                selections::kept(everything, keep@, keep@.len() as int),
            ));
        }
        Ok((kernel, generated))
    }

    /// The code that lists the kernels of all source files. Each file is given by its path and the names
    /// of its kernels.
    pub fn bindgen(&self, objects: &[(Vec<String>, Vec<String>)]) -> (bindings: String)
        ensures
            bindings@ == with_objects(
                "macro_rules! autogen_kernels { () => { "@,
                objects.deep_view(),
                objects@.len() as int,
            ) + "} }"@,
    {
        let mut out: String = text::copy_str("macro_rules! autogen_kernels { () => { ");
        let ghost before = out@;
        let mut i: usize = 0;
        while i < objects.len()
            invariant
                i <= objects@.len(),
                out@ == with_objects(before, objects.deep_view(), i as int),
            decreases objects@.len() - i,
        {
            assert(objects.deep_view()[i as int] == objects@[i as int].deep_view());
            push_associated_types(&mut out, &objects[i].0, &objects[i].1);
            i += 1;
        }
        text::push_str(&mut out, "} }");
        out
    }
}

/// One of the first `count` items is a kernel of the given text.
pub open spec fn has_kernel(items: Seq<(ItemKind, Seq<char>)>, count: int, kernel: Seq<char>) -> bool {
    exists|i: int|
        0 <= i < count && (#[trigger] items[i]).0 == ItemKind::Function && items[i].1 == kernel && (
        rust_source::function_parts(kernel) matches Some(parts) && function::find_attribute(
            parts.0,
            "kernel"@,
            0,
        ) is Some)
}

proof fn lemma_kernels_among(items: Seq<(ItemKind, Seq<char>)>, count: int)
    requires
        0 <= count <= items.len(),
    ensures
        forall|kernel: Seq<char>|
            #![trigger kernels_among(items, count).contains(kernel)]
            kernels_among(items, count).contains(kernel) <==> has_kernel(items, count, kernel),
        kernels_among(items, count).len() <= count,
    decreases count,
{
    if count > 0 {
        lemma_kernels_among(items, count - 1);
        let before = kernels_among(items, count - 1);
        let all = kernels_among(items, count);
        let item = items[count - 1];
        assert forall|kernel: Seq<char>|
            #![trigger all.contains(kernel)]
            all.contains(kernel) <==> has_kernel(items, count, kernel) by {
            assert(before.contains(kernel) <==> has_kernel(items, count - 1, kernel));
            if all.contains(kernel) {
                let j = choose|j: int| 0 <= j < all.len() && all[j] == kernel;
                if j < before.len() {
                    assert(before[j] == kernel);
                } else {
                    assert(items[count - 1].1 == kernel);
                }
            }
            if has_kernel(items, count, kernel) {
                if before.contains(kernel) {
                    let j = choose|j: int| 0 <= j < before.len() && before[j] == kernel;
                    assert(all[j] == kernel);
                } else {
                    assert(is_kernel(item) && item.1 == kernel);
                    assert(all[all.len() - 1] == kernel);
                }
            }
        }
    }
}

/// The kernels of a source file are those of its functions that have a `kernel` attribute, and no others.
pub proof fn law_marked_functions_are_kernels(
    source: &str,
    kernels: Vec<String>,
    items: Seq<(ItemKind, Seq<char>)>,
    kernel: Seq<char>,
)
    requires
        call_ensures(find_kernels, (source,), Some(kernels)),
        rust_source::items(source@) == Some(items),
    ensures
        kernels.deep_view().contains(kernel) <==> has_kernel(items, items.len() as int, kernel),
        kernels@.len() <= items.len(),
{
    lemma_kernels_among(items, items.len() as int);
    assert(Some(kernels).deep_view() == Some(kernels.deep_view()));
    assert(kernels.deep_view().len() == kernels@.len());
}

proof fn lemma_bad_lifetime(arguments: Seq<FunctionArgument<Seq<char>>>, from: int, at: int)
    requires
        0 <= from <= at < arguments.len(),
    ensures
        bad_lifetime(arguments, from) is None ==> !(arguments[at].ty is Buffer && text::is_raw(
            arguments[at].name,
        )),
        bad_lifetime(arguments, from) matches Some(index) ==> from <= index < arguments.len()
            && arguments[index].ty is Buffer && text::is_raw(arguments[index].name) && (at < index
            ==> !(arguments[at].ty is Buffer && text::is_raw(arguments[at].name))),
    decreases arguments.len() - from,
{
    if !(arguments[from].ty is Buffer && text::is_raw(arguments[from].name)) {
        if from + 1 < arguments.len() {
            lemma_bad_lifetime(
                arguments,
                from + 1,
                if at > from {
                    at
                } else {
                    from + 1
                },
            );
        }
    }
}

/// Code is generated only where the names of all buffers can be those of lifetimes; the first that cannot is
/// named.
pub proof fn law_buffers_are_lifetimes(
    compiler: CpuCompiler,
    source: &str,
    paths: &EnumPaths,
    function: FunctionModel,
    compiled: Result<(Kernel, String), KernelError>,
    at: int,
)
    requires
        call_ensures(CpuCompiler::compile_kernel, (&compiler, source, paths), compiled),
        function::function_of(source@) == Ok::<FunctionModel, KernelError>(function),
        0 <= at < function.arguments.len() <= usize::MAX,
    ensures
        compiled is Ok ==> !(function.arguments[at].ty is Buffer && text::is_raw(
            function.arguments[at].name,
        )),
        function.arguments[at].ty is Buffer && text::is_raw(function.arguments[at].name) ==> (compiled
            matches Err(KernelError::LifetimeName { index }) && index <= at
            && function.arguments[index as int].ty is Buffer && text::is_raw(
            function.arguments[index as int].name,
        )),
{
    lemma_bad_lifetime(function.arguments, 0, at);
}

/// The code of a kernel goes to a file of its name in the directory of what is built, and the list of kernels
/// beside that directory.
pub proof fn law_generated_files(
    manifest_dir: &str,
    out_dir: &str,
    compiler: CpuCompiler,
    kernel: &str,
    file: String,
    list: String,
)
    requires
        call_ensures(CpuCompiler::new, (manifest_dir, out_dir), compiler),
        call_ensures(CpuCompiler::kernel_file, (&compiler, kernel), file),
        call_ensures(CpuCompiler::bindings_file, (&compiler,), list),
    ensures
        file@ == text::joined(text::joined(out_dir@, "cpu"@), kernel@) + ".rs"@,
        list@ == text::joined(out_dir@, "cpu"@) + ".rs"@,
        compiler.src_dir@ == text::joined(manifest_dir@, "src/backends/cpu/kernel"@),
{
}

} // verus!
