//! Kernels of the CPU backend, from source to generated code.
use proc_macro2::TokenStream;
use uzu_engine::build::cpu::compiler::{CpuCompiler, find_kernels};
use uzu_engine::build::cpu::description::EnumPaths;
use uzu_engine::build::cpu::function::{
    FunctionArgumentType, KernelAttributes, KernelError, add_constraint, add_kernel, add_variants,
    assemble_argument, assemble_function, classify_type, parse_type, read_kernel_function,
    unwrap_option,
};
use uzu_engine::build::cpu::selections::{cartesian_product, keep_selections, variant_values};
use uzu_engine::build::kernel::{
    KernelArgumentType, KernelBufferAccess, KernelParameterType,
};
use uzu_engine::build::rust_source::TypeShape;

fn compiler() -> CpuCompiler {
    CpuCompiler::new("/package", "/out")
}

fn no_paths() -> EnumPaths {
    EnumPaths { types: Vec::new() }
}

fn tokens(source: &str) -> String {
    source.parse::<TokenStream>().expect("generated code is made of tokens").to_string()
}

const SCALE: &str = "
    #[kernel(Scale)]
    #[variants(T, f32, bf16)]
    pub fn scale<T: Float>(
        input: *const T,
        #[optional(has_bias)] bias: Option<*const T>,
        output: *mut T,
        factor: f32,
        rows: &[u32],
        extent: &[u32; 3],
        #[specialize] has_bias: bool,
    ) {}
";

#[test]
fn a_kernel_is_described_to_its_callers() {
    let (kernel, _) = compiler().compile_kernel(SCALE, &no_paths()).unwrap();
    assert_eq!(kernel.name, "Scale");
    let parameters: Vec<_> =
        kernel.parameters.iter().map(|parameter| (parameter.name.as_str(), &parameter.ty)).collect();
    assert_eq!(
        parameters,
        vec![
            ("T", &KernelParameterType::Type),
            ("has_bias", &KernelParameterType::Value("bool".to_string())),
        ]
    );
    let arguments: Vec<_> = kernel
        .arguments
        .iter()
        .map(|argument| (argument.name.as_str(), argument.conditional, &argument.ty))
        .collect();
    assert_eq!(
        arguments,
        vec![
            ("input", false, &KernelArgumentType::Buffer(KernelBufferAccess::Read)),
            ("bias", true, &KernelArgumentType::Buffer(KernelBufferAccess::Read)),
            ("output", false, &KernelArgumentType::Buffer(KernelBufferAccess::ReadWrite)),
            ("factor", false, &KernelArgumentType::Constant("f32".to_string())),
            ("rows", false, &KernelArgumentType::Constant("&[u32]".to_string())),
            ("extent", false, &KernelArgumentType::Constant("&[u32; 3]".to_string())),
        ]
    );
}

#[test]
fn the_generated_code_queues_the_function() {
    let (_, generated) = compiler().compile_kernel(SCALE, &no_paths()).unwrap();
    let call = |ty: &str| {
        format!(
            "encoder.as_command_buffer_mut().push_command(move || self::scale::<{ty}>(
                input.as_ptr() as _,
                bias.map(|p| p.as_ptr() as _),
                output.as_ptr() as _,
                factor,
                &*rows,
                &*extent,
                has_bias
            ));"
        )
    };
    let expected = format!(
        "#[allow(non_snake_case)]
        pub struct ScaleCpuKernel {{ T: crate::data_type::DataType, has_bias: bool, }}

        #[allow(clippy::style, clippy::complexity, clippy::perf)]
        impl crate::backends::common::kernel::ScaleKernel for ScaleCpuKernel {{
            type Backend = crate::backends::cpu::Cpu;

            fn new(
                #[allow(unused)] context: &crate::backends::cpu::context::CpuContext,
                #[allow(non_snake_case)] T: crate::data_type::DataType,
                #[allow(non_snake_case)] has_bias: bool
            ) -> Result<Self, crate::backends::cpu::error::CpuError> {{
                Ok(Self {{ T, has_bias, }})
            }}

            fn encode<'input, 'bias, 'output, 'encoder>(
                &self,
                input: impl crate::backends::common::BufferArg<'input, crate::backends::cpu::Cpu>,
                bias: Option<impl crate::backends::common::BufferArg<'bias, crate::backends::cpu::Cpu> >,
                output: impl crate::backends::common::BufferArgMut<'output, crate::backends::cpu::Cpu>,
                factor: f32,
                rows: &[u32],
                extent: &[u32; 3],
                encoder: &'encoder mut crate::backends::common::Encoder<crate::backends::cpu::Cpu>
            ) {{
                let input = unsafe {{
                    let (__dsl_buffer, __dsl_offset, _) = input.into_parts();
                    crate::utils::pointers::SendPtr((&*__dsl_buffer.downcast().get()).as_ptr().byte_add(__dsl_offset))
                }};
                let bias = bias.map(|__dsl_buffer_impl| unsafe {{
                    let (__dsl_buffer, __dsl_offset, _) = __dsl_buffer_impl.into_parts();
                    crate::utils::pointers::SendPtr((&*__dsl_buffer.downcast().get()).as_ptr().byte_add(__dsl_offset))
                }});
                let output = unsafe {{
                    let (__dsl_buffer, __dsl_offset, _) = output.into_parts();
                    crate::utils::pointers::SendPtrMut((&mut *__dsl_buffer.downcast().get()).as_mut_ptr().byte_add(__dsl_offset))
                }};
                let rows = rows.to_vec().into_boxed_slice();
                let extent = Box::new(*extent);
                let has_bias = self.has_bias;
                match self.T {{
                    crate::data_type::DataType::F32 => {{ {} }},
                    crate::data_type::DataType::BF16 => {{ {} }},
                    __dsl_variant => unimplemented!(\"variant doesn't exist: {{__dsl_variant:?}}\"),
                }}
            }}
        }}",
        call("f32"),
        call("bf16"),
    );
    assert_eq!(tokens(&generated), tokens(&expected));
}

#[test]
fn a_function_without_parameters_is_called_directly() {
    let (_, generated) = compiler()
        .compile_kernel("#[kernel(Fill)] fn fill(output: *mut f32, value: f32) {}", &no_paths())
        .unwrap();
    assert!(tokens(&generated).contains(&tokens(
        "encoder.as_command_buffer_mut().push_command(move || self::fill(output.as_ptr() as _, value));"
    )));
    assert!(!generated.contains("match"));
}

#[test]
fn constraints_leave_out_selections() {
    let source = "
        #[kernel(Tile)]
        #[variants(A, 1, 2)]
        #[variants(B, 1, 2)]
        #[constraint(A <= B)]
        fn tile<const A: u32, const B: u32>(n: u32) {}
    ";
    let (_, generated) = compiler().compile_kernel(source, &no_paths()).unwrap();
    let generated = tokens(&generated);
    for kept in ["(1, 1) =>", "(1, 2) =>", "(2, 2) =>"] {
        assert!(generated.contains(&tokens(kept)), "{kept} is missing");
    }
    assert!(!generated.contains(&tokens("(2, 1) =>")));
    assert!(generated.contains(&tokens("self::tile::<2, 2>(n)")));
}

#[test]
fn shared_types_have_one_name_on_both_sides() {
    let paths = EnumPaths {
        types: vec![("Mode".to_string(), "crate :: gpu_types :: Mode".to_string())],
    };
    let source = "#[kernel(Run)] fn run(mode: Mode, other: a::B) {}";
    let (kernel, _) = compiler().compile_kernel(source, &paths).unwrap();
    assert_eq!(
        kernel.arguments[0].ty,
        KernelArgumentType::Constant("crate::gpu_types::Mode".to_string())
    );
    assert_eq!(kernel.arguments[1].ty, KernelArgumentType::Constant("a::B".to_string()));
}

#[test]
fn each_unusable_function_has_its_error() {
    let error = |source: &str| compiler().compile_kernel(source, &no_paths()).err();
    assert_eq!(error("struct S;"), Some(KernelError::NotAFunction));
    assert_eq!(error("fn f() {}"), Some(KernelError::NotAKernel));
    assert_eq!(
        error("#[kernel(A)] #[kernel(B)] fn f() {}"),
        Some(KernelError::MultipleKernelAttributes)
    );
    assert_eq!(error("#[kernel] fn f() {}"), Some(KernelError::KernelAttribute));
    assert_eq!(error("#[kernel(1)] fn f() {}"), Some(KernelError::KernelAttribute));
    assert_eq!(
        error("#[kernel(A)] #[variants] fn f<T>() {}"),
        Some(KernelError::VariantsAttribute)
    );
    assert_eq!(
        error("#[kernel(A)] #[variants()] fn f<T>() {}"),
        Some(KernelError::MissingVariantName)
    );
    assert_eq!(
        error("#[kernel(A)] #[variants(1, 2)] fn f<T>() {}"),
        Some(KernelError::VariantName)
    );
    assert_eq!(
        error("#[kernel(A)] #[constraint(+)] fn f() {}"),
        Some(KernelError::ConstraintAttribute)
    );
    assert_eq!(error("#[kernel(A)] fn f<'a>() {}"), Some(KernelError::UnsupportedParameter));
    assert_eq!(error("#[kernel(A)] fn f(self) {}"), Some(KernelError::SelfArgument));
    assert_eq!(error("#[kernel(A)] fn f((a, b): u32) {}"), Some(KernelError::ArgumentPattern));
    assert_eq!(error("#[kernel(A)] fn f(mut a: u32) {}"), Some(KernelError::ArgumentBinding));
    assert_eq!(
        error("#[kernel(A)] fn f(#[optional] a: Option<u32>) {}"),
        Some(KernelError::OptionalAttribute)
    );
    assert_eq!(
        error("#[kernel(A)] fn f(#[optional(x)] a: *const u32) {}"),
        Some(KernelError::ConditionalPath)
    );
    assert_eq!(
        error("#[kernel(A)] fn f(#[optional(x)] a: std::option::Option<u32>) {}"),
        Some(KernelError::ConditionalSegments)
    );
    assert_eq!(
        error("#[kernel(A)] fn f(#[optional(x)] a: Vec<u32>) {}"),
        Some(KernelError::ConditionalOption)
    );
    assert_eq!(
        error("#[kernel(A)] fn f(#[optional(x)] a: Option) {}"),
        Some(KernelError::ConditionalBrackets)
    );
    assert_eq!(
        error("#[kernel(A)] fn f(#[optional(x)] a: Option<u32, u32>) {}"),
        Some(KernelError::ConditionalArguments)
    );
    assert_eq!(
        error("#[kernel(A)] fn f(#[optional(x)] a: Option<'a>) {}"),
        Some(KernelError::ConditionalType)
    );
    assert_eq!(error("#[kernel(A)] fn f(a: &u32) {}"), Some(KernelError::UnsupportedReference));
    assert_eq!(error("#[kernel(A)] fn f(a: (u32,)) {}"), Some(KernelError::UnsupportedType));
    assert_eq!(
        error("#[kernel(A)] fn f<T>() {}"),
        Some(KernelError::VariantCount { parameters: 1, variants: 0 })
    );
    assert_eq!(
        error("#[kernel(A)] #[variants(U, f32)] fn f<T>() {}"),
        Some(KernelError::VariantMismatch { index: 0 })
    );
    assert_eq!(
        error("#[kernel(A)] #[variants(T, half::bf16)] fn f<T>() {}"),
        Some(KernelError::DataTypeName { parameter: 0, variant: 0 })
    );
    assert_eq!(
        error("#[kernel(A)] fn f(a: u32, r#in: *const u32) {}"),
        Some(KernelError::LifetimeName { index: 1 })
    );
    assert_eq!(
        error("#[kernel(A)] #[variants(N, 1)] #[constraint(N as u8)] fn f<const N: u32>() {}"),
        Some(KernelError::ConstraintSyntax { index: 0 })
    );
    assert_eq!(
        error("#[kernel(A)] #[variants(N, 1)] #[constraint(M > 1)] fn f<const N: u32>() {}"),
        Some(KernelError::ConstraintValue { index: 0 })
    );
    let waits = "sleep(9223372036854775807)";
    assert_eq!(
        error(&format!(
            "#[kernel(A)] #[variants(N, {waits})] #[constraint(N > 1)] fn f<const N: u32>() {{}}"
        )),
        Some(KernelError::VariantValue { index: 0 })
    );
    assert_eq!(
        error(&format!(
            "#[kernel(A)] #[variants(N, 1)] #[constraint(N > {waits})] fn f<const N: u32>() {{}}"
        )),
        Some(KernelError::ConstraintSyntax { index: 0 })
    );
}

#[test]
fn without_constraints_no_value_is_evaluated() {
    let source = "#[kernel(A)] #[variants(N, sleep(9223372036854775807))] fn f<const N: u32>() {}";
    assert!(compiler().compile_kernel(source, &no_paths()).is_ok());
}

#[test]
fn types_of_arguments_are_told_apart() {
    assert_eq!(
        parse_type("*mut f32"),
        Ok(FunctionArgumentType::Buffer(KernelBufferAccess::ReadWrite))
    );
    assert_eq!(parse_type("&[u32]"), Ok(FunctionArgumentType::Slice("u32".to_string())));
    assert_eq!(
        parse_type("& [u32 ; 4]"),
        Ok(FunctionArgumentType::Array { item: "u32".to_string(), length: "4".to_string() })
    );
    assert_eq!(parse_type("u32"), Ok(FunctionArgumentType::Scalar("u32".to_string())));
    let function = read_kernel_function(SCALE).unwrap();
    assert_eq!(function.function, "scale");
    assert_eq!(function.parameters, vec![("T".to_string(), None)]);
    assert_eq!(
        function.variants,
        vec![("T".to_string(), vec!["f32".to_string(), "bf16".to_string()])]
    );
}

#[test]
fn only_kernel_functions_are_found() {
    let source = "
        use std::ops::Add;
        fn helper() {}
        #[inline] #[kernel(A)] fn a() {}
        struct S;
        #[kernel(B)] fn b() {}
    ";
    let kernels = find_kernels(source).unwrap();
    assert_eq!(kernels.len(), 2);
    assert_eq!(read_kernel_function(&kernels[1]).unwrap().kernel, "B");
    assert!(find_kernels("fn (").is_none());
}

#[test]
fn the_last_variant_list_varies_fastest() {
    let list = |values: &[&str]| values.iter().map(|value| value.to_string()).collect::<Vec<_>>();
    let variants =
        vec![("A".to_string(), list(&["x", "y"])), ("B".to_string(), list(&["1", "2", "3"]))];
    let selections = cartesian_product(&variants);
    assert_eq!(
        selections,
        vec![vec![0, 0], vec![0, 1], vec![0, 2], vec![1, 0], vec![1, 1], vec![1, 2]]
    );
    assert_eq!(variant_values(&variants), list(&["x", "y", "1", "2", "3"]));
    let kept = keep_selections(&variants, selections, &[true, false, false, false, false, true]);
    assert_eq!(kept, vec![vec![0, 0], vec![1, 2]]);
}

#[test]
fn all_kernels_are_listed_by_their_paths() {
    let objects = vec![
        (vec!["attention".to_string(), "prepare".to_string()], vec!["Prepare".to_string()]),
        (vec!["moe".to_string()], Vec::new()),
    ];
    assert_eq!(
        tokens(&compiler().bindgen(&objects)),
        tokens(
            "macro_rules! autogen_kernels {
                () => { type PrepareKernel = attention::prepare::PrepareCpuKernel; }
            }"
        )
    );
    assert_eq!(compiler().kernel_file("Scale"), "/out/cpu/Scale.rs");
    assert_eq!(compiler().bindings_file(), "/out/cpu.rs");
    assert_eq!(compiler().src_dir, "/package/src/backends/cpu/kernel");
}

fn attributes(kernel: Option<&str>, variants: &[&str]) -> KernelAttributes {
    KernelAttributes {
        kernel: kernel.map(str::to_string),
        variants: variants.iter().map(|name| (name.to_string(), Vec::new())).collect(),
        constraints: Vec::new(),
    }
}

#[test]
fn attributes_are_added_one_by_one() {
    let mut state = attributes(None, &[]);
    assert_eq!(add_kernel(&mut state, None), Err(KernelError::KernelAttribute));
    assert_eq!(add_kernel(&mut state, Some("A".to_string())), Ok(()));
    assert_eq!(
        add_kernel(&mut state, Some("B".to_string())),
        Err(KernelError::MultipleKernelAttributes)
    );
    assert_eq!(add_variants(&mut state, None, None), Err(KernelError::VariantsAttribute));
    assert_eq!(
        add_variants(&mut state, Some(Vec::new()), None),
        Err(KernelError::MissingVariantName)
    );
    let list = || Some(vec!["T".to_string(), "f32".to_string()]);
    assert_eq!(add_variants(&mut state, list(), None), Err(KernelError::VariantName));
    assert_eq!(add_variants(&mut state, list(), Some("T".to_string())), Ok(()));
    assert_eq!(add_constraint(&mut state, None), Err(KernelError::ConstraintAttribute));
    assert_eq!(add_constraint(&mut state, Some("T > 1".to_string())), Ok(()));
    assert_eq!(state.kernel.as_deref(), Some("A"));
    assert_eq!(state.variants, vec![("T".to_string(), vec!["f32".to_string()])]);
    assert_eq!(state.constraints, vec!["T > 1".to_string()]);
}

#[test]
fn arguments_are_assembled_from_their_parts() {
    let binding = |mutable| Some(("a".to_string(), false, mutable, false));
    let scalar = || classify_type(Some(TypeShape::Path), None, "u32");
    let assemble = |binding, condition, specialized| {
        assemble_argument(binding, condition, specialized, "u32".to_string(), scalar())
    };
    let plain = assemble(binding(false), None, false).unwrap();
    assert_eq!((plain.name.as_str(), plain.optional), ("a", false));
    assert_eq!(plain.ty, FunctionArgumentType::Scalar("u32".to_string()));
    assert_eq!(
        assemble(binding(false), Some(true), true).unwrap().ty,
        FunctionArgumentType::Specialization("u32".to_string())
    );
    assert_eq!(assemble(None, None, false).err(), Some(KernelError::ArgumentPattern));
    assert_eq!(assemble(binding(true), None, false).err(), Some(KernelError::ArgumentBinding));
    assert_eq!(
        assemble(binding(false), Some(false), false).err(),
        Some(KernelError::OptionalAttribute)
    );
    let reference = || Some(TypeShape::Reference { target: "[u32]".to_string() });
    let slice = || Some(TypeShape::Slice { element: "u32".to_string() });
    assert_eq!(
        classify_type(reference(), slice(), "&[u32]"),
        Ok(FunctionArgumentType::Slice("u32".to_string()))
    );
    assert_eq!(classify_type(reference(), None, "&u32"), Err(KernelError::UnsupportedReference));
    assert_eq!(classify_type(None, None, "+"), Err(KernelError::UnsupportedType));
    let option = |arguments| vec![("Option".to_string(), arguments)];
    assert_eq!(
        unwrap_option(&option(Some(vec![(true, "u32".to_string())]))),
        Ok("u32".to_string())
    );
    assert_eq!(unwrap_option(&option(None)), Err(KernelError::ConditionalBrackets));
    assert_eq!(unwrap_option(&[]), Err(KernelError::ConditionalSegments));
}

#[test]
fn the_first_unreadable_part_of_a_function_is_reported() {
    let parameters = |names: &[&str]| Ok(names.iter().map(|name| (name.to_string(), None)).collect());
    let assemble = |attributes, parameters| {
        assemble_function(attributes, "f".to_string(), parameters, Ok(Vec::new()))
    };
    let function =
        assemble(Ok(attributes(Some("A"), &["T"])), parameters(&["T"])).unwrap();
    assert_eq!((function.kernel.as_str(), function.function.as_str()), ("A", "f"));
    assert_eq!(
        assemble(Err(KernelError::VariantName), Err(KernelError::UnsupportedParameter)).err(),
        Some(KernelError::VariantName)
    );
    assert_eq!(
        assemble(Ok(attributes(None, &[])), Err(KernelError::UnsupportedParameter)).err(),
        Some(KernelError::NotAKernel)
    );
    assert_eq!(
        assemble(Ok(attributes(Some("A"), &["T"])), parameters(&[])).err(),
        Some(KernelError::VariantCount { parameters: 0, variants: 1 })
    );
    assert_eq!(
        assemble(Ok(attributes(Some("A"), &["T", "U"])), parameters(&["T", "V"])).err(),
        Some(KernelError::VariantMismatch { index: 1 })
    );
}

#[test]
fn attributes_inside_of_the_body_count() {
    let source = "
        fn outside() {}
        #[variants(T, f32)]
        fn inside<T>(a: *const T) {
            #![kernel(Inside)]
            #![allow(unused)]
        }
    ";
    let kernels = find_kernels(source).unwrap();
    assert_eq!(kernels.len(), 1);
    let (kernel, _) = compiler().compile_kernel(&kernels[0], &no_paths()).unwrap();
    assert_eq!(kernel.name, "Inside");
    assert_eq!(kernel.parameters[0].name, "T");
    assert_eq!(
        compiler().compile_kernel("#[kernel(A)] fn f() { #![kernel(B)] }", &no_paths()).err(),
        Some(KernelError::MultipleKernelAttributes)
    );
    assert_eq!(
        compiler().compile_kernel("fn f() { # ! [kernel(1)] }", &no_paths()).err(),
        Some(KernelError::KernelAttribute)
    );
}

#[test]
fn errors_say_what_is_wrong() {
    let message = |source: &str| {
        compiler().compile_kernel(source, &no_paths()).err().map(|error| error.message(source))
    };
    assert_eq!(message("#[kernel(A)] fn f() {}"), None);
    let say = |source: &str| message(source).expect("no kernel");
    assert_eq!(say("fn f() {}"), "Not a kernel");
    assert_eq!(say("struct S;"), "cannot parse ast");
    assert_eq!(say("#[kernel(A)] #[kernel(B)] fn f() {}"), "Multiple kernel attributes!");
    assert_eq!(say("#[kernel(1)] fn f() {}"), "cannot parse kernel attribute arg");
    assert_eq!(
        say("#[kernel(A)] #[variants(1, 2)] fn f<T>() {}"),
        "variant name must be an identifier"
    );
    assert_eq!(
        say("#[kernel(A)] fn f(mut a: u32) {}"),
        "kernel argument name must be a plain identifier"
    );
    assert_eq!(
        say("#[kernel(A)] fn f(#[optional(x)] a: Vec<u32>) {}"),
        "conditional argument type must be Option<...>"
    );
    assert_eq!(say("#[kernel(A)] fn f(a: &u32) {}"), "unsupported reference type");
    assert_eq!(
        say("#[kernel(A)] #[variants(T, f32)] fn f<T, U>() {}"),
        "Kernel function has 2 generics != 1 #[variants(...)]!"
    );
    assert_eq!(
        say("#[kernel(A)] #[variants(T, f32)] #[variants(V, f32)] fn f<T, U>() {}"),
        "Parameter name doesn't match variant name: U | V"
    );
    assert_eq!(
        say("#[kernel(A)] #[variants(T, f32, half::bf16)] fn f<T>() {}"),
        "variant `half :: bf16` of T is not the name of a data type"
    );
    assert_eq!(
        say("#[kernel(A)] fn f(a: u32, r#in: *const u32) {}"),
        "argument `r#in` is not the name of a lifetime"
    );
    assert_eq!(
        say("#[kernel(A)] #[variants(N, 1)] #[constraint(N as u8)] fn f<const N: u32>() {}"),
        "constraint `N as u8` failed to compile"
    );
    assert_eq!(
        say("#[kernel(A)] #[variants(N, 1)] #[constraint(M > 1)] fn f<const N: u32>() {}"),
        "constraint `M > 1` failed to evaluate"
    );
    assert_eq!(KernelError::VariantMismatch { index: 7 }.message("").len(), 46);
}
