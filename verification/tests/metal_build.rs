//! The build of the Metal backend.
use proc_macro2::TokenStream;
use uzu_engine::build::kernel::KernelBufferAccess;
use uzu_engine::build::metal::bindgen::code::{KernelLibrary, bindgen, bindgen_global};
use uzu_engine::build::metal::bindgen::dispatch;
use uzu_engine::build::metal::bindgen::host_arguments::{
    host_expressions, replace_host_expressions,
};
use uzu_engine::build::metal::bindgen::host_expression::{HostExpressionRewriter, HostPath};
use uzu_engine::build::metal::bindgen::kernel_info::{
    BindgenError, MetalArgument, MetalArgumentType, MetalConstantType, MetalKernelInfo,
    SpecializeLowering, element_count, split_dimensions,
};
use uzu_engine::build::metal::bindgen::variants;
use uzu_engine::build::metal::compiler::{
    KernelWrappers, MetalCompiler, RecordedDependency, VariantSource, order_files, parallel_jobs,
    shard_count, shard_footers,
};
use uzu_engine::build::metal::toolchain::{
    CommandOutput, MetalSdk, MetalStd, MetalToolchain, ToolchainError, compile_answer,
    dependencies, optimization_flags, version_questions,
};
use uzu_engine::build::plan::{BuildPlan, Features};
use xxhash_rust::xxh3::xxh3_64;

fn strings(values: &[&str]) -> Vec<String> {
    values.iter().map(|value| value.to_string()).collect()
}

fn tokens(source: &str) -> String {
    source.parse::<TokenStream>().expect("generated code is made of tokens").to_string()
}

#[test]
fn the_kit_is_chosen_by_the_target() {
    let sdk = |target: &str, os: &str, env: &str| MetalSdk::from_parts(target, os, env);
    assert_eq!(sdk("aarch64-apple-darwin", "macos", ""), Some(MetalSdk::MacOSX));
    assert_eq!(sdk("aarch64-apple-ios", "ios", ""), Some(MetalSdk::IPhoneOS));
    assert_eq!(sdk("aarch64-apple-ios-sim", "ios", "sim"), Some(MetalSdk::IPhoneSimulator));
    assert_eq!(sdk("x86_64-apple-ios", "ios", ""), Some(MetalSdk::IPhoneSimulator));
    assert_eq!(sdk("aarch64-apple-ios-macabi", "ios", ""), Some(MetalSdk::MacCatalyst));
    assert_eq!(sdk("aarch64-apple-ios", "ios", "macabi"), Some(MetalSdk::MacCatalyst));
    assert_eq!(sdk("x86_64-unknown-linux-gnu", "linux", "gnu"), None);
    assert_eq!(MetalSdk::MacCatalyst.to_str(), "maccatalyst");
    assert_eq!(MetalSdk::MacCatalyst.os(), "macosx");
    assert_eq!(MetalSdk::IPhoneSimulator.os(), "ios");
    assert_eq!(MetalStd::Metal4_0.to_str(), "metal4.0");
    assert_eq!(MetalStd::Metal4_0.min_os(), "26.4");
}

fn answers() -> Vec<CommandOutput> {
    ["metal 1", "26.4", "25E1"]
        .iter()
        .map(|answer| CommandOutput {
            success: true,
            stdout: answer.as_bytes().to_vec(),
            stderr: Vec::new(),
        })
        .collect()
}

fn toolchain(debug: &str, outputs: &[CommandOutput]) -> Result<MetalToolchain, ToolchainError> {
    MetalToolchain::new(
        "aarch64-apple-darwin",
        "macos",
        "",
        "3",
        debug,
        Some("/headers".to_string()),
        outputs,
    )
}

#[test]
fn a_toolchain_is_recognized_by_all_that_it_depends_on() {
    let toolchain = toolchain("false", &answers()).unwrap();
    let message = b"macosx\0metal4.0\0-O2\0-mmacosx-version-min=26.4\0metal 1\0\0".to_vec();
    let message = [message, b"26.4\0\0".to_vec(), b"25E1\0\0".to_vec()].concat();
    assert_eq!(toolchain.cache_key(), blake3::hash(&message).as_bytes());
    assert_eq!(
        toolchain.compile_arguments("a.metal", "a.metallib"),
        strings(&[
            "-sdk",
            "macosx",
            "metal",
            "-x",
            "metal",
            "-std=metal4.0",
            "-mmacosx-version-min=26.4",
            "-O2",
            "-I",
            "/headers",
            "-include",
            "a.metal",
            "-",
            "-o",
            "a.metallib",
        ])
    );
    assert_eq!(
        toolchain.analyze_arguments("a.metal", "a.d"),
        strings(&[
            "-sdk",
            "macosx",
            "metal",
            "-x",
            "metal",
            "-std=metal4.0",
            "-mmacosx-version-min=26.4",
            "-I",
            "/headers",
            "-DDSL_ANALYZE",
            "a.metal",
            "-fsyntax-only",
            "-MMD",
            "-MF",
            "a.d",
            "-Xclang",
            "-ast-dump=json",
        ])
    );
}

#[test]
fn each_missing_part_of_a_toolchain_has_its_error() {
    assert_eq!(toolchain("maybe", &answers()).err(), Some(ToolchainError::Debug));
    let mut outputs = answers();
    outputs.truncate(2);
    outputs[1].success = false;
    assert_eq!(
        toolchain("true", &outputs).err(),
        Some(ToolchainError::Version { question: 1 })
    );
    assert_eq!(
        MetalToolchain::new("x", "linux", "", "0", "true", None, &answers()).err(),
        Some(ToolchainError::Sdk)
    );
}

#[test]
fn flags_follow_the_profile() {
    assert_eq!(optimization_flags("0", "false"), Some(strings(&["-O1"])));
    assert_eq!(
        optimization_flags("s", "true"),
        Some(strings(&["-O2", "-gline-tables-only", "-frecord-sources"]))
    );
    assert_eq!(optimization_flags("0", "1"), None);
    assert_eq!(
        version_questions(MetalSdk::IPhoneOS)[0],
        strings(&["-sdk", "iphoneos", "metal", "--version"])
    );
    assert_eq!(version_questions(MetalSdk::IPhoneOS).len(), 3);
}

#[test]
fn answers_of_the_compiler_are_warnings_or_failures() {
    assert_eq!(compile_answer(true, String::new()), Ok(None));
    assert_eq!(compile_answer(true, "w".to_string()), Ok(Some("w".to_string())));
    assert_eq!(compile_answer(false, "e".to_string()), Err("e".to_string()));
}

#[test]
fn dependencies_are_those_of_all_targets() {
    assert_eq!(
        dependencies("a.o: a.metal \\\n  b\\ c.h\nd.o: e.h\n"),
        Some(strings(&["a.metal", "b c.h", "e.h"]))
    );
    assert_eq!(dependencies("\r"), None);
}

#[test]
fn shards_keep_all_processors_busy() {
    assert_eq!(shard_count(0, 8), 0);
    assert_eq!(shard_count(1, 8), 1);
    assert_eq!(shard_count(40, 8), 5);
    assert_eq!(shard_count(64, 8), 8);
    assert_eq!(shard_count(500, 8), 8);
    assert_eq!(shard_count(600, 8), 16);
    assert_eq!(shard_count(65, 1), 2);
}

fn wrappers(names: &[&str]) -> KernelWrappers {
    KernelWrappers {
        header: Some("[".to_string()),
        variants: names
            .iter()
            .map(|name| VariantSource { name: name.to_string(), source: format!("<{name}>") })
            .collect(),
        footer: Some("]".to_string()),
    }
}

#[test]
fn every_instance_stands_in_the_shard_of_its_name() {
    let names: Vec<String> = (0..20).map(|index| format!("kernel_{index}")).collect();
    let names: Vec<&str> = names.iter().map(String::as_str).collect();
    let footers = shard_footers(&[wrappers(&names)], 4);
    assert_eq!(footers.len(), 3);
    for (shard, footer) in footers.iter().enumerate() {
        let inside: String = names
            .iter()
            .filter(|name| xxh3_64(name.as_bytes()) % 3 == shard as u64)
            .map(|name| format!("<{name}>"))
            .collect();
        let expected = if inside.is_empty() { String::new() } else { format!("[{inside}]") };
        assert_eq!(footer, &expected);
    }
}

fn compiler(opt_level: &str) -> MetalCompiler {
    MetalCompiler::new("/package", "/out", opt_level, b"system", b"tools")
}

#[test]
fn what_is_built_is_recognized() {
    let compiler = compiler("3");
    assert!(compiler.metallib_compressed);
    assert_eq!(compiler.cache_key, blake3::hash(b"systemtools\x01").as_bytes().to_vec());
    assert_eq!(compiler.source_directory, "/package/src/backends/metal/kernel");
    assert_eq!(compiler.output_directory, "/out/metal");
    let files = strings(&["a.metal", "b.h", "a.metal"]);
    let contents = vec![b"old".to_vec(), b"header".to_vec(), b"new".to_vec()];
    let recorded = compiler.record_dependencies(&files, &contents);
    let digest = |bytes: &[u8]| blake3::hash(bytes).as_bytes().to_vec();
    assert_eq!(
        recorded,
        vec![
            RecordedDependency { path: "a.metal".to_string(), digest: digest(b"new") },
            RecordedDependency { path: "b.h".to_string(), digest: digest(b"header") },
        ]
    );
    let now = |a: Option<&[u8]>| vec![a.map(<[u8]>::to_vec), Some(b"header".to_vec())];
    assert!(compiler.is_current(&compiler.cache_key, &recorded, &now(Some(b"new"))));
    assert!(!compiler.is_current(&compiler.cache_key, &recorded, &now(Some(b"other"))));
    assert!(!compiler.is_current(&compiler.cache_key, &recorded, &now(None)));
    assert!(!compiler.is_current(b"else", &recorded, &now(Some(b"new"))));
}

#[test]
fn libraries_are_named_by_their_shards() {
    assert_eq!(
        compiler("0").artifacts("/out/metal/gemm", 1),
        vec![("/out/metal/gemm.metallib".to_string(), "/out/metal/gemm.metallib".to_string())]
    );
    assert_eq!(
        compiler("s").artifacts("/out/a.b/gemm.x", 2)[1],
        (
            "/out/a.b/gemm.shard1.metallib".to_string(),
            "/out/a.b/gemm.shard1.metallib.zst".to_string()
        )
    );
    let name = compiler("0").library_const("gemm.metal");
    let hex = blake3::hash(b"gemm.metal").to_hex().to_uppercase();
    assert_eq!(name, format!("MTLB_{hex}"));
}

#[test]
fn compression_can_be_undone() {
    let library = vec![7u8; 4096];
    assert_eq!(compiler("0").embed(library.clone()), Some(library.clone()));
    let embedded = compiler("3").embed(library.clone()).unwrap();
    assert!(embedded.len() < library.len());
    assert_eq!(zstd::decode_all(&embedded[..]).unwrap(), library);
    assert_eq!(zstd::encode_all(&library[..], 22).unwrap(), embedded);
}

#[test]
fn a_source_file_without_kernels_needs_no_library() {
    assert_eq!(compiler("0").plan_library("a.metal", "/out/metal/a", &[], 4), None);
    let plan = compiler("0").plan_library("a.metal", "/out/metal/a", &[wrappers(&["k"])], 4).unwrap();
    assert_eq!(plan.footers, vec!["[<k>]".to_string()]);
    assert_eq!(plan.variants, 1);
    assert_eq!(plan.artifacts.len(), 1);
    assert_eq!(plan.library_const, compiler("0").library_const("a.metal"));
}

#[test]
fn the_code_of_a_file_embeds_its_libraries() {
    let artifacts = vec![
        ("a".to_string(), "/out/\"a\".zst".to_string()),
        ("b".to_string(), "/out/b.zst".to_string()),
    ];
    let code = compiler("3").write_bindings("LIB", &artifacts, &strings(&["struct A;", "struct B;"]));
    assert_eq!(
        tokens(&code),
        tokens(
            "const LIB: [&[u8]; 2usize] =
                [include_bytes!(\"/out/\\\"a\\\".zst\"), include_bytes!(\"/out/b.zst\")];
            struct A;
            struct B;"
        )
    );
}

#[test]
fn files_are_ordered_part_by_part() {
    let paths = vec![
        strings(&["b", "x.rs"]),
        strings(&["a-b.rs"]),
        strings(&["a", "z.rs"]),
        strings(&["a", "b.rs"]),
    ];
    assert_eq!(order_files(&paths, &[true, true, true, true]), vec![3, 2, 1, 0]);
    assert_eq!(order_files(&paths, &[true, false, true, false]), vec![2, 0]);
    assert_eq!(parallel_jobs(Some(4), 8), 4);
    assert_eq!(parallel_jobs(Some(0), 8), 8);
    assert_eq!(parallel_jobs(Some(12), 8), 8);
    assert_eq!(parallel_jobs(None, 8), 8);
}

fn path(segments: &[(&str, bool)]) -> HostPath {
    HostPath {
        leading_colon: false,
        segments: segments.iter().map(|(name, has)| (name.to_string(), *has)).collect(),
    }
}

#[test]
fn names_in_host_expressions_stand_for_fields() {
    let mut rewriter = HostExpressionRewriter::new(
        vec![("BLOCK".to_string(), "block".to_string())],
        strings(&["causal"]),
    );
    assert_eq!(rewriter.resolve(&path(&[("BLOCK", false)]), None), Some("self.block".to_string()));
    assert_eq!(
        rewriter.resolve(&path(&[("causal", false)]), None),
        Some("self.specialize_causal".to_string())
    );
    assert_eq!(rewriter.resolve(&path(&[("n", false)]), None), None);
    assert_eq!(rewriter.resolve(&path(&[("a", false), ("BLOCK", false)]), None), None);
    assert_eq!(rewriter.resolve(&path(&[("BLOCK", true)]), None), None);
    assert_eq!(
        rewriter.resolve(&path(&[("Mode", false), ("A", false)]), Some("x::Mode::A".to_string())),
        Some("x::Mode::A".to_string())
    );
    let leading = HostPath { leading_colon: true, ..path(&[("BLOCK", false)]) };
    assert_eq!(rewriter.resolve(&leading, None), None);
    assert_eq!(rewriter.finish(), strings(&["BLOCK", "causal"]));
}

#[test]
fn dimensions_are_multiplied() {
    assert_eq!(split_dimensions("a][b + 1][4"), strings(&["a", "b + 1", "4"]));
    assert_eq!(split_dimensions(""), strings(&[""]));
    assert_eq!(element_count(&strings(&["a"])), "a");
    assert_eq!(element_count(&strings(&["a", "b", "4"])), "((a) * (b)) * (4)");
}

fn argument(name: &str, argument_type: MetalArgumentType<String>) -> MetalArgument<String> {
    MetalArgument { name: name.to_string(), condition: None, argument_type }
}

fn optional(name: &str, argument_type: MetalArgumentType<String>) -> MetalArgument<String> {
    MetalArgument {
        name: name.to_string(),
        condition: Some(format!("use_{name}")),
        argument_type,
    }
}

fn kernel(public: bool, arguments: Vec<MetalArgument<String>>) -> MetalKernelInfo {
    MetalKernelInfo {
        name: "Scale".to_string(),
        public,
        variants: vec![
            ("T".to_string(), None),
            ("BLOCK".to_string(), Some("u32".to_string())),
        ],
        arguments,
    }
}

fn library(num_shards: usize) -> KernelLibrary {
    KernelLibrary { library_const: "LIB".to_string(), num_shards, compressed: true }
}

fn generate(kernel: &MetalKernelInfo, referenced: &[&str], shards: usize) -> Result<String, BindgenError> {
    bindgen(kernel, Some(3), "mangle(T)", &strings(referenced), &library(shards))
}

#[test]
fn the_generated_code_encodes_a_kernel() {
    let kernel = kernel(
        true,
        vec![
            argument("input", MetalArgumentType::Buffer(KernelBufferAccess::Read)),
            optional("bias", MetalArgumentType::Buffer(KernelBufferAccess::ReadWrite)),
            argument(
                "n",
                MetalArgumentType::Constant {
                    rust_type: "u32".to_string(),
                    constant_type: MetalConstantType::Scalar,
                },
            ),
            optional(
                "rows",
                MetalArgumentType::Constant {
                    rust_type: "u32".to_string(),
                    constant_type: MetalConstantType::SizedArray("4".to_string()),
                },
            ),
            optional(
                "cache",
                MetalArgumentType::Shared {
                    element_count: Some("n".to_string()),
                    element_size: Some(4),
                },
            ),
            argument(
                "use_bias",
                MetalArgumentType::Specialize {
                    constant: "bool".to_string(),
                    lowering: SpecializeLowering::Direct,
                },
            ),
            argument(
                "mode",
                MetalArgumentType::Specialize {
                    constant: "Mode".to_string(),
                    lowering: SpecializeLowering::Enum,
                },
            ),
            argument(
                "x",
                MetalArgumentType::Axis {
                    total: "n".to_string(),
                    per_group: "self.block".to_string(),
                },
            ),
        ],
    );
    let expected = "
        pub struct ScaleMetalKernel {
            pipeline: Retained<ProtocolObject<dyn MTLComputePipelineState>>,
            has_bias: bool,
            has_rows: bool,
            has_cache: bool,
            block: u32,
            specialize_use_bias: bool,
        }

        #[allow(clippy::style, clippy::complexity, clippy::perf)]
        impl crate::backends::common::kernel::ScaleKernel for ScaleMetalKernel {
            type Backend = crate::backends::metal::Metal;

            fn new(
                context: &MetalContext,
                #[allow(non_snake_case)] T: crate::data_type::DataType,
                #[allow(non_snake_case)] BLOCK: u32,
                use_bias: bool,
                mode: Mode
            ) -> Result<Self, MetalError> {
                let entry_name = mangle(T);
                let function_constants = MTLFunctionConstantValues::new();
                function_constants.set_value(&use_bias, 3usize);
                function_constants.set_value(&(mode as u32), 4usize);
                let pipeline = context.compute_pipeline_state(
                    LIB[(xxhash_rust::xxh3::xxh3_64(entry_name.as_bytes()) % 2u64) as usize],
                    true,
                    &format!(\"{}_{:?}_{:?}\", &entry_name, use_bias, mode),
                    &entry_name,
                    Some(&function_constants)
                )?;
                Ok(Self {
                    pipeline,
                    has_bias: use_bias,
                    has_rows: use_rows,
                    has_cache: use_cache,
                    block: BLOCK,
                    specialize_use_bias: use_bias
                })
            }

            fn encode<'input, 'bias, 'encoder>(
                &self,
                input: impl crate::backends::common::BufferArg<'input, crate::backends::metal::Metal>,
                bias: Option<impl crate::backends::common::BufferArgMut<'bias, crate::backends::metal::Metal> >,
                n: u32,
                rows: Option<&[u32; 4] >,
                encoder: &'encoder mut crate::backends::common::Encoder<crate::backends::metal::Metal>
            ) {
                if (n) == 0 || (self.block) == 0 { return; };
                encoder.push_debug_group(\"Scale\");
                let input = input.into_parts();
                let bias = bias.map(|bias| bias.into_parts());
                encoder.access(&[
                    Some(crate::backends::common::Access {
                        range: input.0.gpu_address_subrange((input.1)..(input.1 + input.2)),
                        flags: crate::backends::common::AccessFlags {
                            compute_read: true,
                            compute_write: false,
                            copy_read: false,
                            copy_write: false,
                        },
                    }),
                    bias.as_ref().map(|bias| crate::backends::common::Access {
                        range: bias.0.gpu_address_subrange((bias.1)..(bias.1 + bias.2)),
                        flags: crate::backends::common::AccessFlags {
                            compute_read: true,
                            compute_write: true,
                            copy_read: false,
                            copy_write: false,
                        },
                    })
                ].into_iter().flatten().collect::<Vec<_>>());
                let compute_encoder = encoder.as_command_buffer_mut().ensure_compute();
                compute_encoder.set_compute_pipeline_state(&self.pipeline);
                compute_encoder.set_buffer(Some(input.0.downcast()), input.1, 0usize);
                assert!(bias.is_some() == self.has_bias);
                if let Some(bias) = bias {
                    compute_encoder.set_buffer(Some(bias.0.downcast()), bias.1, 1usize);
                }
                compute_encoder.set_value(&n, 2usize);
                assert!(rows.is_some() == self.has_rows);
                if let Some(rows) = rows {
                    compute_encoder.set_slice(rows, 3usize);
                }
                if self.has_cache {
                    compute_encoder.set_threadgroup_memory_length(
                        (((n) as usize) * 4usize).div_ceil(16) * 16, 0usize
                    );
                }
                compute_encoder.dispatch_threads(
                    MTLSize::new((n) as usize, (1) as usize, (1) as usize, ),
                    MTLSize::new((self.block) as usize, (1) as usize, (1) as usize, ),
                );
                encoder.pop_debug_group();
            }
        }";
    let generated = generate(&kernel, &["BLOCK", "use_bias"], 2).unwrap();
    assert_eq!(tokens(&generated), tokens(expected));
}

#[test]
fn a_private_kernel_has_no_trait() {
    let kernel = kernel(
        false,
        vec![
            argument("groups", MetalArgumentType::GroupsIndirect),
            argument("threads", MetalArgumentType::Threads("32".to_string())),
        ],
    );
    let generated = tokens(&generate(&kernel, &[], 1).unwrap());
    assert!(generated.contains("impl ScaleMetalKernel { pub (crate) fn new"));
    assert!(!generated.contains("kernel :: ScaleKernel"));
    assert!(generated.contains("(LIB [0] , true ,"));
    assert!(generated.contains(&tokens(
        "compute_encoder.dispatch_threadgroups_indirect(
            __dsl_indirect_dispatch_buffer.0.downcast(),
            __dsl_indirect_dispatch_buffer.1,
            MTLSize::new((32) as usize, (1) as usize, (1) as usize, ),
        );"
    )));
    assert!(!generated.contains("return"));
}

#[test]
fn host_expressions_are_replaced_where_they_stand() {
    let memory = MetalArgumentType::Shared {
        element_count: Some("a][b".to_string()),
        element_size: Some(4),
    };
    let always = MetalArgumentType::Shared {
        element_count: Some("c".to_string()),
        element_size: Some(4),
    };
    let mut arguments = vec![
        argument("g", MetalArgumentType::Groups("x".to_string())),
        optional("m", memory),
        argument("n", always),
        argument("t", MetalArgumentType::Axis { total: "y".to_string(), per_group: "z".to_string() }),
    ];
    assert_eq!(host_expressions(&arguments), strings(&["a", "b", "x", "y", "z"]));
    replace_host_expressions(&mut arguments, &strings(&["A", "B", "X", "Y", "Z"]));
    assert_eq!(arguments[0].argument_type, MetalArgumentType::Groups("X".to_string()));
    assert_eq!(
        arguments[1].argument_type,
        MetalArgumentType::Shared {
            element_count: Some("(A) * (B)".to_string()),
            element_size: Some(4),
        }
    );
    assert_eq!(
        arguments[2].argument_type,
        MetalArgumentType::Shared { element_count: Some("c".to_string()), element_size: Some(4) }
    );
    assert_eq!(
        arguments[3].argument_type,
        MetalArgumentType::Axis { total: "Y".to_string(), per_group: "Z".to_string() }
    );
}

#[test]
fn each_kernel_that_cannot_be_bound_has_its_error() {
    let error = |arguments: Vec<MetalArgument<String>>| generate(&kernel(true, arguments), &[], 1).err();
    let groups = || argument("g", MetalArgumentType::Groups("1".to_string()));
    let axis = || {
        argument(
            "a",
            MetalArgumentType::Axis { total: "1".to_string(), per_group: "1".to_string() },
        )
    };
    assert_eq!(error(vec![axis(), groups()]), Some(BindgenError::MixedAxes));
    assert_eq!(
        error(vec![groups(), argument("i", MetalArgumentType::GroupsIndirect)]),
        Some(BindgenError::MixedGroups)
    );
    assert_eq!(
        error(vec![groups(), groups(), groups(), groups()]),
        Some(BindgenError::TooManyAxes)
    );
    let shared = |element_count: Option<String>, element_size| {
        optional("s", MetalArgumentType::Shared { element_count, element_size })
    };
    assert_eq!(
        error(vec![groups(), shared(None, Some(4))]),
        Some(BindgenError::SharedDimensions { argument: 1 })
    );
    assert_eq!(
        error(vec![shared(Some("n".to_string()), None)]),
        Some(BindgenError::SharedElement { argument: 0 })
    );
    let conditional = |argument_type| {
        let condition = Some("use_a +".to_string());
        vec![groups(), MetalArgument { name: "c".to_string(), condition, argument_type }]
    };
    for argument_type in [
        MetalArgumentType::Buffer(KernelBufferAccess::Read),
        MetalArgumentType::Shared { element_count: None, element_size: None },
        MetalArgumentType::Constant {
            rust_type: "u32".to_string(),
            constant_type: MetalConstantType::Scalar,
        },
    ] {
        assert_eq!(
            error(conditional(argument_type)),
            Some(BindgenError::ArgumentCondition { argument: 1 })
        );
    }
    let constant = |rust_type: &str, constant_type| {
        argument(
            "c",
            MetalArgumentType::Constant { rust_type: rust_type.to_string(), constant_type },
        )
    };
    assert_eq!(
        error(vec![constant("1", MetalConstantType::Scalar)]),
        Some(BindgenError::ConstantType { argument: 0 })
    );
    assert_eq!(
        error(vec![constant("u32", MetalConstantType::SizedArray("+".to_string()))]),
        Some(BindgenError::ConstantSize { argument: 0 })
    );
    assert_eq!(
        error(vec![argument(
            "s",
            MetalArgumentType::Specialize {
                constant: "+".to_string(),
                lowering: SpecializeLowering::OptionSet,
            },
        )]),
        Some(BindgenError::SpecializeType { argument: 0 })
    );
    let mut wrong = kernel(true, Vec::new());
    wrong.variants[1].1 = Some("+".to_string());
    assert_eq!(generate(&wrong, &[], 1).err(), Some(BindgenError::VariantType { variant: 1 }));
}

#[test]
fn sizes_that_are_not_given_are_one() {
    let dispatch = dispatch::parse(&[
        argument("g", MetalArgumentType::Groups("n".to_string())),
        argument("t", MetalArgumentType::Threads("8".to_string())),
        argument("u", MetalArgumentType::Threads("4".to_string())),
    ])
    .unwrap();
    assert_eq!(dispatch.first, strings(&["n", "1", "1"]));
    assert_eq!(dispatch.second, strings(&["8", "4", "1"]));
}

#[test]
fn template_parameters_are_fields_in_lower_case() {
    let binds = variants::parse(&kernel(true, Vec::new()).variants).unwrap();
    assert_eq!(binds[1].field_name, "block");
    let named = vec![("Az9_\u{c4}Q".to_string(), None)];
    assert_eq!(variants::parse(&named).unwrap()[0].field_name, "az9_\u{c4}q");
    assert_eq!(
        variants::kernel_formats(&binds),
        strings(&["T.metal_type()", "BLOCK.to_string()"])
    );
}

#[test]
fn all_metal_kernels_are_listed() {
    let files = vec![
        ("/out/a.rs".to_string(), strings(&["Scale"])),
        ("/out/b.rs".to_string(), Vec::new()),
    ];
    let generated = tokens(&bindgen_global(&files));
    assert!(generated.ends_with(&tokens(
        "include!(\"/out/a.rs\");
        include!(\"/out/b.rs\");
        macro_rules! autogen_kernels { () => { type ScaleKernel = ScaleMetalKernel; } }"
    )));
    assert!(generated.contains("use objc2 :: { rc :: Retained , runtime :: ProtocolObject } ;"));
}

#[test]
fn the_build_follows_features_and_target() {
    let all = Features { cpu: true, metal: true, grammar: true };
    let plan = BuildPlan::new(all, "linux", "x86_64");
    assert_eq!(plan, BuildPlan { backend_cpu: true, backend_metal: false, grammar: true });
    assert_eq!(
        plan.directives(),
        strings(&[
            "cargo::rustc-check-cfg=cfg(backend, values(\"cpu\", \"metal\"))",
            "cargo::rustc-cfg=backend=\"cpu\"",
            "cargo::rustc-check-cfg=cfg(grammar)",
            "cargo::rustc-cfg=grammar",
        ])
    );
    assert!(BuildPlan::new(all, "visionos", "aarch64").backend_metal);
    assert!(!BuildPlan::new(all, "unknown", "wasm32").grammar);
    let none = Features { cpu: false, metal: true, grammar: false };
    assert!(!BuildPlan::new(none, "linux", "x86_64").has_compiler(true));
    assert!(BuildPlan::new(none, "macos", "aarch64").has_compiler(true));
    assert!(!BuildPlan::new(none, "macos", "aarch64").has_compiler(false));
    assert!(plan.has_compiler(false));
}
