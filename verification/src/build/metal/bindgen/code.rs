//! The whole of the code that is generated for a Metal kernel, and the code that lists all kernels.
use vstd::prelude::*;

use crate::build::metal::bindgen::arguments::{self, ArgumentEmission, ArgumentPart};
use crate::build::metal::bindgen::dispatch::{self, Dispatch, DispatchShape};
use crate::build::metal::bindgen::kernel_info::{BindgenError, MetalKernelInfo};
use crate::build::metal::bindgen::specialize::{self, SpecializeArgument, SpecializePart};
use crate::build::metal::bindgen::variants::{self, VariantBind, VariantPart};
use crate::build::rust_source;
use crate::text;

verus! {

/// The library that holds the instances of a kernel, and how it is found.
#[derive(Debug, PartialEq, Eq)]
pub struct KernelLibrary {
    /// The name of the constant that holds the libraries.
    pub library_const: String,
    /// The number of libraries.
    pub num_shards: usize,
    /// Whether they are compressed.
    pub compressed: bool,
}

/// What the code of a kernel is made of.
pub ghost struct KernelCode {
    pub name: Seq<char>,
    pub public: bool,
    pub entry_name: Seq<char>,
    pub binds: Seq<VariantBind<Seq<char>>>,
    pub specializations: Seq<SpecializeArgument<Seq<char>>>,
    pub emissions: Seq<ArgumentEmission<Seq<char>>>,
    pub shape: DispatchShape,
    pub first: Seq<Seq<char>>,
    pub second: Seq<Seq<char>>,
    pub referenced: Seq<String>,
}

/// `out` with the library behind it that holds an instance: the one that its name falls to.
pub open spec fn with_library(out: Seq<char>, library: KernelLibrary) -> Seq<char> {
    if library.num_shards == 1 {
        out + library.library_const@ + "[0]"@
    } else {
        out + library.library_const@
            + "[(xxhash_rust::xxh3::xxh3_64(entry_name.as_bytes()) % "@ + text::decimal(
            library.num_shards as nat,
        ) + "u64) as usize]"@
    }
}

/// `out` with the type behind it that stands for a kernel.
pub open spec fn with_type(out: Seq<char>, code: KernelCode) -> Seq<char> {
    let opened = out + "pub struct "@ + code.name
        + "MetalKernel { pipeline: Retained<ProtocolObject<dyn MTLComputePipelineState>>, "@;
    let conditional = arguments::with_parts(
        opened,
        ArgumentPart::Field,
        code.emissions,
        code.emissions.len() as int,
    );
    let varied = variants::with_parts(
        conditional,
        VariantPart::Field,
        code.binds,
        code.referenced,
        code.binds.len() as int,
    );
    specialize::with_retained(
        varied,
        code.specializations,
        code.referenced,
        true,
        code.specializations.len() as int,
    ) + "} "@
}

/// `out` with the beginning of an implementation behind it: a kernel that callers see implements the
/// trait of its name.
pub open spec fn with_header(out: Seq<char>, code: KernelCode) -> Seq<char> {
    let opened = out + "#[allow(clippy::style, clippy::complexity, clippy::perf)] impl "@;
    if code.public {
        opened + "crate::backends::common::kernel::"@ + code.name + "Kernel for "@ + code.name
            + "MetalKernel { type Backend = crate::backends::metal::Metal; "@
    } else {
        opened + code.name + "MetalKernel { pub(crate) "@
    }
}

/// `out` with the function behind it that creates a kernel.
pub open spec fn with_constructor(out: Seq<char>, code: KernelCode, library: KernelLibrary) -> Seq<
    char,
> {
    let varied = variants::with_parts(
        out + "fn new(context: &MetalContext"@,
        VariantPart::Argument,
        code.binds,
        code.referenced,
        code.binds.len() as int,
    );
    let specialized = specialize::with_parts(
        varied,
        SpecializePart::Argument,
        code.specializations,
        code.specializations.len() as int,
    );
    let named = specialized + ") -> Result<Self, MetalError> { let entry_name = "@ + code.entry_name
        + "; "@;
    let found = with_library(
        specialize::with_constants(named, code.specializations)
            + "let pipeline = context.compute_pipeline_state("@,
        library,
    );
    let keyed = specialize::with_cache_key(
        found + (if library.compressed {
            ", true, "@
        } else {
            ", false, "@
        }),
        code.specializations,
    );
    let created = keyed + (if code.specializations.len() == 0 {
        ", &entry_name, None)?; Ok(Self { pipeline"@
    } else {
        ", &entry_name, Some(&function_constants))?; Ok(Self { pipeline"@
    });
    let conditional = arguments::with_parts(
        created,
        ArgumentPart::Initializer,
        code.emissions,
        code.emissions.len() as int,
    );
    let valued = variants::with_parts(
        conditional,
        VariantPart::Initializer,
        code.binds,
        code.referenced,
        code.binds.len() as int,
    );
    specialize::with_retained(
        valued,
        code.specializations,
        code.referenced,
        false,
        code.specializations.len() as int,
    ) + " }) } "@
}

/// `out` with the function behind it that encodes a kernel.
pub open spec fn with_encoder(out: Seq<char>, code: KernelCode) -> Seq<char> {
    let count = code.emissions.len() as int;
    let opened = if code.public {
        out + "fn encode<"@
    } else {
        out + "pub(crate) fn encode<"@
    };
    let lifetimes = arguments::with_parts(opened, ArgumentPart::Lifetime, code.emissions, count);
    let declared = arguments::with_parts(
        lifetimes + "'encoder>(&self, "@,
        ArgumentPart::Definition,
        code.emissions,
        count,
    );
    let guarded = dispatch::with_empty_guard(
        declared
            + "encoder: &'encoder mut crate::backends::common::Encoder<crate::backends::metal::Metal>) { "@,
        code.first + code.second,
    );
    let grouped = guarded + "encoder.push_debug_group("@ + rust_source::string_literal(code.name)
        + "); "@;
    let parted = arguments::with_parts(grouped, ArgumentPart::Deconstruct, code.emissions, count);
    let accessed = arguments::with_accesses_call(parted, code.emissions);
    let assigned = arguments::with_parts(
        accessed
            + "let compute_encoder = encoder.as_command_buffer_mut().ensure_compute(); compute_encoder.set_compute_pipeline_state(&self.pipeline); "@,
        ArgumentPart::Assignment,
        code.emissions,
        count,
    );
    dispatch::with_dispatch(assigned, code.shape, code.first, code.second)
        + "encoder.pop_debug_group(); } }"@
}

/// The code of a kernel.
pub open spec fn code_text(code: KernelCode, library: KernelLibrary) -> Seq<char> {
    with_encoder(
        with_constructor(with_header(with_type(Seq::empty(), code), code), code, library),
        code,
    )
}

/// What the code of a kernel is made of, where everything in it can be read.
pub open spec fn kernel_code(
    kernel: MetalKernelInfo,
    base: int,
    entry_name: Seq<char>,
    referenced: Seq<String>,
) -> Result<KernelCode, BindgenError> {
    let given = kernel.arguments.deep_view();
    match variants::variants_of(kernel.variants.deep_view(), kernel.variants@.len() as int) {
        Err(error) => Err(error),
        Ok(binds) => match specialize::specializations_of(given, base, given.len() as int) {
            Err(error) => Err(error),
            Ok(specializations) => match arguments::arguments_of(given, given.len() as int) {
                Err(error) => Err(error),
                Ok(state) => match (
                    dispatch::shape_of(given),
                    dispatch::dispatch_sizes(given),
                ) {
                    (Ok(shape), Ok((first, second))) => Ok(
                        KernelCode {
                            name: kernel.name@,
                            public: kernel.public,
                            entry_name,
                            binds,
                            specializations,
                            emissions: state.emissions,
                            shape,
                            first,
                            second,
                            referenced,
                        },
                    ),
                    (_, Err(error)) => Err(error),
                    (Err(error), _) => Err(error),
                },
            },
        },
    }
}

/// The parts of a kernel that its code is made of.
struct KernelParts {
    binds: Vec<VariantBind<String>>,
    specializations: Vec<SpecializeArgument<String>>,
    emissions: Vec<ArgumentEmission<String>>,
    dispatch: Dispatch,
}

spec fn matches_code(parts: KernelParts, code: KernelCode) -> bool {
    &&& parts.binds.deep_view() == code.binds
    &&& parts.specializations.deep_view() == code.specializations
    &&& parts.emissions.deep_view() == code.emissions
    &&& parts.dispatch.shape == code.shape
    &&& parts.dispatch.first.deep_view() == code.first
    &&& parts.dispatch.second.deep_view() == code.second
}

fn push_library(out: &mut String, library: &KernelLibrary)
    ensures
        final(out)@ == with_library(old(out)@, *library),
{
    text::push_str(out, library.library_const.as_str());
    if library.num_shards == 1 {
        text::push_str(out, "[0]");
    } else {
        text::push_str(out, "[(xxhash_rust::xxh3::xxh3_64(entry_name.as_bytes()) % ");
        text::push_decimal(out, library.num_shards as u64);
        text::push_str(out, "u64) as usize]");
    }
}

fn push_type(
    out: &mut String,
    name: &str,
    parts: &KernelParts,
    referenced: &[String],
    Ghost(code): Ghost<KernelCode>,
)
    requires
        matches_code(*parts, code),
        name@ == code.name,
        referenced@ == code.referenced,
    ensures
        final(out)@ == with_type(old(out)@, code),
{
    text::push_str(out, "pub struct ");
    text::push_str(out, name);
    text::push_str(
        out,
        "MetalKernel { pipeline: Retained<ProtocolObject<dyn MTLComputePipelineState>>, ",
    );
    arguments::push_parts(out, ArgumentPart::Field, &parts.emissions);
    variants::push_parts(out, VariantPart::Field, &parts.binds, referenced);
    specialize::push_retained(out, &parts.specializations, referenced, true);
    text::push_str(out, "} ");
}

fn push_header(out: &mut String, name: &str, public: bool, Ghost(code): Ghost<KernelCode>)
    requires
        name@ == code.name,
        public == code.public,
    ensures
        final(out)@ == with_header(old(out)@, code),
{
    text::push_str(out, "#[allow(clippy::style, clippy::complexity, clippy::perf)] impl ");
    if public {
        text::push_str(out, "crate::backends::common::kernel::");
        text::push_str(out, name);
        text::push_str(out, "Kernel for ");
        text::push_str(out, name);
        text::push_str(out, "MetalKernel { type Backend = crate::backends::metal::Metal; ");
    } else {
        text::push_str(out, name);
        text::push_str(out, "MetalKernel { pub(crate) ");
    }
}

fn push_constructor(
    out: &mut String,
    parts: &KernelParts,
    entry_name: &str,
    referenced: &[String],
    library: &KernelLibrary,
    Ghost(code): Ghost<KernelCode>,
)
    requires
        matches_code(*parts, code),
        entry_name@ == code.entry_name,
        referenced@ == code.referenced,
    ensures
        final(out)@ == with_constructor(old(out)@, code, *library),
{
    text::push_str(out, "fn new(context: &MetalContext");
    variants::push_parts(out, VariantPart::Argument, &parts.binds, referenced);
    specialize::push_parts(out, SpecializePart::Argument, &parts.specializations);
    text::push_str(out, ") -> Result<Self, MetalError> { let entry_name = ");
    text::push_str(out, entry_name);
    text::push_str(out, "; ");
    specialize::push_constants(out, &parts.specializations);
    text::push_str(out, "let pipeline = context.compute_pipeline_state(");
    push_library(out, library);
    if library.compressed {
        text::push_str(out, ", true, ");
    } else {
        text::push_str(out, ", false, ");
    }
    specialize::push_cache_key(out, &parts.specializations);
    assert(code.specializations.len() == parts.specializations@.len());
    if parts.specializations.len() == 0 {
        text::push_str(out, ", &entry_name, None)?; Ok(Self { pipeline");
    } else {
        text::push_str(out, ", &entry_name, Some(&function_constants))?; Ok(Self { pipeline");
    }
    arguments::push_parts(out, ArgumentPart::Initializer, &parts.emissions);
    variants::push_parts(out, VariantPart::Initializer, &parts.binds, referenced);
    specialize::push_retained(out, &parts.specializations, referenced, false);
    text::push_str(out, " }) } ");
}

fn push_encoder(
    out: &mut String,
    name: &str,
    public: bool,
    parts: &KernelParts,
    Ghost(code): Ghost<KernelCode>,
)
    requires
        matches_code(*parts, code),
        name@ == code.name,
        public == code.public,
    ensures
        final(out)@ == with_encoder(old(out)@, code),
{
    if public {
        text::push_str(out, "fn encode<");
    } else {
        text::push_str(out, "pub(crate) fn encode<");
    }
    arguments::push_parts(out, ArgumentPart::Lifetime, &parts.emissions);
    text::push_str(out, "'encoder>(&self, ");
    arguments::push_parts(out, ArgumentPart::Definition, &parts.emissions);
    text::push_str(
        out,
        "encoder: &'encoder mut crate::backends::common::Encoder<crate::backends::metal::Metal>) { ",
    );
    dispatch::push_empty_guard(out, &parts.dispatch);
    text::push_str(out, "encoder.push_debug_group(");
    text::push_str(out, rust_source::write_string_literal(name).as_str());
    text::push_str(out, "); ");
    arguments::push_parts(out, ArgumentPart::Deconstruct, &parts.emissions);
    arguments::push_accesses_call(out, &parts.emissions);
    text::push_str(
        out,
        "let compute_encoder = encoder.as_command_buffer_mut().ensure_compute(); compute_encoder.set_compute_pipeline_state(&self.pipeline); ",
    );
    arguments::push_parts(out, ArgumentPart::Assignment, &parts.emissions);
    dispatch::push_dispatch(out, &parts.dispatch);
    text::push_str(out, "encoder.pop_debug_group(); } }");
}

/// The code that is generated for a kernel.
///
/// `base` is the index of its first function constant, `entry_name` the expression for the name of an
/// instance, and `referenced` lists the names that host expressions speak of.
pub fn bindgen(
    kernel: &MetalKernelInfo,
    base: Option<usize>,
    entry_name: &str,
    referenced: &[String],
    library: &KernelLibrary,
) -> (generated: Result<String, BindgenError>)
    requires
        (match base {
            Some(base) => base as int,
            None => 0,
        }) + kernel.arguments@.len() <= usize::MAX,
    ensures
        ({
            let first = match base {
                Some(base) => base as int,
                None => 0,
            };
            match kernel_code(*kernel, first, entry_name@, referenced@) {
                Ok(code) => generated matches Ok(generated) && generated@ == code_text(
                    code,
                    *library,
                ),
                Err(error) => generated matches Err(found) && found == error,
            }
        }),
{
    let binds: Vec<VariantBind<String>> = match variants::parse(&kernel.variants) {
        Ok(binds) => binds,
        Err(error) => {
            return Err(error);
        },
    };
    let specializations: Vec<SpecializeArgument<String>> = match specialize::parse(
        &kernel.arguments,
        base,
    ) {
        Ok(specializations) => specializations,
        Err(error) => {
            return Err(error);
        },
    };
    let emissions: Vec<ArgumentEmission<String>> = match arguments::parse(&kernel.arguments) {
        Ok(emissions) => emissions,
        Err(error) => {
            return Err(error);
        },
    };
    let dispatch: Dispatch = match dispatch::parse(&kernel.arguments) {
        Ok(dispatch) => dispatch,
        Err(error) => {
            return Err(error);
        },
    };
    let ghost first = match base {
        Some(base) => base as int,
        None => 0,
    };
    let ghost code = kernel_code(*kernel, first, entry_name@, referenced@)->Ok_0;
    let parts: KernelParts = KernelParts { binds, specializations, emissions, dispatch };
    assert(matches_code(parts, code));
    let name: &str = kernel.name.as_str();
    let mut out: String = String::new();
    push_type(&mut out, name, &parts, referenced, Ghost(code));
    push_header(&mut out, name, kernel.public, Ghost(code));
    push_constructor(&mut out, &parts, entry_name, referenced, library, Ghost(code));
    push_encoder(&mut out, name, kernel.public, &parts, Ghost(code));
    Ok(out)
}

/// `out` with the first `count` files behind it, to be read in their place.
pub open spec fn with_files(out: Seq<char>, files: Seq<(Seq<char>, Seq<Seq<char>>)>, count: int) -> Seq<
    char,
>
    decreases count,
{
    if count <= 0 {
        out
    } else {
        with_files(out, files, count - 1) + "include!("@ + rust_source::string_literal(
            files[count - 1].0,
        ) + "); "@
    }
}

/// `out` with the first `count` kernels behind it, each as the type that the backend has for it.
pub open spec fn with_kernel_types(out: Seq<char>, kernels: Seq<Seq<char>>, count: int) -> Seq<char>
    decreases count,
{
    if count <= 0 {
        out
    } else {
        with_kernel_types(out, kernels, count - 1) + "type "@ + kernels[count - 1] + "Kernel = "@
            + kernels[count - 1] + "MetalKernel; "@
    }
}

/// `out` with the kernels of the first `count` files behind it.
pub open spec fn with_file_types(
    out: Seq<char>,
    files: Seq<(Seq<char>, Seq<Seq<char>>)>,
    count: int,
) -> Seq<char>
    decreases count,
{
    if count <= 0 {
        out
    } else {
        with_kernel_types(
            with_file_types(out, files, count - 1),
            files[count - 1].1,
            files[count - 1].1.len() as int,
        )
    }
}

/// The code that lists all kernels.
pub open spec fn global_text(files: Seq<(Seq<char>, Seq<Seq<char>>)>) -> Seq<char> {
    with_file_types(
        with_files(
            "use metal::{MTLComputeCommandEncoder, MTLComputePipelineState, MTLFunctionConstantValues, MTLSize}; use objc2::{rc::Retained, runtime::ProtocolObject}; use crate::backends::common::BufferGpuAddressRangeExt; use crate::backends::metal::{context::MetalContext, error::MetalError, metal_extensions::{ComputeEncoderSetValue, FunctionConstantValuesSetValue, MetalDataTypeExt, }, }; "@,
            files,
            files.len() as int,
        ) + "macro_rules! autogen_kernels { () => { "@,
        files,
        files.len() as int,
    ) + "} }"@
}

fn push_kernel_types(out: &mut String, kernels: &[String])
    ensures
        final(out)@ == with_kernel_types(
            old(out)@,
            kernels.deep_view(),
            kernels@.len() as int,
        ),
{
    let ghost before = out@;
    let mut i: usize = 0;
    while i < kernels.len()
        invariant
            i <= kernels@.len(),
            out@ == with_kernel_types(before, kernels.deep_view(), i as int),
        decreases kernels@.len() - i,
    {
        assert(kernels.deep_view()[i as int] == kernels@[i as int]@);
        text::push_str(out, "type ");
        text::push_str(out, kernels[i].as_str());
        text::push_str(out, "Kernel = ");
        text::push_str(out, kernels[i].as_str());
        text::push_str(out, "MetalKernel; ");
        i += 1;
    }
}

/// The code that lists all kernels. Each file is given by its path and the names of the kernels in it
/// that callers see.
pub fn bindgen_global(files: &[(String, Vec<String>)]) -> (generated: String)
    ensures
        generated@ == global_text(files.deep_view()),
{
    let ghost all = files.deep_view();
    let mut out: String = text::copy_str(
        "use metal::{MTLComputeCommandEncoder, MTLComputePipelineState, MTLFunctionConstantValues, MTLSize}; use objc2::{rc::Retained, runtime::ProtocolObject}; use crate::backends::common::BufferGpuAddressRangeExt; use crate::backends::metal::{context::MetalContext, error::MetalError, metal_extensions::{ComputeEncoderSetValue, FunctionConstantValuesSetValue, MetalDataTypeExt, }, }; ",
    );
    let ghost imported = out@;
    let mut i: usize = 0;
    while i < files.len()
        invariant
            i <= files@.len(),
            all == files.deep_view(),
            out@ == with_files(imported, all, i as int),
        decreases files@.len() - i,
    {
        assert(all[i as int] == files@[i as int].deep_view());
        text::push_str(&mut out, "include!(");
        text::push_str(
            &mut out,
            rust_source::write_string_literal(files[i].0.as_str()).as_str(),
        );
        text::push_str(&mut out, "); ");
        i += 1;
    }
    text::push_str(&mut out, "macro_rules! autogen_kernels { () => { ");
    let ghost opened = out@;
    let mut j: usize = 0;
    while j < files.len()
        invariant
            j <= files@.len(),
            all == files.deep_view(),
            out@ == with_file_types(opened, all, j as int),
        decreases files@.len() - j,
    {
        assert(all[j as int] == files@[j as int].deep_view());
        push_kernel_types(&mut out, &files[j].1);
        j += 1;
    }
    text::push_str(&mut out, "} }");
    out
}

} // verus!
