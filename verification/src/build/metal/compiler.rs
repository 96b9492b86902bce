//! From Metal source files to libraries and the code that is generated for them.
use vstd::prelude::*;

use crate::arithmetic::{div_ceil, lemma_div_ceil_is_at_most};
use crate::build::hashing;
use crate::build::rust_source;
use crate::text;

verus! {

pub const MIN_VARIANTS_PER_SHARD: usize = 8;

pub const MAX_VARIANTS_PER_SHARD: usize = 64;
/// The level at which libraries are compressed.
pub const METALLIB_COMPRESSION_LEVEL: i32 = 22;

/// One instance of a kernel: its name and its source.
#[derive(Debug, PartialEq, Eq)]
pub struct VariantSource {
    pub name: String,
    pub source: String,
}

/// The instances of a kernel, and what stands around them.
#[derive(Debug, PartialEq, Eq)]
pub struct KernelWrappers {
    pub header: Option<String>,
    pub variants: Vec<VariantSource>,
    pub footer: Option<String>,
}

/// The number of instances of the first `count` kernels.
pub open spec fn total_variants(kernels: Seq<KernelWrappers>, count: int) -> int
    decreases count,
{
    if count <= 0 {
        0
    } else {
        total_variants(kernels, count - 1) + kernels[count - 1].variants@.len()
    }
}

/// The number of shards for a number of instances, where `ncpu` can be compiled at once: few enough
/// that a shard is worth its start, many enough that none is too large, and no last round with idle
/// processors.
pub open spec fn spec_shard_count(total: int, ncpu: int) -> int {
    let least = div_ceil_int(total, MAX_VARIANTS_PER_SHARD as int);
    let most = if least > ncpu {
        least
    } else {
        ncpu
    };
    let wanted = div_ceil_int(total, MIN_VARIANTS_PER_SHARD as int);
    let clamped = if wanted < least {
        least
    } else if wanted > most {
        most
    } else {
        wanted
    };
    if clamped >= ncpu {
        div_ceil_int(clamped, ncpu) * ncpu
    } else {
        clamped
    }
}

/// A quotient that is rounded up.
pub open spec fn div_ceil_int(value: int, divisor: int) -> int {
    (value + divisor - 1) / divisor
}

/// The number of shards for a number of instances, where `ncpu` can be compiled at once.
pub fn shard_count(total: usize, ncpu: usize) -> (shards: usize)
    requires
        ncpu > 0,
        total + ncpu <= usize::MAX,
    ensures
        shards == spec_shard_count(total as int, ncpu as int),
{
    let least: usize = div_ceil(total, MAX_VARIANTS_PER_SHARD);
    let most: usize = if least > ncpu {
        least
    } else {
        ncpu
    };
    let wanted: usize = div_ceil(total, MIN_VARIANTS_PER_SHARD);
    let clamped: usize = if wanted < least {
        least
    } else if wanted > most {
        most
    } else {
        wanted
    };
    if clamped >= ncpu {
        proof {
            lemma_div_ceil_is_at_most(total as int, MAX_VARIANTS_PER_SHARD as int);
            lemma_div_ceil_is_at_most(total as int, MIN_VARIANTS_PER_SHARD as int);
            lemma_rounded_up(clamped as int, ncpu as int);
        }
        div_ceil(clamped, ncpu) * ncpu
    } else {
        clamped
    }
}

proof fn lemma_rounded_up(value: int, step: int)
    requires
        value >= 0,
        step > 0,
    ensures
        value <= div_ceil_int(value, step) * step < value + step,
{
    vstd::arithmetic::div_mod::lemma_fundamental_div_mod(value + step - 1, step);
    assert(div_ceil_int(value, step) * step == step * div_ceil_int(value, step))
        by (nonlinear_arith);
}

/// Where all processors have work, they have work to the end: the shards are a multiple of the
/// processors.
pub proof fn law_no_processor_idles(total: int, ncpu: int)
    requires
        total >= 0,
        ncpu > 0,
        spec_shard_count(total, ncpu) >= ncpu,
    ensures
        spec_shard_count(total, ncpu) % ncpu == 0,
{
    let least = div_ceil_int(total, MAX_VARIANTS_PER_SHARD as int);
    let most = if least > ncpu {
        least
    } else {
        ncpu
    };
    let wanted = div_ceil_int(total, MIN_VARIANTS_PER_SHARD as int);
    let clamped = if wanted < least {
        least
    } else if wanted > most {
        most
    } else {
        wanted
    };
    vstd::arithmetic::div_mod::lemma_mod_multiples_basic(div_ceil_int(clamped, ncpu), ncpu);
}

/// There are enough shards that none need hold more than the greatest number of instances.
pub proof fn law_shards_suffice(total: int, ncpu: int)
    requires
        total >= 0,
        ncpu > 0,
    ensures
        total <= spec_shard_count(total, ncpu) * MAX_VARIANTS_PER_SHARD,
        total > 0 ==> spec_shard_count(total, ncpu) > 0,
{
    lemma_rounded_up(total, MAX_VARIANTS_PER_SHARD as int);
    lemma_rounded_up(total, MIN_VARIANTS_PER_SHARD as int);
    let least = div_ceil_int(total, MAX_VARIANTS_PER_SHARD as int);
    let most = if least > ncpu {
        least
    } else {
        ncpu
    };
    let wanted = div_ceil_int(total, MIN_VARIANTS_PER_SHARD as int);
    let clamped = if wanted < least {
        least
    } else if wanted > most {
        most
    } else {
        wanted
    };
    lemma_rounded_up(clamped, ncpu);
}

/// The shard that an instance stands in, by its name.
pub open spec fn shard_of(name: Seq<char>, shards: int) -> int {
    hashing::xxh3_digest(vstd::utf8::encode_utf8(name)) as int % shards
}

/// An instance stands in one of the shards.
pub proof fn law_variant_has_a_shard(name: Seq<char>, shards: int)
    requires
        shards > 0,
    ensures
        0 <= shard_of(name, shards) < shards,
{
}

fn find_shard(name: &str, shards: usize) -> (shard: usize)
    requires
        shards > 0,
    ensures
        shard == shard_of(name@, shards as int),
{
    let digest: u64 = hashing::xxh3_hash(name.as_bytes());
    let shard: u64 = digest % (shards as u64);
    shard as usize
}

/// One of the first `count` instances stands in the shard.
pub open spec fn has_shard(
    variants: Seq<VariantSource>,
    shards: int,
    shard: int,
    count: int,
) -> bool {
    exists|i: int| 0 <= i < count && shard_of((#[trigger] variants[i]).name@, shards) == shard
}

/// `out` with the sources of those of the first `count` instances behind it that stand in the shard.
pub open spec fn with_sources(
    out: Seq<char>,
    variants: Seq<VariantSource>,
    shards: int,
    shard: int,
    count: int,
) -> Seq<char>
    decreases count,
{
    if count <= 0 {
        out
    } else {
        let before = with_sources(out, variants, shards, shard, count - 1);
        if shard_of(variants[count - 1].name@, shards) == shard {
            before + variants[count - 1].source@
        } else {
            before
        }
    }
}

/// Text that may be missing.
pub open spec fn optional_text(source: Option<String>) -> Seq<char> {
    match source {
        Some(source) => source@,
        None => ""@,
    }
}

/// `out` with what a kernel has in the shard behind it; where it has nothing there, nothing.
pub open spec fn with_kernel(
    out: Seq<char>,
    kernel: KernelWrappers,
    shards: int,
    shard: int,
) -> Seq<char> {
    let count = kernel.variants@.len() as int;
    if has_shard(kernel.variants@, shards, shard, count) {
        with_sources(
            out + optional_text(kernel.header),
            kernel.variants@,
            shards,
            shard,
            count,
        ) + optional_text(kernel.footer)
    } else {
        out
    }
}

/// `out` with what the first `count` kernels have in the shard behind it.
pub open spec fn with_kernels(
    out: Seq<char>,
    kernels: Seq<KernelWrappers>,
    shards: int,
    shard: int,
    count: int,
) -> Seq<char>
    decreases count,
{
    if count <= 0 {
        out
    } else {
        with_kernel(
            with_kernels(out, kernels, shards, shard, count - 1),
            kernels[count - 1],
            shards,
            shard,
        )
    }
}

fn push_optional(out: &mut String, source: &Option<String>)
    ensures
        final(out)@ == old(out)@ + optional_text(*source),
{
    match source {
        Some(source) => {
            text::push_str(out, source.as_str());
        },
        None => {
            text::push_str(out, "");
        },
    }
}

fn push_kernel(out: &mut String, kernel: &KernelWrappers, shards: usize, shard: usize)
    requires
        shards > 0,
    ensures
        final(out)@ == with_kernel(old(out)@, *kernel, shards as int, shard as int),
{
    let variants: &Vec<VariantSource> = &kernel.variants;
    let mut first: usize = 0;
    while first < variants.len() && find_shard(variants[first].name.as_str(), shards) != shard
        invariant
            shards > 0,
            first <= variants@.len(),
            forall|i: int|
                0 <= i < first ==> shard_of((#[trigger] variants@[i]).name@, shards as int)
                    != shard,
        decreases variants@.len() - first,
    {
        first += 1;
    }
    if first == variants.len() {
        return ;
    }
    assert(shard_of(variants@[first as int].name@, shards as int) == shard);
    push_optional(out, &kernel.header);
    let ghost before = out@;
    let mut i: usize = 0;
    while i < variants.len()
        invariant
            shards > 0,
            i <= variants@.len(),
            out@ == with_sources(before, variants@, shards as int, shard as int, i as int),
        decreases variants@.len() - i,
    {
        if find_shard(variants[i].name.as_str(), shards) == shard {
            text::push_str(out, variants[i].source.as_str());
        }
        i += 1;
    }
    push_optional(out, &kernel.footer);
}

fn count_variants(kernels: &[KernelWrappers]) -> (total: usize)
    requires
        total_variants(kernels@, kernels@.len() as int) <= usize::MAX,
    ensures
        total == total_variants(kernels@, kernels@.len() as int),
{
    let mut total: usize = 0;
    let mut i: usize = 0;
    while i < kernels.len()
        invariant
            i <= kernels@.len(),
            total == total_variants(kernels@, i as int),
            total_variants(kernels@, kernels@.len() as int) <= usize::MAX,
        decreases kernels@.len() - i,
    {
        proof {
            lemma_total_grows(kernels@, i + 1, kernels@.len() as int);
        }
        total = total + kernels[i].variants.len();
        i += 1;
    }
    total
}

proof fn lemma_total_grows(kernels: Seq<KernelWrappers>, count: int, all: int)
    requires
        0 <= count <= all,
    ensures
        total_variants(kernels, count) <= total_variants(kernels, all),
    decreases all - count,
{
    if count < all {
        lemma_total_grows(kernels, count, all - 1);
    }
}

/// What is compiled behind a source file, shard by shard, where `ncpu` shards are compiled at once.
pub fn shard_footers(kernels: &[KernelWrappers], ncpu: usize) -> (footers: Vec<String>)
    requires
        ncpu > 0,
        total_variants(kernels@, kernels@.len() as int) + ncpu <= usize::MAX,
    ensures
        footers@.len() == spec_shard_count(
            total_variants(kernels@, kernels@.len() as int),
            ncpu as int,
        ),
        forall|shard: int|
            0 <= shard < footers@.len() ==> (#[trigger] footers@[shard])@ == with_kernels(
                Seq::empty(),
                kernels@,
                footers@.len() as int,
                shard,
                kernels@.len() as int,
            ),
{
    let total: usize = count_variants(kernels);
    let shards: usize = shard_count(total, ncpu);
    let mut footers: Vec<String> = Vec::new();
    let mut shard: usize = 0;
    while shard < shards
        invariant
            shard <= shards,
            footers@.len() == shard,
            forall|j: int|
                0 <= j < shard ==> (#[trigger] footers@[j])@ == with_kernels(
                    Seq::empty(),
                    kernels@,
                    shards as int,
                    j,
                    kernels@.len() as int,
                ),
        decreases shards - shard,
    {
        let mut footer: String = String::new();
        let mut i: usize = 0;
        while i < kernels.len()
            invariant
                shards > 0,
                i <= kernels@.len(),
                footer@ == with_kernels(
                    Seq::empty(),
                    kernels@,
                    shards as int,
                    shard as int,
                    i as int,
                ),
            decreases kernels@.len() - i,
        {
            push_kernel(&mut footer, &kernels[i], shards, shard);
            i += 1;
        }
        footers.push(footer);
        shard += 1;
    }
    footers
}

/// The library files of a source file: each as the compiler writes it and as it is embedded.
pub open spec fn artifact(base: Seq<char>, shards: int, shard: int, compressed: bool) -> (
    Seq<char>,
    Seq<char>,
) {
    let stem = text::without_extension(base);
    let library = if shards == 1 {
        stem + ".metallib"@
    } else {
        stem + ".shard"@ + text::decimal(shard as nat) + ".metallib"@
    };
    (
        library,
        if compressed {
            library + ".zst"@
        } else {
            library
        },
    )
}

/// A file that what was built depends on, and the digest that it had.
#[derive(Debug, PartialEq, Eq)]
pub struct RecordedDependency {
    pub path: String,
    pub digest: Vec<u8>,
}

/// The recorded files from `from` on all have the digests that they had.
pub open spec fn all_unchanged(
    recorded: Seq<RecordedDependency>,
    contents: Seq<Option<Vec<u8>>>,
    from: int,
) -> bool
    decreases recorded.len() - from,
{
    if from >= recorded.len() {
        true
    } else {
        (contents[from] matches Some(bytes) && hashing::blake3_digest(bytes@)
            == recorded[from].digest@) && all_unchanged(recorded, contents, from + 1)
    }
}

/// The place of a file among those that are recorded.
pub open spec fn recorded_at(recorded: Seq<(Seq<char>, Seq<u8>)>, path: Seq<char>) -> Option<int>
    decreases recorded.len(),
{
    if recorded.len() == 0 {
        None
    } else if recorded.last().0 == path {
        Some(recorded.len() - 1)
    } else {
        recorded_at(recorded.drop_last(), path)
    }
}

/// The record with a file in it: a file is recorded once, with the digest that it had last.
pub open spec fn with_recorded(
    recorded: Seq<(Seq<char>, Seq<u8>)>,
    path: Seq<char>,
    digest: Seq<u8>,
) -> Seq<(Seq<char>, Seq<u8>)> {
    match recorded_at(recorded, path) {
        Some(index) => recorded.update(index, (path, digest)),
        None => recorded.push((path, digest)),
    }
}

/// The record of the first `count` files.
pub open spec fn record_of(files: Seq<Seq<char>>, contents: Seq<Vec<u8>>, count: int) -> Seq<
    (Seq<char>, Seq<u8>),
>
    decreases count,
{
    if count <= 0 {
        Seq::empty()
    } else {
        with_recorded(
            record_of(files, contents, count - 1),
            files[count - 1],
            hashing::blake3_digest(contents[count - 1]@),
        )
    }
}

impl DeepView for RecordedDependency {
    type V = (Seq<char>, Seq<u8>);

    open spec fn deep_view(&self) -> (Seq<char>, Seq<u8>) {
        (self.path@, self.digest@)
    }
}

/// The compiler of the Metal sources.
#[derive(Debug)]
pub struct MetalCompiler {
    pub source_directory: String,
    pub output_directory: String,
    pub metallib_compressed: bool,
    pub cache_key: Vec<u8>,
}

/// Whether libraries are compressed: not where size does not matter.
pub open spec fn is_compressed(opt_level: Seq<char>) -> bool {
    !(opt_level == "0"@ || opt_level == "1"@ || opt_level == "2"@)
}

impl MetalCompiler {
    /// The compiler for a package, the directory of what is built for it and an optimization level.
    /// What it builds is recognized by the build system, the toolchain and whether it is compressed.
    pub fn new(
        manifest_dir: &str,
        out_dir: &str,
        opt_level: &str,
        build_system_hash: &[u8],
        toolchain_key: &[u8],
    ) -> (compiler: MetalCompiler)
        ensures
            compiler.source_directory@ == text::joined(
                manifest_dir@,
                "src/backends/metal/kernel"@,
            ),
            compiler.output_directory@ == text::joined(out_dir@, "metal"@),
            compiler.metallib_compressed == is_compressed(opt_level@),
            compiler.cache_key@ == hashing::blake3_digest(
                (build_system_hash@ + toolchain_key@).push(
                    if is_compressed(opt_level@) {
                        1
                    } else {
                        0
                    },
                ),
            ),
    {
        let metallib_compressed: bool = !(text::is_same(opt_level, "0") || text::is_same(
            opt_level,
            "1",
        ) || text::is_same(opt_level, "2"));
        let mut message: Vec<u8> = Vec::new();
        message.extend_from_slice(build_system_hash);
        message.extend_from_slice(toolchain_key);
        message.push(
            if metallib_compressed {
                1
            } else {
                0
            },
        );
        assert(message@ =~= (build_system_hash@ + toolchain_key@).push(
            if is_compressed(opt_level@) {
                1u8
            } else {
                0u8
            },
        ));
        MetalCompiler {
            source_directory: text::join_path(manifest_dir, "src/backends/metal/kernel"),
            output_directory: text::join_path(out_dir, "metal"),
            metallib_compressed,
            cache_key: hashing::digest(&message),
        }
    }

    /// Whether what was built before still stands: it was built by this compiler, and every file that
    /// it depends on can be read and holds what it held.
    pub fn is_current(
        &self,
        built_with: &[u8],
        recorded: &[RecordedDependency],
        contents: &[Option<Vec<u8>>],
    ) -> (current: bool)
        requires
            recorded@.len() == contents@.len(),
        ensures
            current == (built_with@ == self.cache_key@ && all_unchanged(
                recorded@,
                contents@,
                0,
            )),
    {
        if !hashing::is_same(built_with, &self.cache_key) {
            return false;
        }
        let mut i: usize = 0;
        while i < recorded.len()
            invariant
                i <= recorded@.len(),
                recorded@.len() == contents@.len(),
                all_unchanged(recorded@, contents@, 0) == all_unchanged(
                    recorded@,
                    contents@,
                    i as int,
                ),
            decreases recorded@.len() - i,
        {
            match &contents[i] {
                Some(bytes) => {
                    let digest: Vec<u8> = hashing::digest(bytes);
                    if !hashing::is_same(&digest, &recorded[i].digest) {
                        return false;
                    }
                },
                None => {
                    return false;
                },
            }
            i += 1;
        }
        true
    }

    /// The record of the files that a source depends on.
    pub fn record_dependencies(&self, files: &[String], contents: &[Vec<u8>]) -> (recorded: Vec<
        RecordedDependency,
    >)
        requires
            files@.len() == contents@.len(),
        ensures
            recorded.deep_view() == record_of(
                files.deep_view(),
                contents@,
                files@.len() as int,
            ),
    {
        let mut recorded: Vec<RecordedDependency> = Vec::new();
        assert(recorded.deep_view() =~= Seq::empty());
        let mut i: usize = 0;
        while i < files.len()
            invariant
                i <= files@.len(),
                files@.len() == contents@.len(),
                recorded.deep_view() == record_of(files.deep_view(), contents@, i as int),
            decreases files@.len() - i,
        {
            assert(files.deep_view()[i as int] == files@[i as int]@);
            let digest: Vec<u8> = hashing::digest(&contents[i]);
            record(&mut recorded, files[i].as_str(), digest);
            i += 1;
        }
        recorded
    }

    /// The library files of a source file: each as the compiler writes it and as it is embedded.
    pub fn artifacts(&self, base: &str, shards: usize) -> (artifacts: Vec<(String, String)>)
        requires
            text::names_file(base@),
        ensures
            artifacts.deep_view() == Seq::new(
                shards as nat,
                |shard: int| artifact(base@, shards as int, shard, self.metallib_compressed),
            ),
    {
        let mut artifacts: Vec<(String, String)> = Vec::new();
        let ghost expected = Seq::new(
            shards as nat,
            |shard: int| artifact(base@, shards as int, shard, self.metallib_compressed),
        );
        assert(artifacts.deep_view() =~= expected.take(0));
        let mut i: usize = 0;
        while i < shards
            invariant
                i <= shards,
                text::names_file(base@),
                expected == Seq::new(
                    shards as nat,
                    |shard: int| artifact(base@, shards as int, shard, self.metallib_compressed),
                ),
                artifacts.deep_view() == expected.take(i as int),
            decreases shards - i,
        {
            let ghost before = artifacts.deep_view();
            let mut library: String = text::strip_extension(base);
            if shards != 1 {
                text::push_str(&mut library, ".shard");
                text::push_decimal(&mut library, i as u64);
            }
            text::push_str(&mut library, ".metallib");
            let mut embedded: String = text::copy_str(library.as_str());
            if self.metallib_compressed {
                text::push_str(&mut embedded, ".zst");
            }
            artifacts.push((library, embedded));
            i += 1;
            assert(artifacts.deep_view() =~= before.push(expected[i - 1]));
            assert(artifacts.deep_view() =~= expected.take(i as int));
        }
        assert(artifacts.deep_view() =~= expected);
        artifacts
    }

    /// What is embedded of a library: its bytes, or their compression at the highest level; nothing
    /// where that fails.
    pub fn embed(&self, library: Vec<u8>) -> (embedded: Option<Vec<u8>>)
        ensures
            !self.metallib_compressed ==> embedded == Some(library),
            self.metallib_compressed ==> embedded.deep_view() == hashing::zstd_frame(
                library@,
                METALLIB_COMPRESSION_LEVEL as int,
            ),
            self.metallib_compressed ==> (embedded matches Some(frame) ==> hashing::zstd_content(
                frame@,
            ) == library@),
    {
        if self.metallib_compressed {
            hashing::zstd_encode(&library, METALLIB_COMPRESSION_LEVEL)
        } else {
            Some(library)
        }
    }

    /// The name of the constant that holds the libraries of a source file.
    pub open spec fn library_name(source: Seq<char>) -> Seq<char> {
        let digest = hashing::blake3_digest(vstd::utf8::encode_utf8(source));
        text::with_hex("MTLB_"@, digest, digest.len() as int)
    }

    /// The name of the constant that holds the libraries of a source file.
    pub fn library_const(&self, source: &str) -> (name: String)
        ensures
            name@ == MetalCompiler::library_name(source@),
    {
        let digest: Vec<u8> = hashing::digest(source.as_bytes());
        let mut name: String = text::copy_str("MTLB_");
        text::push_hex(&mut name, &digest);
        name
    }

    /// The code for a source file: the constant with its libraries, and the code of its kernels.
    pub fn write_bindings(
        &self,
        library_const: &str,
        artifacts: &[(String, String)],
        bindings: &[String],
    ) -> (code: String)
        ensures
            code@ == with_bindings(
                with_embedded(
                    "const "@ + library_const@ + ": [&[u8]; "@ + text::decimal(
                        artifacts@.len() as nat,
                    ) + "usize] = ["@,
                    artifacts.deep_view(),
                    artifacts@.len() as int,
                ) + "]; "@,
                bindings.deep_view(),
                bindings@.len() as int,
            ),
    {
        let mut out: String = text::copy_str("const ");
        text::push_str(&mut out, library_const);
        text::push_str(&mut out, ": [&[u8]; ");
        text::push_decimal(&mut out, artifacts.len() as u64);
        text::push_str(&mut out, "usize] = [");
        let ghost opened = out@;
        let mut i: usize = 0;
        while i < artifacts.len()
            invariant
                i <= artifacts@.len(),
                out@ == with_embedded(opened, artifacts.deep_view(), i as int),
            decreases artifacts@.len() - i,
        {
            assert(artifacts.deep_view()[i as int] == artifacts@[i as int].deep_view());
            if i > 0 {
                text::push_str(&mut out, ", ");
            }
            text::push_str(&mut out, "include_bytes!(");
            text::push_str(
                &mut out,
                rust_source::write_string_literal(artifacts[i].1.as_str()).as_str(),
            );
            text::push_str(&mut out, ")");
            i += 1;
        }
        text::push_str(&mut out, "]; ");
        let ghost listed = out@;
        let mut j: usize = 0;
        while j < bindings.len()
            invariant
                j <= bindings@.len(),
                out@ == with_bindings(listed, bindings.deep_view(), j as int),
            decreases bindings@.len() - j,
        {
            assert(bindings.deep_view()[j as int] == bindings@[j as int]@);
            text::push_str(&mut out, bindings[j].as_str());
            text::push_str(&mut out, " ");
            j += 1;
        }
        out
    }
}

/// `out` with the first `count` library files behind it, each to be embedded.
pub open spec fn with_embedded(
    out: Seq<char>,
    artifacts: Seq<(Seq<char>, Seq<char>)>,
    count: int,
) -> Seq<char>
    decreases count,
{
    if count <= 0 {
        out
    } else {
        let before = with_embedded(out, artifacts, count - 1);
        (if count > 1 {
            before + ", "@
        } else {
            before
        }) + "include_bytes!("@ + rust_source::string_literal(artifacts[count - 1].1) + ")"@
    }
}

/// `out` with the first `count` pieces of code behind it.
pub open spec fn with_bindings(out: Seq<char>, bindings: Seq<Seq<char>>, count: int) -> Seq<char>
    decreases count,
{
    if count <= 0 {
        out
    } else {
        with_bindings(out, bindings, count - 1) + bindings[count - 1] + " "@
    }
}

fn record(recorded: &mut Vec<RecordedDependency>, path: &str, digest: Vec<u8>)
    ensures
        final(recorded).deep_view() == with_recorded(old(recorded).deep_view(), path@, digest@),
{
    let ghost before = recorded.deep_view();
    let ghost added = digest@;
    let mut i: usize = recorded.len();
    assert(before.take(i as int) =~= before);
    while i > 0
        invariant
            i <= recorded@.len(),
            added == digest@,
            before == recorded.deep_view(),
            before == old(recorded).deep_view(),
            recorded_at(before, path@) == recorded_at(before.take(i as int), path@),
        decreases i,
    {
        assert(before.take(i as int).last() == recorded@[i - 1].deep_view());
        if text::is_same(recorded[i - 1].path.as_str(), path) {
            recorded.set(
                i - 1,
                RecordedDependency { path: text::copy_str(path), digest },
            );
            assert(recorded.deep_view() =~= before.update(i - 1, (path@, added)));
            return ;
        }
        assert(before.take(i as int).drop_last() =~= before.take(i - 1));
        i -= 1;
    }
    recorded.push(RecordedDependency { path: text::copy_str(path), digest });
    assert(recorded.deep_view() =~= before.push((path@, added)));
}

/// The number of source files that are compiled at once: as many as are asked for, but no more than
/// there are processors.
pub fn parallel_jobs(requested: Option<usize>, available: usize) -> (jobs: usize)
    ensures
        jobs == match requested {
            Some(requested) => if 0 < requested < available {
                requested
            } else {
                available
            },
            None => available,
        },
{
    match requested {
        Some(requested) => {
            if requested > 0 && requested < available {
                requested
            } else {
                available
            }
        },
        None => available,
    }
}

/// What is built from a source file.
#[derive(Debug, PartialEq, Eq)]
pub struct LibraryPlan {
    /// The name of the constant that holds the libraries.
    pub library_const: String,
    /// What is compiled behind the source file, shard by shard.
    pub footers: Vec<String>,
    /// Where each shard goes.
    pub artifacts: Vec<(String, String)>,
    /// The number of instances.
    pub variants: usize,
}

impl MetalCompiler {
    /// What is built from a source file: nothing where it has no kernels.
    pub fn plan_library(
        &self,
        source: &str,
        base: &str,
        kernels: &[KernelWrappers],
        ncpu: usize,
    ) -> (plan: Option<LibraryPlan>)
        requires
            text::names_file(base@),
            ncpu > 0,
            total_variants(kernels@, kernels@.len() as int) + ncpu <= usize::MAX,
        ensures
            plan is Some <==> kernels@.len() > 0,
            plan matches Some(plan) ==> ({
                let shards = spec_shard_count(
                    total_variants(kernels@, kernels@.len() as int),
                    ncpu as int,
                );
                &&& plan.library_const@ == MetalCompiler::library_name(source@)
                &&& plan.variants == total_variants(kernels@, kernels@.len() as int)
                &&& plan.footers@.len() == shards
                &&& forall|shard: int|
                    0 <= shard < shards ==> (#[trigger] plan.footers@[shard])@ == with_kernels(
                        Seq::empty(),
                        kernels@,
                        shards,
                        shard,
                        kernels@.len() as int,
                    )
                &&& plan.artifacts.deep_view() == Seq::new(
                    shards as nat,
                    |shard: int| artifact(base@, shards, shard, self.metallib_compressed),
                )
            }),
    {
        if kernels.len() == 0 {
            return None;
        }
        let footers: Vec<String> = shard_footers(kernels, ncpu);
        let artifacts: Vec<(String, String)> = self.artifacts(base, footers.len());
        Some(
            LibraryPlan {
                library_const: self.library_const(source),
                footers,
                artifacts,
                variants: count_variants(kernels),
            },
        )
    }
}

/// `left` comes before `right` by the first part in which the paths differ.
pub open spec fn path_before(left: Seq<Seq<char>>, right: Seq<Seq<char>>) -> bool
    decreases left.len(),
{
    if right.len() == 0 {
        false
    } else if left.len() == 0 {
        true
    } else if left[0] != right[0] {
        text::comes_before(left[0], right[0])
    } else {
        path_before(left.skip(1), right.skip(1))
    }
}

fn precedes(left: &[String], right: &[String]) -> (before: bool)
    ensures
        before == path_before(left.deep_view(), right.deep_view()),
{
    let mut i: usize = 0;
    let ghost left_parts = left.deep_view();
    let ghost right_parts = right.deep_view();
    proof {
        assert(left_parts.skip(0) =~= left_parts);
        assert(right_parts.skip(0) =~= right_parts);
    }
    while i < left.len() && i < right.len() && text::is_same(left[i].as_str(), right[i].as_str())
        invariant
            i <= left@.len(),
            i <= right@.len(),
            left_parts == left.deep_view(),
            right_parts == right.deep_view(),
            path_before(left_parts, right_parts) == path_before(
                left_parts.skip(i as int),
                right_parts.skip(i as int),
            ),
        decreases left@.len() - i,
    {
        proof {
            assert(left_parts[i as int] == left@[i as int]@);
            assert(right_parts[i as int] == right@[i as int]@);
            assert(left_parts.skip(i as int).skip(1) =~= left_parts.skip(i + 1));
            assert(right_parts.skip(i as int).skip(1) =~= right_parts.skip(i + 1));
        }
        i += 1;
    }
    if i < left.len() && i < right.len() {
        assert(left_parts.skip(i as int)[0] == left@[i as int]@);
        assert(right_parts.skip(i as int)[0] == right@[i as int]@);
        text::precedes(left[i].as_str(), right[i].as_str())
    } else {
        i < right.len()
    }
}

proof fn lemma_paths_are_ordered(left: Seq<Seq<char>>, middle: Seq<Seq<char>>, right: Seq<Seq<char>>)
    requires
        !path_before(middle, left),
        !path_before(right, middle),
    ensures
        !path_before(right, left),
    decreases left.len(),
{
    if left.len() > 0 && middle.len() > 0 && right.len() > 0 {
        text::lemma_order_is_total(left[0], middle[0]);
        text::lemma_order_is_total(middle[0], right[0]);
        text::lemma_order_is_total(left[0], right[0]);
        if left[0] == middle[0] && middle[0] == right[0] {
            lemma_paths_are_ordered(left.skip(1), middle.skip(1), right.skip(1));
        } else if left[0] != middle[0] && middle[0] != right[0] {
            text::lemma_order_is_transitive(left[0], middle[0], right[0]);
        }
    }
}

proof fn lemma_path_is_not_before_itself(left: Seq<Seq<char>>, right: Seq<Seq<char>>)
    ensures
        !(path_before(left, right) && path_before(right, left)),
    decreases left.len(),
{
    if left.len() > 0 && right.len() > 0 {
        text::lemma_order_is_total(left[0], right[0]);
        lemma_path_is_not_before_itself(left.skip(1), right.skip(1));
    }
}

/// The first `count` files that have kernels, in the order of their paths; equal paths stay in their
/// order.
pub open spec fn is_file_order(
    paths: Seq<Seq<Seq<char>>>,
    has_kernels: Seq<bool>,
    order: Seq<usize>,
    count: int,
) -> bool {
    &&& forall|i: int| 0 <= i < order.len() ==> (#[trigger] order[i]) < count && has_kernels[order[i] as int]
    &&& forall|k: int| #![trigger has_kernels[k]]
        0 <= k < count && has_kernels[k] ==> order.contains(k as usize)
    &&& forall|i: int, j: int|
        0 <= i < j < order.len() ==> may_stand_before(
            paths,
            #[trigger] order[i] as int,
            #[trigger] order[j] as int,
        )
}

/// Whether one file may stand before another: its path does not come after the other's, and comes
/// before it unless the files are in that order themselves.
pub open spec fn may_stand_before(paths: Seq<Seq<Seq<char>>>, first: int, second: int) -> bool {
    &&& !path_before(paths[second], paths[first])
    &&& first < second || path_before(paths[first], paths[second])
}

/// The files that have kernels, in the order of their paths.
pub fn order_files(paths: &[Vec<String>], has_kernels: &[bool]) -> (order: Vec<usize>)
    requires
        paths@.len() == has_kernels@.len(),
    ensures
        is_file_order(paths.deep_view(), has_kernels@, order@, paths@.len() as int),
{
    let ghost all = paths.deep_view();
    let mut order: Vec<usize> = Vec::new();
    let mut k: usize = 0;
    while k < paths.len()
        invariant
            k <= paths@.len(),
            paths@.len() == has_kernels@.len(),
            all == paths.deep_view(),
            is_file_order(all, has_kernels@, order@, k as int),
        decreases paths@.len() - k,
    {
        let ghost before = order@;
        if has_kernels[k] {
            let mut place: usize = order.len();
            while place > 0 && precedes(&paths[k], &paths[order[place - 1]])
                invariant
                    k < paths@.len(),
                    paths@.len() == has_kernels@.len(),
                    all == paths.deep_view(),
                    order@ == before,
                    place <= order@.len(),
                    is_file_order(all, has_kernels@, order@, k as int),
                    forall|i: int|
                        place <= i < order@.len() ==> path_before(
                            all[k as int],
                            all[#[trigger] order@[i] as int],
                        ),
                decreases place,
            {
                assert(all[order@[place - 1] as int] == paths@[order@[place - 1] as int].deep_view());
                assert(all[k as int] == paths@[k as int].deep_view());
                place -= 1;
            }
            proof {
                if place > 0 {
                    assert(all[order@[place - 1] as int]
                        == paths@[order@[place - 1] as int].deep_view());
                    assert(all[k as int] == paths@[k as int].deep_view());
                }
            }
            order.insert(place, k);
            proof {
                lemma_file_is_inserted(all, has_kernels@, before, k as int, place as int);
            }
        } else {
            assert(is_file_order(all, has_kernels@, order@, k + 1));
        }
        k += 1;
    }
    order
}

/// A file that is inserted may stand before what its path comes before.
proof fn lemma_inserted_before_later(paths: Seq<Seq<Seq<char>>>, inserted: int, later: int)
    requires
        path_before(paths[inserted], paths[later]),
    ensures
        may_stand_before(paths, inserted, later),
{
    lemma_path_is_not_before_itself(paths[inserted], paths[later]);
}

/// What stands before the file behind which another is inserted may stand before that other, too.
proof fn lemma_earlier_before_inserted(
    paths: Seq<Seq<Seq<char>>>,
    earlier: int,
    last: int,
    inserted: int,
)
    requires
        earlier < inserted,
        earlier == last || may_stand_before(paths, earlier, last),
        !path_before(paths[inserted], paths[last]),
    ensures
        may_stand_before(paths, earlier, inserted),
{
    if earlier != last {
        lemma_paths_are_ordered(paths[earlier], paths[last], paths[inserted]);
    }
}

/// Where the entries of an order are after another was inserted.
proof fn lemma_insertion_keeps_entries(order: Seq<usize>, place: int, entry: usize)
    requires
        0 <= place <= order.len(),
    ensures
        order.insert(place, entry).len() == order.len() + 1,
        order.insert(place, entry)[place] == entry,
        forall|i: int|
            0 <= i <= order.len() && i != place ==> #[trigger] order.insert(place, entry)[i] == order[if i
                < place {
                i
            } else {
                i - 1
            }],
        forall|other: usize|
            order.contains(other) ==> #[trigger] order.insert(place, entry).contains(other),
{
    let after = order.insert(place, entry);
    assert forall|other: usize| order.contains(other) implies #[trigger] after.contains(other) by {
        let i = choose|i: int| 0 <= i < order.len() && order[i] == other;
        assert(after[if i < place {
            i
        } else {
            i + 1
        }] == other);
    }
}

/// The files are still those that have kernels after one more was inserted.
proof fn lemma_files_after_insertion(
    paths: Seq<Seq<Seq<char>>>,
    has_kernels: Seq<bool>,
    order: Seq<usize>,
    k: int,
    place: int,
)
    requires
        0 <= k < paths.len() <= usize::MAX,
        has_kernels[k],
        0 <= place <= order.len(),
        is_file_order(paths, has_kernels, order, k),
    ensures
        ({
            let after = order.insert(place, k as usize);
            &&& forall|i: int|
                0 <= i < after.len() ==> (#[trigger] after[i]) < k + 1 && has_kernels[after[i] as int]
            &&& forall|m: int| #![trigger has_kernels[m]]
                0 <= m < k + 1 && has_kernels[m] ==> after.contains(m as usize)
        }),
{
    let after = order.insert(place, k as usize);
    lemma_insertion_keeps_entries(order, place, k as usize);
    assert forall|m: int| #![trigger has_kernels[m]]
        0 <= m < k + 1 && has_kernels[m] implies after.contains(m as usize) by {
        if m < k {
            assert(order.contains(m as usize));
        } else {
            assert(after[place] == m as usize);
        }
    }
}

/// Two files may stand in their order after one more was inserted.
proof fn lemma_pair_after_insertion(
    paths: Seq<Seq<Seq<char>>>,
    has_kernels: Seq<bool>,
    order: Seq<usize>,
    k: int,
    place: int,
    i: int,
    j: int,
)
    requires
        0 <= k < paths.len() <= usize::MAX,
        0 <= place <= order.len(),
        is_file_order(paths, has_kernels, order, k),
        place > 0 ==> !path_before(paths[k], paths[order[place - 1] as int]),
        forall|m: int|
            place <= m < order.len() ==> path_before(paths[k], paths[#[trigger] order[m] as int]),
        0 <= i < j <= order.len(),
    ensures
        may_stand_before(
            paths,
            order.insert(place, k as usize)[i] as int,
            order.insert(place, k as usize)[j] as int,
        ),
{
    let after = order.insert(place, k as usize);
    lemma_insertion_keeps_entries(order, place, k as usize);
    if i == place {
        assert(after[j] == order[j - 1]);
        lemma_inserted_before_later(paths, k, order[j - 1] as int);
    } else if j == place {
        assert(after[i] == order[i]);
        assert(order[place - 1] < k);
        lemma_earlier_before_inserted(paths, order[i] as int, order[place - 1] as int, k);
    } else {
        let first = order[if i < place {
            i
        } else {
            i - 1
        }];
        let second = order[if j < place {
            j
        } else {
            j - 1
        }];
        assert(after[i] == first && after[j] == second);
    }
}

proof fn lemma_file_is_inserted(
    paths: Seq<Seq<Seq<char>>>,
    has_kernels: Seq<bool>,
    order: Seq<usize>,
    k: int,
    place: int,
)
    requires
        0 <= k < paths.len() <= usize::MAX,
        has_kernels[k],
        0 <= place <= order.len(),
        is_file_order(paths, has_kernels, order, k),
        place > 0 ==> !path_before(paths[k], paths[order[place - 1] as int]),
        forall|i: int|
            place <= i < order.len() ==> path_before(paths[k], paths[#[trigger] order[i] as int]),
    ensures
        is_file_order(paths, has_kernels, order.insert(place, k as usize), k + 1),
{
    let after = order.insert(place, k as usize);
    lemma_files_after_insertion(paths, has_kernels, order, k, place);
    assert forall|i: int, j: int| 0 <= i < j < after.len() implies may_stand_before(
        paths,
        #[trigger] after[i] as int,
        #[trigger] after[j] as int,
    ) by {
        lemma_pair_after_insertion(paths, has_kernels, order, k, place, i, j);
    }
}

/// Shards hold 64 instances at most and are not more than it takes: fewer than the processors only where each
/// but one holds eight instances, and else a whole number of rounds of which none could be spared.
pub proof fn law_shards_are_neither_many_nor_large(total: usize, ncpu: usize, shards: usize)
    requires
        ncpu > 0,
        call_ensures(shard_count, (total, ncpu), shards),
    ensures
        shards * 64 >= total,
        shards < ncpu ==> shards * 8 >= total && (shards > 0 ==> (shards - 1) * 8 < total),
        shards >= ncpu ==> shards as int % ncpu as int == 0,
        shards > ncpu ==> (shards - ncpu) * 64 < total,
{
    let count = total as int;
    let processors = ncpu as int;
    let least = div_ceil_int(count, 64);
    let wanted = div_ceil_int(count, 8);
    law_shards_suffice(count, processors);
    if shards >= ncpu {
        law_no_processor_idles(count, processors);
    }
    let most = if least > processors {
        least
    } else {
        processors
    };
    let clamped = if wanted < least {
        least
    } else if wanted > most {
        most
    } else {
        wanted
    };
    if clamped >= processors {
        lemma_rounds(clamped, processors);
        assert(shards < clamped + processors);
        if shards > ncpu {
            assert(clamped > processors) by {
                if clamped == processors {
                    lemma_rounds(clamped, processors);
                    assert(div_ceil_int(processors, processors) == 1) by (nonlinear_arith)
                        requires
                            processors > 0,
                    ;
                }
            }
        }
    }
}

proof fn lemma_rounds(value: int, size: int)
    requires
        size > 0,
    ensures
        value <= div_ceil_int(value, size) * size < value + size,
{
    let count = (value + size - 1) / size;
    assert(count * size >= value && count * size < value + size) by (nonlinear_arith)
        requires
            size > 0,
            count == (value + size - 1) / size,
    ;
}

proof fn lemma_sources(
    out: Seq<char>,
    variants: Seq<VariantSource>,
    shards: int,
    shard: int,
    count: int,
    at: int,
)
    requires
        0 <= count <= variants.len(),
    ensures
        text::begins_with(with_sources(out, variants, shards, shard, count), out),
        0 <= at < count && shard_of(variants[at].name@, shards) == shard ==> text::is_part(
            with_sources(out, variants, shards, shard, count),
            variants[at].source@,
        ),
    decreases count,
{
    if count > 0 {
        lemma_sources(out, variants, shards, shard, count - 1, at);
        let before = with_sources(out, variants, shards, shard, count - 1);
        let whole = with_sources(out, variants, shards, shard, count);
        let source = variants[count - 1].source@;
        if shard_of(variants[count - 1].name@, shards) == shard {
            assert(whole == before + source);
            text::lemma_begins_with_part(before, source, whole);
            assert forall|i: int| 0 <= i < out.len() implies #[trigger] whole[i] == out[i] by {
                assert(before[i] == out[i]);
            }
            if 0 <= at < count - 1 && shard_of(variants[at].name@, shards) == shard {
                text::lemma_part_is_kept(whole, before, variants[at].source@);
            }
        }
    }
}

proof fn lemma_kernel_grows(out: Seq<char>, kernel: KernelWrappers, shards: int, shard: int)
    ensures
        text::begins_with(with_kernel(out, kernel, shards, shard), out),
{
    let count = kernel.variants@.len() as int;
    let whole = with_kernel(out, kernel, shards, shard);
    let header = optional_text(kernel.header);
    let footer = optional_text(kernel.footer);
    if has_shard(kernel.variants@, shards, shard, count) {
        let opened = out + header;
        let inside = with_sources(opened, kernel.variants@, shards, shard, count);
        lemma_sources(opened, kernel.variants@, shards, shard, count, -1);
        assert(whole == inside + footer);
        assert forall|i: int| 0 <= i < out.len() implies #[trigger] whole[i] == out[i] by {
            assert(opened[i] == out[i]);
            assert(inside[i] == opened[i]);
        }
    }
}

proof fn lemma_kernel_in_shard(
    out: Seq<char>,
    kernel: KernelWrappers,
    shards: int,
    shard: int,
    at: int,
)
    requires
        0 <= at < kernel.variants@.len(),
        shard_of(kernel.variants@[at].name@, shards) == shard,
    ensures
        text::is_part(with_kernel(out, kernel, shards, shard), kernel.variants@[at].source@),
        text::is_part(with_kernel(out, kernel, shards, shard), optional_text(kernel.header)),
        text::is_part(with_kernel(out, kernel, shards, shard), optional_text(kernel.footer)),
{
    let count = kernel.variants@.len() as int;
    let whole = with_kernel(out, kernel, shards, shard);
    let header = optional_text(kernel.header);
    let footer = optional_text(kernel.footer);
    assert(shard_of((kernel.variants@[at]).name@, shards) == shard);
    let opened = out + header;
    let inside = with_sources(opened, kernel.variants@, shards, shard, count);
    lemma_sources(opened, kernel.variants@, shards, shard, count, at);
    text::lemma_begins_with_part(out, header, inside);
    assert(whole == inside + footer);
    text::lemma_begins_with_part(inside, footer, whole);
    text::lemma_part_is_kept(whole, inside, header);
    text::lemma_part_is_kept(whole, inside, kernel.variants@[at].source@);
}

proof fn lemma_kernels_in_shard(
    kernels: Seq<KernelWrappers>,
    shards: int,
    shard: int,
    count: int,
    kernel: int,
    at: int,
)
    requires
        0 <= kernel < count <= kernels.len(),
        0 <= at < kernels[kernel].variants@.len(),
        shard_of(kernels[kernel].variants@[at].name@, shards) == shard,
    ensures
        ({
            let whole = with_kernels(Seq::empty(), kernels, shards, shard, count);
            &&& text::is_part(whole, kernels[kernel].variants@[at].source@)
            &&& text::is_part(whole, optional_text(kernels[kernel].header))
            &&& text::is_part(whole, optional_text(kernels[kernel].footer))
        }),
    decreases count,
{
    let before = with_kernels(Seq::empty(), kernels, shards, shard, count - 1);
    let whole = with_kernels(Seq::empty(), kernels, shards, shard, count);
    if kernel < count - 1 {
        lemma_kernels_in_shard(kernels, shards, shard, count - 1, kernel, at);
        lemma_kernel_grows(before, kernels[count - 1], shards, shard);
        text::lemma_part_is_kept(whole, before, kernels[kernel].variants@[at].source@);
        text::lemma_part_is_kept(whole, before, optional_text(kernels[kernel].header));
        text::lemma_part_is_kept(whole, before, optional_text(kernels[kernel].footer));
    } else {
        lemma_kernel_in_shard(before, kernels[kernel], shards, shard, at);
    }
}

/// Every instance of every kernel is compiled in the shard that its name gives it, together with what stands
/// around the instances of its kernel.
pub proof fn law_every_instance_is_compiled(
    kernels: &[KernelWrappers],
    ncpu: usize,
    footers: Vec<String>,
    kernel: int,
    at: int,
)
    requires
        ncpu > 0,
        call_ensures(shard_footers, (kernels, ncpu), footers),
        0 <= kernel < kernels@.len(),
        0 <= at < kernels@[kernel].variants@.len(),
        footers@.len() > 0,
    ensures
        exists|shard: int|
            0 <= shard < footers@.len() && text::is_part(
                (#[trigger] footers@[shard])@,
                kernels@[kernel].variants@[at].source@,
            ) && text::is_part(footers@[shard]@, optional_text(kernels@[kernel].header))
                && text::is_part(footers@[shard]@, optional_text(kernels@[kernel].footer)),
{
    let shards = footers@.len() as int;
    let name = kernels@[kernel].variants@[at].name@;
    law_variant_has_a_shard(name, shards);
    let shard = shard_of(name, shards);
    lemma_kernels_in_shard(kernels@, shards, shard, kernels@.len() as int, kernel, at);
    assert(footers@[shard]@ == with_kernels(
        Seq::empty(),
        kernels@,
        shards,
        shard,
        kernels@.len() as int,
    ));
}

/// Every shard has a file of its own, which begins with the name of the source file; where libraries are
/// compressed the file that is embedded is another one.
pub proof fn law_shards_have_their_files(
    compiler: MetalCompiler,
    base: &str,
    shards: usize,
    artifacts: Vec<(String, String)>,
    stem: String,
    first: int,
    second: int,
)
    requires
        call_ensures(MetalCompiler::artifacts, (&compiler, base, shards), artifacts),
        call_ensures(text::strip_extension, (base,), stem),
        0 <= first < shards,
        0 <= second < shards,
    ensures
        artifacts@.len() == shards,
        ({
            let (written, embedded) = artifacts.deep_view()[first];
            &&& written.take(stem@.len() as int) == stem@
            &&& shards == 1 ==> written == stem@ + ".metallib"@
            &&& compiler.metallib_compressed ==> embedded == written + ".zst"@
            &&& !compiler.metallib_compressed ==> embedded == written
            &&& first != second ==> written != artifacts.deep_view()[second].0
        }),
{
    assert(artifacts.deep_view().len() == artifacts@.len());
    let front = stem@;
    let written = artifacts.deep_view()[first].0;
    let other = artifacts.deep_view()[second].0;
    assert(written.take(front.len() as int) =~= front);
    if first != second {
        text::law_digits_tell_numbers_apart(first as nat, second as nat);
        reveal_strlit(".shard");
        reveal_strlit(".metallib");
        let prefix = (front.len() + 6) as int;
        assert(written.subrange(prefix, written.len() - 9) =~= text::decimal(first as nat));
        assert(other.subrange(prefix, other.len() - 9) =~= text::decimal(second as nat));
    }
}

proof fn lemma_all_unchanged(
    recorded: Seq<RecordedDependency>,
    contents: Seq<Option<Vec<u8>>>,
    from: int,
)
    requires
        0 <= from <= recorded.len(),
    ensures
        all_unchanged(recorded, contents, from) <==> forall|i: int|
            from <= i < recorded.len() ==> (#[trigger] contents[i] matches Some(bytes)
                && hashing::blake3_digest(bytes@) == recorded[i].digest@),
    decreases recorded.len() - from,
{
    if from < recorded.len() {
        lemma_all_unchanged(recorded, contents, from + 1);
    }
}

/// What was built stands exactly where this compiler built it and each file can be read and has the digest that
/// it had.
pub proof fn law_changes_are_noticed(
    compiler: MetalCompiler,
    built_with: &[u8],
    recorded: &[RecordedDependency],
    contents: &[Option<Vec<u8>>],
    current: bool,
)
    requires
        call_ensures(MetalCompiler::is_current, (&compiler, built_with, recorded, contents), current),
    ensures
        current <==> built_with@ == compiler.cache_key@ && forall|i: int|
            0 <= i < recorded@.len() ==> (#[trigger] contents@[i] matches Some(bytes)
                && hashing::blake3_digest(bytes@) == recorded@[i].digest@),
{
    lemma_all_unchanged(recorded@, contents@, 0);
}

/// A library is embedded so that its bytes can be had from what is embedded.
pub proof fn law_embedded_libraries_are_whole(
    compiler: MetalCompiler,
    library: Vec<u8>,
    embedded: Vec<u8>,
)
    requires
        call_ensures(MetalCompiler::embed, (&compiler, library), Some(embedded)),
    ensures
        compiler.metallib_compressed ==> hashing::zstd_content(embedded@) == library@,
        !compiler.metallib_compressed ==> embedded@ == library@,
{
}

/// Libraries are not compressed at the three lowest levels, and what is built in two ways is told apart: the
/// key is that of the build system, the toolchain and whether libraries are compressed.
pub proof fn law_compression_follows_the_level(
    manifest_dir: &str,
    out_dir: &str,
    opt_level: &str,
    build_system_hash: &[u8],
    toolchain_key: &[u8],
    compiler: MetalCompiler,
)
    requires
        call_ensures(
            MetalCompiler::new,
            (manifest_dir, out_dir, opt_level, build_system_hash, toolchain_key),
            compiler,
        ),
    ensures
        opt_level@ == "0"@ || opt_level@ == "1"@ || opt_level@ == "2"@ ==> !compiler.metallib_compressed,
        !compiler.metallib_compressed ==> opt_level@ == "0"@ || opt_level@ == "1"@ || opt_level@ == "2"@,
        compiler.cache_key@ == hashing::blake3_digest(
            build_system_hash@ + toolchain_key@ + (if compiler.metallib_compressed {
                seq![1u8]
            } else {
                seq![0u8]
            }),
        ),
        compiler.source_directory@.len() > manifest_dir@.len(),
        compiler.source_directory@.take(manifest_dir@.len() as int) == manifest_dir@,
        compiler.output_directory@.take(out_dir@.len() as int) == out_dir@,
{
    let keys = build_system_hash@ + toolchain_key@;
    assert(keys.push(1u8) =~= keys + seq![1u8]);
    assert(keys.push(0u8) =~= keys + seq![0u8]);
    reveal_strlit("src/backends/metal/kernel");
    assert(compiler.source_directory@.take(manifest_dir@.len() as int) =~= manifest_dir@);
    assert(compiler.output_directory@.take(out_dir@.len() as int) =~= out_dir@);
}

/// As many jobs run as were asked for, where that is possible, and else as many as there are processors.
pub proof fn law_jobs_fit_the_processors(requested: Option<usize>, available: usize, jobs: usize)
    requires
        call_ensures(parallel_jobs, (requested, available), jobs),
    ensures
        jobs <= available,
        requested is None ==> jobs == available,
        requested == Some(0usize) ==> jobs == available,
        requested matches Some(requested) ==> (0 < requested <= available ==> jobs == requested),
        available > 0 ==> jobs > 0,
{
}

/// A source file with kernels has a library with a file for every shard, and all its instances are counted.
pub proof fn law_kernels_have_a_library(
    compiler: MetalCompiler,
    source: &str,
    base: &str,
    kernels: &[KernelWrappers],
    ncpu: usize,
    plan: Option<LibraryPlan>,
    name: String,
    footers: Vec<String>,
    artifacts: Vec<(String, String)>,
)
    requires
        ncpu > 0,
        total_variants(kernels@, kernels@.len() as int) + ncpu <= usize::MAX,
        call_ensures(MetalCompiler::plan_library, (&compiler, source, base, kernels, ncpu), plan),
        call_ensures(MetalCompiler::library_const, (&compiler, source), name),
        call_ensures(shard_footers, (kernels, ncpu), footers),
        call_ensures(MetalCompiler::artifacts, (&compiler, base, footers@.len() as usize), artifacts),
        footers@.len() <= usize::MAX,
    ensures
        plan is None <==> kernels@.len() == 0,
        plan matches Some(plan) ==> {
            &&& plan.library_const@ == name@
            &&& plan.footers@.len() == footers@.len()
            &&& forall|shard: int|
                0 <= shard < footers@.len() ==> (#[trigger] plan.footers@[shard])@ == footers@[shard]@
            &&& plan.artifacts.deep_view() == artifacts.deep_view()
            &&& plan.variants == total_variants(kernels@, kernels@.len() as int)
        },
{
    if let Some(plan) = plan {
        assert forall|shard: int| 0 <= shard < footers@.len() implies (#[trigger] plan.footers@[shard])@
            == footers@[shard]@ by {
            assert(footers@[shard]@ == with_kernels(
                Seq::empty(),
                kernels@,
                footers@.len() as int,
                shard,
                kernels@.len() as int,
            ));
        }
        assert(plan.artifacts.deep_view() =~= artifacts.deep_view());
    }
}

proof fn lemma_recorded_at(recorded: Seq<(Seq<char>, Seq<u8>)>, path: Seq<char>)
    ensures
        match recorded_at(recorded, path) {
            Some(index) => 0 <= index < recorded.len() && recorded[index].0 == path,
            None => forall|i: int| 0 <= i < recorded.len() ==> (#[trigger] recorded[i]).0 != path,
        },
    decreases recorded.len(),
{
    if recorded.len() > 0 && recorded.last().0 != path {
        lemma_recorded_at(recorded.drop_last(), path);
        if recorded_at(recorded, path) is None {
            assert forall|i: int| 0 <= i < recorded.len() implies (#[trigger] recorded[i]).0 != path by {
                if i < recorded.len() - 1 {
                    assert(recorded.drop_last()[i] == recorded[i]);
                }
            }
        }
    }
}

proof fn lemma_record(files: Seq<Seq<char>>, contents: Seq<Vec<u8>>, count: int, at: int)
    requires
        0 <= count <= files.len(),
        files.len() == contents.len(),
    ensures
        ({
            let recorded = record_of(files, contents, count);
            &&& forall|i: int, j: int|
                0 <= i < j < recorded.len() ==> (#[trigger] recorded[i]).0 != (#[trigger] recorded[j]).0
            &&& 0 <= at < count && (forall|later: int| at < later < count ==> files[later] != files[at])
                ==> recorded.contains((files[at], hashing::blake3_digest(contents[at]@)))
        }),
    decreases count,
{
    if count > 0 {
        lemma_record(files, contents, count - 1, at);
        let before = record_of(files, contents, count - 1);
        let path = files[count - 1];
        let digest = hashing::blake3_digest(contents[count - 1]@);
        let recorded = record_of(files, contents, count);
        lemma_recorded_at(before, path);
        if 0 <= at < count && (forall|later: int| at < later < count ==> files[later] != files[at]) {
            let entry = (files[at], hashing::blake3_digest(contents[at]@));
            if at == count - 1 {
                match recorded_at(before, path) {
                    Some(index) => {
                        assert(recorded[index] == entry);
                    },
                    None => {
                        assert(recorded[recorded.len() - 1] == entry);
                    },
                }
            } else {
                let i = choose|i: int| 0 <= i < before.len() && before[i] == entry;
                assert(files[count - 1] != files[at]);
                assert(recorded[i] == entry);
            }
        }
    }
}

/// Every file is recorded once, with the digest of what it held when it was last listed.
pub proof fn law_dependencies_are_recorded_once(
    compiler: MetalCompiler,
    files: &[String],
    contents: &[Vec<u8>],
    recorded: Vec<RecordedDependency>,
    at: int,
    first: int,
    second: int,
)
    requires
        files@.len() == contents@.len(),
        call_ensures(MetalCompiler::record_dependencies, (&compiler, files, contents), recorded),
    ensures
        0 <= first < second < recorded@.len() ==> recorded@[first].path@ != recorded@[second].path@,
        0 <= at < files@.len() && (forall|later: int|
            at < later < files@.len() ==> files.deep_view()[later] != files.deep_view()[at])
            ==> recorded.deep_view().contains(
            (files.deep_view()[at], hashing::blake3_digest(contents@[at]@)),
        ),
{
    assert(files.deep_view().len() == files@.len());
    assert(recorded.deep_view().len() == recorded@.len());
    lemma_record(files.deep_view(), contents@, files@.len() as int, at);
    if 0 <= first < second < recorded@.len() {
        assert(recorded.deep_view()[first] == recorded@[first].deep_view());
        assert(recorded.deep_view()[second] == recorded@[second].deep_view());
    }
}

/// Paths are ordered by the first part in which they differ, and a path comes before what lies below it.
pub proof fn law_paths_are_ordered_part_by_part(
    common: Seq<Seq<char>>,
    left: Seq<Seq<char>>,
    right: Seq<Seq<char>>,
)
    ensures
        left.len() > 0 && right.len() > 0 && left[0] != right[0] ==> path_before(
            common + left,
            common + right,
        ) == text::comes_before(left[0], right[0]),
        left.len() == 0 && right.len() > 0 ==> path_before(common + left, common + right),
        right.len() == 0 ==> !path_before(common + left, common + right),
    decreases common.len(),
{
    if common.len() == 0 {
        assert(common + left =~= left);
        assert(common + right =~= right);
    } else {
        law_paths_are_ordered_part_by_part(common.skip(1), left, right);
        assert((common + left).skip(1) =~= common.skip(1) + left);
        assert((common + right).skip(1) =~= common.skip(1) + right);
    }
}

} // verus!
