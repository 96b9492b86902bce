//! How the Metal compiler is run, and what is made of its answers.
use vstd::prelude::*;

use crate::build::hashing;
use crate::text;

verus! {

/// The kit that kernels are compiled with.
#[derive(Clone, Copy, Debug, PartialEq, Eq, Structural)]
pub enum MetalSdk {
    MacOSX,
    MacCatalyst,
    IPhoneOS,
    IPhoneSimulator,
}

impl MetalSdk {
    /// The kit for a target.
    pub open spec fn for_parts(
        target: Seq<char>,
        target_os: Seq<char>,
        target_env: Seq<char>,
    ) -> Option<MetalSdk> {
        if target_os == "ios"@ {
            if text::is_part(target, "macabi"@) || target_env == "macabi"@ {
                Some(MetalSdk::MacCatalyst)
            } else if text::is_part(target, "ios"@) && (text::is_part(target, "86_64"@)
                || target_env == "sim"@) {
                Some(MetalSdk::IPhoneSimulator)
            } else {
                Some(MetalSdk::IPhoneOS)
            }
        } else if target_os == "macos"@ {
            Some(MetalSdk::MacOSX)
        } else {
            None
        }
    }

    /// The kit for a target; nothing where there is none.
    pub fn from_parts(target: &str, target_os: &str, target_env: &str) -> (sdk: Option<MetalSdk>)
        ensures
            sdk == MetalSdk::for_parts(target@, target_os@, target_env@),
    {
        if text::is_same(target_os, "ios") {
            if text::contains(target, "macabi") || text::is_same(target_env, "macabi") {
                Some(MetalSdk::MacCatalyst)
            } else if text::contains(target, "ios") && (text::contains(target, "86_64")
                || text::is_same(target_env, "sim")) {
                Some(MetalSdk::IPhoneSimulator)
            } else {
                Some(MetalSdk::IPhoneOS)
            }
        } else if text::is_same(target_os, "macos") {
            Some(MetalSdk::MacOSX)
        } else {
            None
        }
    }

    /// The name of the kit.
    pub open spec fn name(self) -> Seq<char> {
        match self {
            MetalSdk::MacOSX => "macosx"@,
            MetalSdk::MacCatalyst => "maccatalyst"@,
            MetalSdk::IPhoneOS => "iphoneos"@,
            MetalSdk::IPhoneSimulator => "iphonesimulator"@,
        }
    }

    /// The name of the kit.
    pub fn to_str(&self) -> (name: &'static str)
        ensures
            name@ == self.name(),
    {
        match self {
            MetalSdk::MacOSX => "macosx",
            MetalSdk::MacCatalyst => "maccatalyst",
            MetalSdk::IPhoneOS => "iphoneos",
            MetalSdk::IPhoneSimulator => "iphonesimulator",
        }
    }

    /// The system that the kit is for.
    pub open spec fn system(self) -> Seq<char> {
        match self {
            MetalSdk::MacOSX | MetalSdk::MacCatalyst => "macosx"@,
            MetalSdk::IPhoneOS | MetalSdk::IPhoneSimulator => "ios"@,
        }
    }

    /// The system that the kit is for.
    pub fn os(&self) -> (system: &'static str)
        ensures
            system@ == self.system(),
    {
        match self {
            MetalSdk::MacOSX | MetalSdk::MacCatalyst => "macosx",
            MetalSdk::IPhoneOS | MetalSdk::IPhoneSimulator => "ios",
        }
    }
}

/// The version of the language.
#[derive(Clone, Copy, Debug, PartialEq, Eq, Structural)]
pub enum MetalStd {
    Metal4_0,
}

impl MetalStd {
    /// The name of the version.
    pub fn to_str(&self) -> (name: &'static str)
        ensures
            name@ == "metal4.0"@,
    {
        match self {
            MetalStd::Metal4_0 => "metal4.0",
        }
    }

    /// The first version of the system that has it.
    pub fn min_os(&self) -> (version: &'static str)
        ensures
            version@ == "26.4"@,
    {
        match self {
            MetalStd::Metal4_0 => "26.4",
        }
    }
}

/// What a command wrote, and whether it succeeded.
#[derive(Debug, PartialEq, Eq)]
pub struct CommandOutput {
    pub success: bool,
    pub stdout: Vec<u8>,
    pub stderr: Vec<u8>,
}

/// Why there is no toolchain.
#[derive(Clone, Copy, Debug, PartialEq, Eq, Structural)]
pub enum ToolchainError {
    /// There is no kit for the target.
    Sdk,
    /// Whether to write debug information is neither `true` nor `false`.
    Debug,
    /// A question about the version of the tools failed.
    Version { question: usize },
}

/// How kernels are compiled.
#[derive(Debug)]
pub struct MetalToolchain {
    pub sdk: MetalSdk,
    pub std: MetalStd,
    pub opt_flags: Vec<String>,
    pub extra_options: Vec<String>,
    pub include_dirs: Vec<String>,
    pub cache_key: Vec<u8>,
}

/// The flags for an optimization level and debug information. Kernels that are not optimized at all
/// are broken, so the lowest level is the first.
pub open spec fn flags_for(opt_level: Seq<char>, debug: Seq<char>) -> Option<Seq<Seq<char>>> {
    let level = if opt_level == "0"@ {
        "-O1"@
    } else {
        "-O2"@
    };
    if debug == "false"@ {
        Some(seq![level])
    } else if debug == "true"@ {
        Some(seq![level, "-gline-tables-only"@, "-frecord-sources"@])
    } else {
        None
    }
}

/// The flags for an optimization level and debug information.
pub fn optimization_flags(opt_level: &str, debug: &str) -> (flags: Option<Vec<String>>)
    ensures
        flags.deep_view() == flags_for(opt_level@, debug@),
{
    let mut flags: Vec<String> = Vec::new();
    if text::is_same(opt_level, "0") {
        flags.push(text::copy_str("-O1"));
    } else {
        flags.push(text::copy_str("-O2"));
    }
    if text::is_same(debug, "false") {
        assert(flags.deep_view() =~= flags_for(opt_level@, debug@)->0);
        Some(flags)
    } else if text::is_same(debug, "true") {
        flags.push(text::copy_str("-gline-tables-only"));
        flags.push(text::copy_str("-frecord-sources"));
        assert(flags.deep_view() =~= flags_for(opt_level@, debug@)->0);
        Some(flags)
    } else {
        None
    }
}

/// The option that says which system the kernels have to run on.
pub open spec fn system_option(sdk: MetalSdk) -> Seq<char> {
    "-m"@ + sdk.system() + "-version-min="@ + "26.4"@
}

/// `bytes` with text behind it, and a zero byte behind that.
pub open spec fn with_terminated(bytes: Seq<u8>, part: Seq<u8>) -> Seq<u8> {
    (bytes + part).push(0)
}

/// `bytes` with the first `count` texts behind it, each with a zero byte.
pub open spec fn with_flags(bytes: Seq<u8>, flags: Seq<Seq<char>>, count: int) -> Seq<u8>
    decreases count,
{
    if count <= 0 {
        bytes
    } else {
        with_terminated(
            with_flags(bytes, flags, count - 1),
            vstd::utf8::encode_utf8(flags[count - 1]),
        )
    }
}

/// `bytes` with what the first `count` commands wrote behind it, each part with a zero byte.
pub open spec fn with_outputs(bytes: Seq<u8>, outputs: Seq<CommandOutput>, count: int) -> Seq<u8>
    decreases count,
{
    if count <= 0 {
        bytes
    } else {
        let before = with_outputs(bytes, outputs, count - 1);
        with_terminated(
            with_terminated(before, outputs[count - 1].stdout@),
            outputs[count - 1].stderr@,
        )
    }
}

fn push_terminated(bytes: &mut Vec<u8>, part: &[u8])
    ensures
        final(bytes)@ == with_terminated(old(bytes)@, part@),
{
    bytes.extend_from_slice(part);
    bytes.push(0);
}

fn push_flags(bytes: &mut Vec<u8>, flags: &[String])
    ensures
        final(bytes)@ == with_flags(old(bytes)@, flags.deep_view(), flags@.len() as int),
{
    let ghost before = bytes@;
    let mut i: usize = 0;
    while i < flags.len()
        invariant
            i <= flags@.len(),
            bytes@ == with_flags(before, flags.deep_view(), i as int),
        decreases flags@.len() - i,
    {
        assert(flags.deep_view()[i as int] == flags@[i as int]@);
        push_terminated(bytes, flags[i].as_str().as_bytes());
        i += 1;
    }
}

/// The first of the commands from `from` on that failed.
pub open spec fn first_failure(outputs: Seq<CommandOutput>, from: int) -> Option<int>
    decreases outputs.len() - from,
{
    if from >= outputs.len() {
        None
    } else if !outputs[from].success {
        Some(from)
    } else {
        first_failure(outputs, from + 1)
    }
}

fn find_failure(outputs: &[CommandOutput]) -> (failure: Option<usize>)
    ensures
        match failure {
            Some(index) => first_failure(outputs@, 0) == Some(index as int),
            None => first_failure(outputs@, 0) is None,
        },
{
    let mut i: usize = 0;
    while i < outputs.len()
        invariant
            i <= outputs@.len(),
            first_failure(outputs@, 0) == first_failure(outputs@, i as int),
        decreases outputs@.len() - i,
    {
        if !outputs[i].success {
            return Some(i);
        }
        i += 1;
    }
    None
}

/// What a toolchain is recognized by: its kit, its language, its flags, and what the tools say of
/// their version.
pub open spec fn toolchain_message(
    sdk: MetalSdk,
    flags: Seq<Seq<char>>,
    outputs: Seq<CommandOutput>,
) -> Seq<u8> {
    let named = with_terminated(
        with_terminated(Seq::empty(), vstd::utf8::encode_utf8(sdk.name())),
        vstd::utf8::encode_utf8("metal4.0"@),
    );
    let flagged = with_flags(
        with_flags(named, flags, flags.len() as int),
        seq![system_option(sdk)],
        1,
    );
    with_outputs(flagged, outputs, outputs.len() as int)
}

fn write_message(
    sdk: MetalSdk,
    std: MetalStd,
    flags: &[String],
    extra_options: &[String],
    outputs: &[CommandOutput],
) -> (message: Vec<u8>)
    requires
        extra_options.deep_view() == seq![system_option(sdk)],
    ensures
        message@ == toolchain_message(sdk, flags.deep_view(), outputs@),
{
    let mut message: Vec<u8> = Vec::new();
    push_terminated(&mut message, sdk.to_str().as_bytes());
    push_terminated(&mut message, std.to_str().as_bytes());
    push_flags(&mut message, flags);
    push_flags(&mut message, extra_options);
    assert(extra_options@.len() == 1) by {
        assert(extra_options.deep_view().len() == 1);
    }
    let ghost flagged = message@;
    let mut i: usize = 0;
    while i < outputs.len()
        invariant
            i <= outputs@.len(),
            message@ == with_outputs(flagged, outputs@, i as int),
        decreases outputs@.len() - i,
    {
        push_terminated(&mut message, &outputs[i].stdout);
        push_terminated(&mut message, &outputs[i].stderr);
        i += 1;
    }
    message
}

fn push_text(texts: &mut Vec<String>, added: &str)
    ensures
        final(texts).deep_view() == old(texts).deep_view().push(added@),
{
    let ghost before = texts.deep_view();
    texts.push(text::copy_str(added));
    assert(texts.deep_view() =~= before.push(added@));
}

fn push_texts(texts: &mut Vec<String>, added: &[String])
    ensures
        final(texts).deep_view() == old(texts).deep_view() + added.deep_view(),
{
    let ghost before = texts.deep_view();
    let mut i: usize = 0;
    assert(before + added.deep_view().take(0) =~= before);
    while i < added.len()
        invariant
            i <= added@.len(),
            texts.deep_view() == before + added.deep_view().take(i as int),
        decreases added@.len() - i,
    {
        push_text(texts, added[i].as_str());
        i += 1;
        assert(texts.deep_view() =~= before + added.deep_view().take(i as int));
    }
    assert(added.deep_view().take(i as int) =~= added.deep_view());
}

/// The arguments by which the tools are asked about their version.
pub open spec fn questions(sdk: MetalSdk) -> Seq<Seq<Seq<char>>> {
    seq![
        seq!["-sdk"@, sdk.name(), "metal"@, "--version"@],
        seq!["-sdk"@, sdk.name(), "--show-sdk-version"@],
        seq!["-sdk"@, sdk.name(), "--show-sdk-build-version"@],
    ]
}

/// The arguments by which the tools are asked about their version.
pub fn version_questions(sdk: MetalSdk) -> (arguments: Vec<Vec<String>>)
    ensures
        arguments.deep_view() == questions(sdk),
{
    let mut compiler: Vec<String> = Vec::new();
    push_text(&mut compiler, "-sdk");
    push_text(&mut compiler, sdk.to_str());
    push_text(&mut compiler, "metal");
    push_text(&mut compiler, "--version");
    let mut version: Vec<String> = Vec::new();
    push_text(&mut version, "-sdk");
    push_text(&mut version, sdk.to_str());
    push_text(&mut version, "--show-sdk-version");
    let mut build: Vec<String> = Vec::new();
    push_text(&mut build, "-sdk");
    push_text(&mut build, sdk.to_str());
    push_text(&mut build, "--show-sdk-build-version");
    assert(compiler.deep_view() =~= questions(sdk)[0]);
    assert(version.deep_view() =~= questions(sdk)[1]);
    assert(build.deep_view() =~= questions(sdk)[2]);
    let mut arguments: Vec<Vec<String>> = Vec::new();
    arguments.push(compiler);
    arguments.push(version);
    arguments.push(build);
    assert(arguments.deep_view() =~= questions(sdk));
    arguments
}

/// `arguments` with the first `count` directories behind them, each to be searched for headers.
pub open spec fn with_directories(
    arguments: Seq<Seq<char>>,
    directories: Seq<Seq<char>>,
    count: int,
) -> Seq<Seq<char>>
    decreases count,
{
    if count <= 0 {
        arguments
    } else {
        with_directories(arguments, directories, count - 1).push("-I"@).push(
            directories[count - 1],
        )
    }
}

impl MetalToolchain {
    /// The toolchain for a target, given what the tools answered to [`version_questions`]: each of
    /// them in turn, up to the first that failed.
    pub fn new(
        target: &str,
        target_os: &str,
        target_env: &str,
        opt_level: &str,
        debug: &str,
        include_dir: Option<String>,
        outputs: &[CommandOutput],
    ) -> (toolchain: Result<MetalToolchain, ToolchainError>)
        requires
            outputs@.len() == 3 || (outputs@.len() > 0 && !outputs@.last().success),
        ensures
            match (
                MetalSdk::for_parts(target@, target_os@, target_env@),
                flags_for(opt_level@, debug@),
                first_failure(outputs@, 0),
            ) {
                (None, _, _) => toolchain matches Err(error) && error == ToolchainError::Sdk,
                (_, None, _) => toolchain matches Err(error) && error == ToolchainError::Debug,
                (_, _, Some(question)) => toolchain matches Err(error) && error
                    == (ToolchainError::Version { question: question as usize }),
                (Some(sdk), Some(flags), None) => toolchain matches Ok(toolchain)
                    && toolchain.sdk == sdk && toolchain.std == MetalStd::Metal4_0
                    && toolchain.opt_flags.deep_view() == flags
                    && toolchain.extra_options.deep_view() == seq![system_option(sdk)]
                    && toolchain.include_dirs.deep_view() == (match include_dir.deep_view() {
                    Some(directory) => seq![directory],
                    None => Seq::empty(),
                }) && toolchain.cache_key@ == hashing::blake3_digest(
                    toolchain_message(sdk, flags, outputs@),
                ),
            },
    {
        let sdk: MetalSdk = match MetalSdk::from_parts(target, target_os, target_env) {
            Some(sdk) => sdk,
            None => {
                return Err(ToolchainError::Sdk);
            },
        };
        let std: MetalStd = MetalStd::Metal4_0;
        let opt_flags: Vec<String> = match optimization_flags(opt_level, debug) {
            Some(flags) => flags,
            None => {
                return Err(ToolchainError::Debug);
            },
        };
        let mut option: String = text::copy_str("-m");
        text::push_str(&mut option, sdk.os());
        text::push_str(&mut option, "-version-min=");
        text::push_str(&mut option, std.min_os());
        let mut extra_options: Vec<String> = Vec::new();
        extra_options.push(option);
        assert(extra_options.deep_view() =~= seq![system_option(sdk)]);
        let mut include_dirs: Vec<String> = Vec::new();
        if let Some(directory) = include_dir {
            include_dirs.push(directory);
        }
        assert(include_dirs.deep_view() =~= (match include_dir.deep_view() {
            Some(directory) => seq![directory],
            None => Seq::empty(),
        }));
        if let Some(question) = find_failure(outputs) {
            return Err(ToolchainError::Version { question });
        }
        let message: Vec<u8> = write_message(sdk, std, &opt_flags, &extra_options, outputs);
        let cache_key: Vec<u8> = hashing::digest(&message);
        Ok(MetalToolchain { sdk, std, opt_flags, extra_options, include_dirs, cache_key })
    }

    /// The arguments that every run of the compiler begins with.
    pub open spec fn common_arguments(self) -> Seq<Seq<char>> {
        seq![
            "-sdk"@,
            self.sdk.name(),
            "metal"@,
            "-x"@,
            "metal"@,
            "-std="@ + "metal4.0"@,
        ] + self.extra_options.deep_view()
    }

    fn write_common_arguments(&self) -> (arguments: Vec<String>)
        ensures
            arguments.deep_view() == self.common_arguments(),
    {
        let mut arguments: Vec<String> = Vec::new();
        push_text(&mut arguments, "-sdk");
        push_text(&mut arguments, self.sdk.to_str());
        push_text(&mut arguments, "metal");
        push_text(&mut arguments, "-x");
        push_text(&mut arguments, "metal");
        let mut language: String = text::copy_str("-std=");
        text::push_str(&mut language, self.std.to_str());
        push_text(&mut arguments, language.as_str());
        push_texts(&mut arguments, &self.extra_options);
        assert(arguments.deep_view() =~= self.common_arguments());
        arguments
    }

    fn add_include_dirs(&self, arguments: &mut Vec<String>)
        ensures
            final(arguments).deep_view() == with_directories(
                old(arguments).deep_view(),
                self.include_dirs.deep_view(),
                self.include_dirs@.len() as int,
            ),
    {
        let ghost before = arguments.deep_view();
        let mut i: usize = 0;
        while i < self.include_dirs.len()
            invariant
                i <= self.include_dirs@.len(),
                arguments.deep_view() == with_directories(
                    before,
                    self.include_dirs.deep_view(),
                    i as int,
                ),
            decreases self.include_dirs@.len() - i,
        {
            assert(self.include_dirs.deep_view()[i as int] == self.include_dirs@[i as int]@);
            push_text(arguments, "-I");
            push_text(arguments, self.include_dirs[i].as_str());
            i += 1;
        }
    }

    /// The arguments of the run that reads a source file without compiling it: it writes the syntax
    /// tree, and the files that the source depends on.
    pub fn analyze_arguments(&self, source: &str, depfile: &str) -> (arguments: Vec<String>)
        ensures
            arguments.deep_view() == with_directories(
                self.common_arguments(),
                self.include_dirs.deep_view(),
                self.include_dirs@.len() as int,
            ).push("-DDSL_ANALYZE"@).push(source@).push("-fsyntax-only"@).push("-MMD"@).push(
                "-MF"@,
            ).push(depfile@).push("-Xclang"@).push("-ast-dump=json"@),
    {
        let mut arguments: Vec<String> = self.write_common_arguments();
        self.add_include_dirs(&mut arguments);
        push_text(&mut arguments, "-DDSL_ANALYZE");
        push_text(&mut arguments, source);
        push_text(&mut arguments, "-fsyntax-only");
        push_text(&mut arguments, "-MMD");
        push_text(&mut arguments, "-MF");
        push_text(&mut arguments, depfile);
        push_text(&mut arguments, "-Xclang");
        push_text(&mut arguments, "-ast-dump=json");
        arguments
    }

    /// The arguments of the run that compiles a source file with what is given to it as input behind
    /// it.
    pub fn compile_arguments(&self, source: &str, output: &str) -> (arguments: Vec<String>)
        ensures
            arguments.deep_view() == with_directories(
                self.common_arguments() + self.opt_flags.deep_view(),
                self.include_dirs.deep_view(),
                self.include_dirs@.len() as int,
            ).push("-include"@).push(source@).push("-"@).push("-o"@).push(output@),
    {
        let mut arguments: Vec<String> = self.write_common_arguments();
        push_texts(&mut arguments, &self.opt_flags);
        self.add_include_dirs(&mut arguments);
        push_text(&mut arguments, "-include");
        push_text(&mut arguments, source);
        push_text(&mut arguments, "-");
        push_text(&mut arguments, "-o");
        push_text(&mut arguments, output);
        arguments
    }

    /// The key by which what was built is recognized.
    pub fn cache_key(&self) -> (key: &[u8])
        ensures
            key@ == self.cache_key@,
    {
        self.cache_key.as_slice()
    }
}

/// What the compiler has to say: its warnings, if there are any, or why it failed.
pub fn compile_answer(success: bool, stderr: String) -> (answer: Result<Option<String>, String>)
    ensures
        answer == if !success {
            Err::<Option<String>, String>(stderr)
        } else if stderr@.len() == 0 {
            Ok(None)
        } else {
            Ok(Some(stderr))
        },
{
    if !success {
        Err(stderr)
    } else if stderr.as_str().is_empty() {
        Ok(None)
    } else {
        Ok(Some(stderr))
    }
}

/// The rules of a file of dependencies: each target with what it depends on.
pub uninterp spec fn dependency_rules(depfile: Seq<char>) -> Option<
    Seq<(Seq<char>, Seq<Seq<char>>)>,
>;

/// Calls `depfile::parse`; nothing where the text is no file of dependencies.
#[verifier::external_body]
fn read_dependency_rules(depfile: &str) -> (rules: Option<Vec<(String, Vec<String>)>>)
    ensures
        rules.deep_view() == dependency_rules(depfile@),
{
    let depfile = depfile::parse(depfile).ok()?;
    let files = |files: &[std::borrow::Cow<str>]| files.iter().map(|file| file.to_string()).collect();
    Some(depfile.iter().map(|(target, list)| (target.to_owned(), files(list))).collect())
}

/// What the first `count` targets depend on.
pub open spec fn all_dependencies(rules: Seq<(Seq<char>, Seq<Seq<char>>)>, count: int) -> Seq<
    Seq<char>,
>
    decreases count,
{
    if count <= 0 {
        Seq::empty()
    } else {
        all_dependencies(rules, count - 1) + rules[count - 1].1
    }
}

/// The files that a source depends on, as the compiler wrote them; nothing where that cannot be read.
pub fn dependencies(depfile: &str) -> (files: Option<Vec<String>>)
    ensures
        match dependency_rules(depfile@) {
            Some(rules) => files.deep_view() == Some(all_dependencies(rules, rules.len() as int)),
            None => files is None,
        },
{
    let rules: Vec<(String, Vec<String>)> = match read_dependency_rules(depfile) {
        Some(rules) => rules,
        None => {
            return None;
        },
    };
    Some(flatten_dependencies(&rules))
}

/// The files that the targets of rules depend on.
pub fn flatten_dependencies(rules: &[(String, Vec<String>)]) -> (files: Vec<String>)
    ensures
        files.deep_view() == all_dependencies(rules.deep_view(), rules@.len() as int),
{
    let mut files: Vec<String> = Vec::new();
    assert(files.deep_view() =~= Seq::empty());
    let mut i: usize = 0;
    while i < rules.len()
        invariant
            i <= rules@.len(),
            files.deep_view() == all_dependencies(rules.deep_view(), i as int),
        decreases rules@.len() - i,
    {
        assert(rules.deep_view()[i as int] == rules@[i as int].deep_view());
        push_texts(&mut files, &rules[i].1);
        i += 1;
    }
    files
}

/// There is a kit for desktops and phones only. On a phone's system, a target for the desktop's catalyst gets
/// that kit, and one for another processor or a simulator gets the simulator's.
pub proof fn law_kits_follow_the_target(
    target: &str,
    target_os: &str,
    target_env: &str,
    sdk: Option<MetalSdk>,
)
    requires
        call_ensures(MetalSdk::from_parts, (target, target_os, target_env), sdk),
    ensures
        sdk is None <==> target_os@ != "ios"@ && target_os@ != "macos"@,
        sdk == Some(MetalSdk::MacOSX) <==> target_os@ == "macos"@,
        target_os@ == "ios"@ ==> {
            let catalyst = text::is_part(target@, "macabi"@) || target_env@ == "macabi"@;
            let simulated = text::is_part(target@, "ios"@) && (text::is_part(target@, "86_64"@)
                || target_env@ == "sim"@);
            &&& sdk == Some(MetalSdk::MacCatalyst) <==> catalyst
            &&& sdk == Some(MetalSdk::IPhoneSimulator) <==> simulated && !catalyst
            &&& sdk == Some(MetalSdk::IPhoneOS) <==> !simulated && !catalyst
        },
{
    reveal_strlit("ios");
    reveal_strlit("macos");
}

/// Kits have different names; those for desktops are for one system, and those for phones for another.
pub proof fn law_kits_are_named_apart(
    left: MetalSdk,
    right: MetalSdk,
    left_name: &'static str,
    right_name: &'static str,
    left_system: &'static str,
    right_system: &'static str,
)
    requires
        call_ensures(MetalSdk::to_str, (&left,), left_name),
        call_ensures(MetalSdk::to_str, (&right,), right_name),
        call_ensures(MetalSdk::os, (&left,), left_system),
        call_ensures(MetalSdk::os, (&right,), right_system),
    ensures
        left_name@ == right_name@ <==> left == right,
        left_system@ == right_system@ <==> ((left is IPhoneOS || left is IPhoneSimulator) <==> (
        right is IPhoneOS || right is IPhoneSimulator)),
        left is MacOSX ==> left_name@ == left_system@,
        left is IPhoneOS ==> left_name@ == "iphoneos"@ && left_system@ == "ios"@,
{
    reveal_strlit("macosx");
    reveal_strlit("maccatalyst");
    reveal_strlit("iphoneos");
    reveal_strlit("iphonesimulator");
    reveal_strlit("ios");
    assert("macosx"@.len() == 6 && "maccatalyst"@.len() == 11 && "iphoneos"@.len() == 8);
    assert("iphonesimulator"@.len() == 15 && "ios"@.len() == 3);
}

/// Kernels are always optimized, at the lowest level only where nothing else is; debug information adds two
/// flags, and is asked for by a word that says so or not.
pub proof fn law_kernels_are_always_optimized(
    opt_level: &str,
    debug: &str,
    flags: Option<Vec<String>>,
)
    requires
        call_ensures(optimization_flags, (opt_level, debug), flags),
    ensures
        flags is Some <==> debug@ == "true"@ || debug@ == "false"@,
        flags matches Some(flags) ==> {
            &&& flags@.len() == (if debug@ == "true"@ {
                3int
            } else {
                1
            })
            &&& flags.deep_view()[0] == (if opt_level@ == "0"@ {
                "-O1"@
            } else {
                "-O2"@
            })
            &&& debug@ == "true"@ ==> flags.deep_view().contains("-gline-tables-only"@)
                && flags.deep_view().contains("-frecord-sources"@)
        },
{
    reveal_strlit("true");
    reveal_strlit("false");
    assert("true"@.len() == 4 && "false"@.len() == 5);
    if let Some(written) = flags {
        assert(flags.deep_view() == Some(written.deep_view()));
        assert(written.deep_view().len() == written@.len());
        if debug@ == "true"@ {
            assert(written.deep_view()[1] == "-gline-tables-only"@);
            assert(written.deep_view()[2] == "-frecord-sources"@);
        }
    }
}

/// The tools are asked three questions about the kit, each another one.
pub proof fn law_tools_are_asked_about_the_kit(
    sdk: MetalSdk,
    arguments: Vec<Vec<String>>,
    name: &'static str,
    at: int,
    other: int,
)
    requires
        call_ensures(version_questions, (sdk,), arguments),
        call_ensures(MetalSdk::to_str, (&sdk,), name),
        0 <= at < other < 3,
    ensures
        arguments@.len() == 3,
        arguments.deep_view()[at].len() >= 3,
        arguments.deep_view()[at][0] == "-sdk"@,
        arguments.deep_view()[at][1] == name@,
        arguments.deep_view()[at].last() != arguments.deep_view()[other].last(),
        arguments.deep_view()[0].last() == "--version"@,
{
    reveal_strlit("--version");
    reveal_strlit("--show-sdk-version");
    reveal_strlit("--show-sdk-build-version");
    assert("--version"@.len() == 9 && "--show-sdk-version"@.len() == 18);
    assert("--show-sdk-build-version"@.len() == 24);
    assert(arguments.deep_view().len() == arguments@.len());
}

proof fn lemma_first_failure(outputs: Seq<CommandOutput>, from: int, at: int)
    requires
        0 <= from <= at < outputs.len(),
    ensures
        match first_failure(outputs, from) {
            Some(index) => from <= index < outputs.len() && !outputs[index].success && (at < index
                ==> outputs[at].success),
            None => outputs[at].success,
        },
    decreases outputs.len() - from,
{
    assert(first_failure(outputs, outputs.len() as int) is None);
    if outputs[from].success && from + 1 < outputs.len() {
        lemma_first_failure(
            outputs,
            from + 1,
            if at > from {
                at
            } else {
                from + 1
            },
        );
    }
}

/// There is a toolchain only where every question was answered; else the first that was not is told.
pub proof fn law_toolchain_needs_all_answers(
    target: &str,
    target_os: &str,
    target_env: &str,
    opt_level: &str,
    debug: &str,
    include_dir: Option<String>,
    outputs: &[CommandOutput],
    toolchain: Result<MetalToolchain, ToolchainError>,
    at: int,
)
    requires
        0 <= at < outputs@.len() <= usize::MAX,
        call_ensures(
            MetalToolchain::new,
            (target, target_os, target_env, opt_level, debug, include_dir, outputs),
            toolchain,
        ),
    ensures
        toolchain is Ok ==> outputs@[at].success,
        toolchain matches Err(ToolchainError::Version { question }) ==> question < outputs@.len()
            && !outputs@[question as int].success && (at < question ==> outputs@[at].success),
        toolchain matches Err(ToolchainError::Sdk) ==> target_os@ != "ios"@ && target_os@ != "macos"@,
        toolchain matches Err(ToolchainError::Debug) ==> debug@ != "true"@ && debug@ != "false"@,
        (target_os@ == "ios"@ || target_os@ == "macos"@) && (debug@ == "true"@ || debug@ == "false"@)
            && (forall|i: int| 0 <= i < outputs@.len() ==> (#[trigger] outputs@[i]).success)
            ==> toolchain is Ok,
{
    lemma_first_failure(outputs@, 0, at);
}

/// A toolchain has the kit of its target, the flags for what was asked, and the directory that was given.
pub proof fn law_toolchain_is_as_asked(
    target: &str,
    target_os: &str,
    target_env: &str,
    opt_level: &str,
    debug: &str,
    include_dir: Option<String>,
    outputs: &[CommandOutput],
    toolchain: MetalToolchain,
    sdk: Option<MetalSdk>,
    flags: Option<Vec<String>>,
    key: &[u8],
)
    requires
        call_ensures(
            MetalToolchain::new,
            (target, target_os, target_env, opt_level, debug, include_dir, outputs),
            Ok::<MetalToolchain, ToolchainError>(toolchain),
        ),
        call_ensures(MetalSdk::from_parts, (target, target_os, target_env), sdk),
        call_ensures(optimization_flags, (opt_level, debug), flags),
        call_ensures(MetalToolchain::cache_key, (&toolchain,), key),
    ensures
        sdk == Some(toolchain.sdk),
        flags matches Some(flags) && flags.deep_view() == toolchain.opt_flags.deep_view(),
        include_dir is None ==> toolchain.include_dirs@.len() == 0,
        include_dir matches Some(directory) ==> toolchain.include_dirs.deep_view() == seq![directory@],
        toolchain.extra_options@.len() == 1,
        key@ == toolchain.cache_key@,
{
    assert(toolchain.include_dirs.deep_view().len() == toolchain.include_dirs@.len());
    assert(toolchain.extra_options.deep_view().len() == toolchain.extra_options@.len());
    if let Some(written) = flags {
        assert(flags.deep_view() == Some(written.deep_view()));
    }
    if let Some(directory) = include_dir {
        assert(include_dir.deep_view() == Some(directory@));
    }
}

/// `part` stands in `whole`.
pub open spec fn holds_bytes(whole: Seq<u8>, part: Seq<u8>) -> bool {
    exists|index: int|
        0 <= index && index + part.len() <= whole.len() && #[trigger] whole.subrange(
            index,
            index + part.len(),
        ) == part
}

proof fn lemma_holds_bytes(before: Seq<u8>, part: Seq<u8>, after: Seq<u8>)
    ensures
        holds_bytes(before + part + after, part),
{
    let index = before.len() as int;
    assert((before + part + after).subrange(index, index + part.len()) =~= part);
}

proof fn lemma_still_holds_bytes(whole: Seq<u8>, part: Seq<u8>, after: Seq<u8>)
    requires
        holds_bytes(whole, part),
    ensures
        holds_bytes(whole + after, part),
{
    let index = choose|index: int|
        0 <= index && index + part.len() <= whole.len() && #[trigger] whole.subrange(
            index,
            index + part.len(),
        ) == part;
    assert((whole + after).subrange(index, index + part.len()) =~= part);
}

proof fn lemma_outputs_are_held(bytes: Seq<u8>, outputs: Seq<CommandOutput>, count: int, at: int)
    requires
        0 <= count <= outputs.len(),
    ensures
        exists|after: Seq<u8>| with_outputs(bytes, outputs, count) == #[trigger] (bytes + after),
        0 <= at < count ==> holds_bytes(with_outputs(bytes, outputs, count), outputs[at].stdout@)
            && holds_bytes(with_outputs(bytes, outputs, count), outputs[at].stderr@),
    decreases count,
{
    let whole = with_outputs(bytes, outputs, count);
    if count <= 0 {
        assert(whole =~= bytes + Seq::<u8>::empty());
    } else {
        lemma_outputs_are_held(bytes, outputs, count - 1, at);
        let before = with_outputs(bytes, outputs, count - 1);
        let stdout = outputs[count - 1].stdout@;
        let stderr = outputs[count - 1].stderr@;
        let zero = seq![0u8];
        let added = stdout + zero + stderr + zero;
        assert(whole =~= before + added);
        let after = choose|after: Seq<u8>| before == #[trigger] (bytes + after);
        assert(whole =~= bytes + (after + added));
        lemma_holds_bytes(before, stdout, zero + stderr + zero);
        assert(whole =~= before + stdout + (zero + stderr + zero));
        lemma_holds_bytes(before + stdout + zero, stderr, zero);
        assert(whole =~= before + stdout + zero + stderr + zero);
        if 0 <= at < count - 1 {
            lemma_still_holds_bytes(before, outputs[at].stdout@, added);
            lemma_still_holds_bytes(before, outputs[at].stderr@, added);
        }
    }
}

proof fn lemma_flags_are_held(bytes: Seq<u8>, flags: Seq<Seq<char>>, count: int, at: int)
    requires
        0 <= count <= flags.len(),
    ensures
        exists|after: Seq<u8>| with_flags(bytes, flags, count) == #[trigger] (bytes + after),
        0 <= at < count ==> holds_bytes(
            with_flags(bytes, flags, count),
            vstd::utf8::encode_utf8(flags[at]),
        ),
    decreases count,
{
    let whole = with_flags(bytes, flags, count);
    if count <= 0 {
        assert(whole =~= bytes + Seq::<u8>::empty());
    } else {
        lemma_flags_are_held(bytes, flags, count - 1, at);
        let before = with_flags(bytes, flags, count - 1);
        let flag = vstd::utf8::encode_utf8(flags[count - 1]);
        let zero = seq![0u8];
        assert(whole =~= before + (flag + zero));
        assert(whole =~= before + flag + zero);
        let after = choose|after: Seq<u8>| before == #[trigger] (bytes + after);
        assert(whole =~= bytes + (after + (flag + zero)));
        lemma_holds_bytes(before, flag, zero);
        if 0 <= at < count - 1 {
            lemma_still_holds_bytes(before, vstd::utf8::encode_utf8(flags[at]), flag + zero);
        }
    }
}

/// What a toolchain is recognized by holds the name of its kit, each flag, the option for its system, and
/// everything that the tools said of their version.
pub proof fn law_toolchains_are_recognized_by_all_of_it(
    sdk: MetalSdk,
    flags: Seq<Seq<char>>,
    outputs: Seq<CommandOutput>,
    flag: int,
    output: int,
)
    ensures
        ({
            let message = toolchain_message(sdk, flags, outputs);
            &&& holds_bytes(message, vstd::utf8::encode_utf8(sdk.name()))
            &&& 0 <= flag < flags.len() ==> holds_bytes(message, vstd::utf8::encode_utf8(flags[flag]))
            &&& holds_bytes(
                message,
                vstd::utf8::encode_utf8("-m"@ + sdk.system() + "-version-min="@ + "26.4"@),
            )
            &&& 0 <= output < outputs.len() ==> holds_bytes(message, outputs[output].stdout@)
                && holds_bytes(message, outputs[output].stderr@)
        }),
{
    let name = vstd::utf8::encode_utf8(sdk.name());
    let language = vstd::utf8::encode_utf8("metal4.0"@);
    let zero = seq![0u8];
    let named = with_terminated(with_terminated(Seq::empty(), name), language);
    assert(named =~= Seq::<u8>::empty() + name + (zero + language + zero));
    lemma_holds_bytes(Seq::empty(), name, zero + language + zero);
    let flagged = with_flags(named, flags, flags.len() as int);
    lemma_flags_are_held(named, flags, flags.len() as int, flag);
    let first = choose|after: Seq<u8>| flagged == #[trigger] (named + after);
    lemma_still_holds_bytes(named, name, first);
    let system = seq![system_option(sdk)];
    let opted = with_flags(flagged, system, 1);
    lemma_flags_are_held(flagged, system, 1, 0);
    let second = choose|after: Seq<u8>| opted == #[trigger] (flagged + after);
    lemma_still_holds_bytes(flagged, name, second);
    if 0 <= flag < flags.len() {
        lemma_still_holds_bytes(flagged, vstd::utf8::encode_utf8(flags[flag]), second);
    }
    let message = with_outputs(opted, outputs, outputs.len() as int);
    lemma_outputs_are_held(opted, outputs, outputs.len() as int, output);
    let third = choose|after: Seq<u8>| message == #[trigger] (opted + after);
    lemma_still_holds_bytes(opted, name, third);
    lemma_still_holds_bytes(opted, vstd::utf8::encode_utf8(system[0]), third);
    if 0 <= flag < flags.len() {
        lemma_still_holds_bytes(opted, vstd::utf8::encode_utf8(flags[flag]), third);
    }
}

proof fn lemma_directories(arguments: Seq<Seq<char>>, directories: Seq<Seq<char>>, count: int, at: int)
    requires
        0 <= count <= directories.len(),
    ensures
        with_directories(arguments, directories, count).len() == arguments.len() + 2 * count,
        with_directories(arguments, directories, count).take(arguments.len() as int) == arguments,
        0 <= at < count ==> with_directories(arguments, directories, count)[arguments.len() + 2 * at]
            == "-I"@ && with_directories(arguments, directories, count)[arguments.len() + 2 * at + 1]
            == directories[at],
    decreases count,
{
    let whole = with_directories(arguments, directories, count);
    if count > 0 {
        lemma_directories(arguments, directories, count - 1, at);
        let before = with_directories(arguments, directories, count - 1);
        assert(whole.take(arguments.len() as int) =~= before.take(arguments.len() as int));
    } else {
        assert(whole.take(arguments.len() as int) =~= arguments);
    }
}

/// The compiler is run for the kit, with its optimization flags, with every directory, on the source, and
/// writes what it was told to.
pub proof fn law_compiler_is_run_on_the_source(
    toolchain: MetalToolchain,
    source: &str,
    output: &str,
    arguments: Vec<String>,
    flag: int,
    directory: int,
)
    requires
        call_ensures(MetalToolchain::compile_arguments, (&toolchain, source, output), arguments),
    ensures
        ({
            let told = arguments.deep_view();
            let flags = toolchain.opt_flags.deep_view();
            let options = toolchain.extra_options.deep_view();
            let directories = toolchain.include_dirs.deep_view();
            &&& told.len() == 11 + options.len() + flags.len() + 2 * directories.len()
            &&& told[told.len() - 1] == output@
            &&& told[told.len() - 2] == "-o"@
            &&& told[told.len() - 3] == "-"@
            &&& told[told.len() - 4] == source@
            &&& told[told.len() - 5] == "-include"@
            &&& told[0] == "-sdk"@ && told[1] == toolchain.sdk.name() && told[2] == "metal"@
            &&& 0 <= flag < options.len() ==> told[6 + flag] == options[flag]
            &&& 0 <= flag < flags.len() ==> told[6 + options.len() + flag] == flags[flag]
            &&& 0 <= directory < directories.len() ==> told[6 + options.len() + flags.len() + 2
                * directory] == "-I"@ && told[6 + options.len() + flags.len() + 2 * directory + 1]
                == directories[directory]
        }),
{
    let common = toolchain.common_arguments() + toolchain.opt_flags.deep_view();
    let directories = toolchain.include_dirs.deep_view();
    assert(directories.len() == toolchain.include_dirs@.len());
    lemma_directories(common, directories, directories.len() as int, directory);
    let whole = with_directories(common, directories, directories.len() as int);
    assert forall|i: int| 0 <= i < common.len() implies #[trigger] whole[i] == common[i] by {
        assert(whole.take(common.len() as int)[i] == common[i]);
    }
}

/// The run that reads a source does not compile it: it is told so, and where the dependencies go.
pub proof fn law_analysis_compiles_nothing(
    toolchain: MetalToolchain,
    source: &str,
    depfile: &str,
    arguments: Vec<String>,
    directory: int,
)
    requires
        call_ensures(MetalToolchain::analyze_arguments, (&toolchain, source, depfile), arguments),
    ensures
        ({
            let told = arguments.deep_view();
            let options = toolchain.extra_options.deep_view();
            let directories = toolchain.include_dirs.deep_view();
            &&& told.len() == 14 + options.len() + 2 * directories.len()
            &&& told[told.len() - 8] == "-DDSL_ANALYZE"@
            &&& told[told.len() - 7] == source@
            &&& told[told.len() - 6] == "-fsyntax-only"@
            &&& told[told.len() - 5] == "-MMD"@
            &&& told[told.len() - 4] == "-MF"@
            &&& told[told.len() - 3] == depfile@
            &&& told[told.len() - 2] == "-Xclang"@
            &&& told[told.len() - 1] == "-ast-dump=json"@
            &&& told[0] == "-sdk"@ && told[1] == toolchain.sdk.name() && told[2] == "metal"@
            &&& 0 <= directory < directories.len() ==> told[6 + options.len() + 2 * directory] == "-I"@
                && told[6 + options.len() + 2 * directory + 1] == directories[directory]
        }),
{
    let common = toolchain.common_arguments();
    let directories = toolchain.include_dirs.deep_view();
    assert(directories.len() == toolchain.include_dirs@.len());
    lemma_directories(common, directories, directories.len() as int, directory);
    let whole = with_directories(common, directories, directories.len() as int);
    assert forall|i: int| 0 <= i < common.len() implies #[trigger] whole[i] == common[i] by {
        assert(whole.take(common.len() as int)[i] == common[i]);
    }
}

/// A run that failed is an error with what it said; one that succeeded has warnings exactly where it said
/// anything.
pub proof fn law_answers_are_warnings_or_errors(
    success: bool,
    stderr: String,
    answer: Result<Option<String>, String>,
)
    requires
        call_ensures(compile_answer, (success, stderr), answer),
    ensures
        answer is Ok <==> success,
        answer matches Err(said) ==> said@ == stderr@,
        answer matches Ok(Some(said)) ==> said@ == stderr@ && said@.len() > 0,
        answer matches Ok(None) ==> stderr@.len() == 0,
{
}

proof fn lemma_dependencies(rules: Seq<(Seq<char>, Seq<Seq<char>>)>, count: int, rule: int, at: int)
    requires
        0 <= count <= rules.len(),
    ensures
        0 <= rule < count && 0 <= at < rules[rule].1.len() ==> all_dependencies(rules, count).contains(
            rules[rule].1[at],
        ),
    decreases count,
{
    if 0 <= rule < count && 0 <= at < rules[rule].1.len() {
        let before = all_dependencies(rules, count - 1);
        let all = all_dependencies(rules, count);
        if rule < count - 1 {
            lemma_dependencies(rules, count - 1, rule, at);
            let place = choose|place: int|
                0 <= place < before.len() && before[place] == rules[rule].1[at];
            assert(all[place] == rules[rule].1[at]);
        } else {
            assert(all[before.len() + at] == rules[rule].1[at]);
        }
    }
}

proof fn lemma_dependency_stands(rules: Seq<(Seq<char>, Seq<Seq<char>>)>, count: int, file: int)
    requires
        0 <= count <= rules.len(),
        0 <= file < all_dependencies(rules, count).len(),
    ensures
        exists|rule: int|
            0 <= rule < count && (#[trigger] rules[rule]).1.contains(all_dependencies(rules, count)[file]),
    decreases count,
{
    let before = all_dependencies(rules, count - 1);
    let all = all_dependencies(rules, count);
    if file < before.len() {
        lemma_dependency_stands(rules, count - 1, file);
        assert(all[file] == before[file]);
    } else {
        assert(all[file] == rules[count - 1].1[file - before.len()]);
        assert(rules[count - 1].1.contains(all[file]));
    }
}

/// Everything that a target depends on is listed, and nothing else is.
pub proof fn law_all_dependencies_are_listed(
    rules: &[(String, Vec<String>)],
    files: Vec<String>,
    rule: int,
    at: int,
    file: int,
)
    requires
        call_ensures(flatten_dependencies, (rules,), files),
    ensures
        0 <= rule < rules@.len() && 0 <= at < rules.deep_view()[rule].1.len()
            ==> files.deep_view().contains(rules.deep_view()[rule].1[at]),
        0 <= file < files@.len() ==> exists|target: int|
            0 <= target < rules@.len() && (#[trigger] rules.deep_view()[target]).1.contains(
                files.deep_view()[file],
            ),
{
    let deep = rules.deep_view();
    assert(deep.len() == rules@.len());
    assert(files.deep_view().len() == files@.len());
    lemma_dependencies(deep, deep.len() as int, rule, at);
    if 0 <= file < files@.len() {
        lemma_dependency_stands(deep, deep.len() as int, file);
    }
}

} // verus!
