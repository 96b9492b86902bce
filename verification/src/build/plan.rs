//! What is built for a target.
use vstd::prelude::*;

use crate::text;

verus! {

/// The features that were asked for.
#[derive(Clone, Copy, Debug, PartialEq, Eq)]
pub struct Features {
    pub cpu: bool,
    pub metal: bool,
    pub grammar: bool,
}

/// What is built.
#[derive(Clone, Copy, Debug, PartialEq, Eq, Structural)]
pub struct BuildPlan {
    pub backend_cpu: bool,
    pub backend_metal: bool,
    pub grammar: bool,
}

impl BuildPlan {
    /// The features that can be had on a target: Metal on the systems that have it, and grammars
    /// everywhere but in a browser.
    pub open spec fn for_target(
        features: Features,
        target_os: Seq<char>,
        target_arch: Seq<char>,
    ) -> BuildPlan {
        BuildPlan {
            backend_cpu: features.cpu,
            backend_metal: features.metal && (target_os == "macos"@ || target_os == "ios"@
                || target_os == "tvos"@ || target_os == "visionos"@),
            grammar: features.grammar && target_arch != "wasm32"@,
        }
    }

    /// What is built for a target.
    pub fn new(features: Features, target_os: &str, target_arch: &str) -> (plan: BuildPlan)
        ensures
            plan == BuildPlan::for_target(features, target_os@, target_arch@),
    {
        BuildPlan {
            backend_cpu: features.cpu,
            backend_metal: features.metal && (text::is_same(target_os, "macos") || text::is_same(
                target_os,
                "ios",
            ) || text::is_same(target_os, "tvos") || text::is_same(target_os, "visionos")),
            grammar: features.grammar && !text::is_same(target_arch, "wasm32"),
        }
    }

    /// Whether anything can be compiled: Metal only on a host that has its compiler.
    pub fn has_compiler(&self, metal_host: bool) -> (has_compiler: bool)
        ensures
            has_compiler == (self.backend_cpu || (self.backend_metal && metal_host)),
    {
        self.backend_cpu || (self.backend_metal && metal_host)
    }

    /// What the compiler is told.
    pub open spec fn told(self) -> Seq<Seq<char>> {
        seq!["cargo::rustc-check-cfg=cfg(backend, values(\"cpu\", \"metal\"))"@] + (
        if self.backend_cpu {
            seq!["cargo::rustc-cfg=backend=\"cpu\""@]
        } else {
            Seq::empty()
        }) + (if self.backend_metal {
            seq!["cargo::rustc-cfg=backend=\"metal\""@]
        } else {
            Seq::empty()
        }) + seq!["cargo::rustc-check-cfg=cfg(grammar)"@] + (if self.grammar {
            seq!["cargo::rustc-cfg=grammar"@]
        } else {
            Seq::empty()
        })
    }

    /// What the compiler is told, line by line.
    pub fn directives(&self) -> (lines: Vec<String>)
        ensures
            lines.deep_view() == self.told(),
    {
        let mut lines: Vec<String> = Vec::new();
        lines.push(
            text::copy_str("cargo::rustc-check-cfg=cfg(backend, values(\"cpu\", \"metal\"))"),
        );
        if self.backend_cpu {
            lines.push(text::copy_str("cargo::rustc-cfg=backend=\"cpu\""));
        }
        if self.backend_metal {
            lines.push(text::copy_str("cargo::rustc-cfg=backend=\"metal\""));
        }
        lines.push(text::copy_str("cargo::rustc-check-cfg=cfg(grammar)"));
        if self.grammar {
            lines.push(text::copy_str("cargo::rustc-cfg=grammar"));
        }
        assert(lines.deep_view() =~= self.told());
        lines
    }
}

/// Metal is built where it was asked for on a system that has it, grammars where they were asked for outside a
/// browser, and the processor's kernels wherever they were asked for.
pub proof fn law_plan_follows_the_target(
    features: Features,
    target_os: &str,
    target_arch: &str,
    plan: BuildPlan,
)
    requires
        call_ensures(BuildPlan::new, (features, target_os, target_arch), plan),
    ensures
        plan.backend_cpu == features.cpu,
        plan.backend_metal ==> features.metal,
        plan.backend_metal ==> target_os@ == "macos"@ || target_os@ == "ios"@ || target_os@ == "tvos"@
            || target_os@ == "visionos"@,
        features.metal && (target_os@ == "macos"@ || target_os@ == "ios"@ || target_os@ == "tvos"@
            || target_os@ == "visionos"@) ==> plan.backend_metal,
        plan.grammar ==> features.grammar,
        features.grammar ==> (plan.grammar <==> target_arch@ != "wasm32"@),
{
}

/// The compiler is told of each backend and of the grammars exactly where they are built, and always which
/// settings there are.
pub proof fn law_compiler_is_told_what_is_built(plan: BuildPlan, lines: Vec<String>)
    requires
        call_ensures(BuildPlan::directives, (&plan,), lines),
    ensures
        lines.deep_view().contains("cargo::rustc-cfg=backend=\"cpu\""@) <==> plan.backend_cpu,
        lines.deep_view().contains("cargo::rustc-cfg=backend=\"metal\""@) <==> plan.backend_metal,
        lines.deep_view().contains("cargo::rustc-cfg=grammar"@) <==> plan.grammar,
        lines.deep_view().contains("cargo::rustc-check-cfg=cfg(grammar)"@),
        lines.deep_view().contains(
            "cargo::rustc-check-cfg=cfg(backend, values(\"cpu\", \"metal\"))"@,
        ),
{
    reveal_strlit("cargo::rustc-cfg=backend=\"cpu\"");
    reveal_strlit("cargo::rustc-cfg=backend=\"metal\"");
    reveal_strlit("cargo::rustc-cfg=grammar");
    reveal_strlit("cargo::rustc-check-cfg=cfg(grammar)");
    reveal_strlit("cargo::rustc-check-cfg=cfg(backend, values(\"cpu\", \"metal\"))");
    let told = lines.deep_view();
    let cpu = if plan.backend_cpu {
        1int
    } else {
        0
    };
    let metal = if plan.backend_metal {
        1int
    } else {
        0
    };
    assert(told[0] == "cargo::rustc-check-cfg=cfg(backend, values(\"cpu\", \"metal\"))"@);
    assert(plan.backend_cpu ==> told[1] == "cargo::rustc-cfg=backend=\"cpu\""@);
    assert(plan.backend_metal ==> told[1 + cpu] == "cargo::rustc-cfg=backend=\"metal\""@);
    assert(told[1 + cpu + metal] == "cargo::rustc-check-cfg=cfg(grammar)"@);
    assert(plan.grammar ==> told[2 + cpu + metal] == "cargo::rustc-cfg=grammar"@);
}

/// Metal is compiled only on a host that has its compiler.
pub proof fn law_metal_needs_its_host(plan: BuildPlan, metal_host: bool, has_compiler: bool)
    requires
        call_ensures(BuildPlan::has_compiler, (&plan, metal_host), has_compiler),
    ensures
        plan.backend_cpu ==> has_compiler,
        plan.backend_metal && metal_host ==> has_compiler,
        has_compiler && !plan.backend_cpu ==> plan.backend_metal && metal_host,
{
}

} // verus!
