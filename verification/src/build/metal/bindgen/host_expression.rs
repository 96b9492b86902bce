//! Names in host expressions.
use vstd::prelude::*;

use crate::text;

verus! {

/// A path in a host expression.
#[derive(Debug, PartialEq, Eq)]
pub struct HostPath {
    /// Two colons stand in front of it.
    pub leading_colon: bool,
    /// Its segments, each with whether it has arguments.
    pub segments: Vec<(String, bool)>,
}

/// What the names in host expressions stand for, and which of them are used.
#[derive(Debug)]
pub struct HostExpressionRewriter {
    variants: Vec<(String, String)>,
    specializations: Vec<String>,
    referenced: Vec<String>,
}

/// The field that holds the variant of a name, from `from` on.
pub open spec fn variant_field(
    variants: Seq<(Seq<char>, Seq<char>)>,
    name: Seq<char>,
    from: int,
) -> Option<Seq<char>>
    decreases variants.len() - from,
{
    if from >= variants.len() {
        None
    } else if variants[from].0 == name {
        Some(variants[from].1)
    } else {
        variant_field(variants, name, from + 1)
    }
}

/// The field that a name stands for: that of a variant, or that of a specialization.
pub open spec fn host_field(
    variants: Seq<(Seq<char>, Seq<char>)>,
    specializations: Seq<String>,
    name: Seq<char>,
) -> Option<Seq<char>> {
    match variant_field(variants, name, 0) {
        Some(field) => Some(field),
        None => if text::is_listed(specializations, name) {
            Some("specialize_"@ + name)
        } else {
            None
        },
    }
}

/// The name that a path consists of.
pub open spec fn single_name(path: HostPath) -> Option<Seq<char>> {
    if path.leading_colon || path.segments@.len() != 1 || path.segments@[0].1 {
        None
    } else {
        Some(path.segments@[0].0@)
    }
}

impl HostExpressionRewriter {
    /// The names of variants, each with the field that holds it.
    pub closed spec fn variants(self) -> Seq<(Seq<char>, Seq<char>)> {
        self.variants.deep_view()
    }

    /// The names of specializations.
    pub closed spec fn specializations(self) -> Seq<String> {
        self.specializations@
    }

    /// The names that were used.
    pub closed spec fn referenced(self) -> Seq<String> {
        self.referenced@
    }

    /// The used names stand in order, none of them twice.
    pub open spec fn wf(self) -> bool {
        text::is_ordered(self.referenced())
    }

    /// A rewriter that has used no name yet.
    pub fn new(variants: Vec<(String, String)>, specializations: Vec<String>) -> (rewriter:
        HostExpressionRewriter)
        ensures
            rewriter.wf(),
            rewriter.variants() == variants.deep_view(),
            rewriter.specializations() == specializations@,
            rewriter.referenced() == Seq::<String>::empty(),
    {
        HostExpressionRewriter { variants, specializations, referenced: Vec::new() }
    }

    fn find_variant(&self, name: &str) -> (field: Option<String>)
        ensures
            field.deep_view() == variant_field(self.variants(), name@, 0),
    {
        let mut i: usize = 0;
        while i < self.variants.len()
            invariant
                i <= self.variants@.len(),
                variant_field(self.variants(), name@, 0) == variant_field(
                    self.variants(),
                    name@,
                    i as int,
                ),
            decreases self.variants@.len() - i,
        {
            assert(self.variants()[i as int] == self.variants@[i as int].deep_view());
            if text::is_same(self.variants[i].0.as_str(), name) {
                return Some(text::copy_str(self.variants[i].1.as_str()));
            }
            i += 1;
        }
        None
    }

    fn is_specialization(&self, name: &str) -> (found: bool)
        ensures
            found == text::is_listed(self.specializations(), name@),
    {
        let mut i: usize = 0;
        while i < self.specializations.len()
            invariant
                i <= self.specializations@.len(),
                forall|j: int| 0 <= j < i ==> (#[trigger] self.specializations@[j])@ != name@,
            decreases self.specializations@.len() - i,
        {
            if text::is_same(self.specializations[i].as_str(), name) {
                assert(self.specializations@[i as int]@ == name@);
                return true;
            }
            i += 1;
        }
        false
    }

    /// What a path is replaced by: the path of an enumeration, where `qualified` is that, and the
    /// field that a name stands for, where it stands for one. Such a name is then used.
    pub fn resolve(&mut self, path: &HostPath, qualified: Option<String>) -> (replacement: Option<
        String,
    >)
        requires
            old(self).wf(),
        ensures
            final(self).wf(),
            final(self).variants() == old(self).variants(),
            final(self).specializations() == old(self).specializations(),
            ({
                let found = match (qualified, single_name(*path)) {
                    (None, Some(name)) => host_field(
                        old(self).variants(),
                        old(self).specializations(),
                        name,
                    ),
                    _ => None,
                };
                &&& replacement.deep_view() == match (qualified, found) {
                    (Some(qualified), _) => Some(qualified@),
                    (None, Some(field)) => Some("self."@ + field),
                    (None, None) => None,
                }
                &&& forall|name: Seq<char>|
                    #![trigger text::is_listed(final(self).referenced(), name)]
                    text::is_listed(final(self).referenced(), name) <==> text::is_listed(
                        old(self).referenced(),
                        name,
                    ) || (found is Some && single_name(*path) == Some(name))
            }),
    {
        if let Some(qualified) = qualified {
            return Some(qualified);
        }
        if path.leading_colon || path.segments.len() != 1 || path.segments[0].1 {
            return None;
        }
        let name: &str = path.segments[0].0.as_str();
        let mut replacement: String = text::copy_str("self.");
        match self.find_variant(name) {
            Some(field) => {
                text::push_str(&mut replacement, field.as_str());
            },
            None => {
                if !self.is_specialization(name) {
                    return None;
                }
                let mut field: String = text::copy_str("specialize_");
                text::push_str(&mut field, name);
                text::push_str(&mut replacement, field.as_str());
            },
        }
        text::insert_ordered(&mut self.referenced, name);
        Some(replacement)
    }

    /// The names that were used, in order.
    pub fn finish(self) -> (referenced: Vec<String>)
        requires
            self.wf(),
        ensures
            referenced@ == self.referenced(),
            text::is_ordered(referenced@),
    {
        self.referenced
    }
}

proof fn lemma_variant_field(
    variants: Seq<(Seq<char>, Seq<char>)>,
    name: Seq<char>,
    from: int,
    at: int,
)
    requires
        0 <= from <= at < variants.len(),
        variants[at].0 == name,
        forall|i: int| from <= i < at ==> (#[trigger] variants[i]).0 != name,
    ensures
        variant_field(variants, name, from) == Some(variants[at].1),
    decreases at - from,
{
    if from < at {
        assert(variants[from].0 != name);
        lemma_variant_field(variants, name, from + 1, at);
    }
}

proof fn lemma_no_variant_field(variants: Seq<(Seq<char>, Seq<char>)>, name: Seq<char>, from: int)
    requires
        0 <= from,
        forall|i: int| from <= i < variants.len() ==> (#[trigger] variants[i]).0 != name,
    ensures
        variant_field(variants, name, from) is None,
    decreases variants.len() - from,
{
    if from < variants.len() {
        assert(variants[from].0 != name);
        lemma_no_variant_field(variants, name, from + 1);
    }
}

/// A path that names a variant alone stands for the field of that variant, and is used then; one that names a
/// specialization stands for its field. The path of an enumeration is replaced by its full path, and
/// every other path stays.
pub proof fn law_names_stand_for_their_fields(
    rewriter: &mut HostExpressionRewriter,
    path: &HostPath,
    qualified: Option<String>,
    replacement: Option<String>,
    at: int,
)
    requires
        call_ensures(
            HostExpressionRewriter::resolve,
            (rewriter, path, qualified),
            replacement,
        ),
    ensures
        qualified matches Some(full) ==> (replacement matches Some(written) && written@ == full@),
        qualified is None && (path.leading_colon || path.segments@.len() != 1 || path.segments@[0].1)
            ==> replacement is None,
        ({
            let name = path.segments@[0].0@;
            let variants = old(rewriter).variants();
            let alone = qualified is None && !path.leading_colon && path.segments@.len() == 1
                && !path.segments@[0].1;
            &&& alone && 0 <= at < variants.len() && variants[at].0 == name && (forall|i: int|
                0 <= i < at ==> (#[trigger] variants[i]).0 != name) ==> (replacement matches Some(written)
                && written@ == "self."@ + variants[at].1) && text::is_listed(
                final(rewriter).referenced(),
                name,
            )
            &&& alone && (forall|i: int| 0 <= i < variants.len() ==> (#[trigger] variants[i]).0 != name)
                && text::is_listed(old(rewriter).specializations(), name) ==> (replacement matches Some(
                written,
            ) && written@ == "self."@ + ("specialize_"@ + name)) && text::is_listed(
                final(rewriter).referenced(),
                name,
            )
            &&& alone && (forall|i: int| 0 <= i < variants.len() ==> (#[trigger] variants[i]).0 != name)
                && !text::is_listed(old(rewriter).specializations(), name) ==> replacement is None
        }),
{
    let name = path.segments@[0].0@;
    let variants = old(rewriter).variants();
    if let Some(written) = replacement {
        assert(replacement.deep_view() == Some(written@));
    }
    if 0 <= at < variants.len() && variants[at].0 == name && (forall|i: int|
        0 <= i < at ==> (#[trigger] variants[i]).0 != name) {
        lemma_variant_field(variants, name, 0, at);
    }
    if forall|i: int| 0 <= i < variants.len() ==> (#[trigger] variants[i]).0 != name {
        lemma_no_variant_field(variants, name, 0);
    }
}

} // verus!
