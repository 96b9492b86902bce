//! The types that the host and the kernels share.
pub mod option_set;

use vstd::prelude::*;

use crate::build::cpu::function;
use crate::build::gpu_types::option_set::GpuTypeOptionSet;
use crate::build::rust_source::{self, ItemKind};
use crate::text;

verus! {

/// The name of a shared type.
#[derive(Debug, PartialEq, Eq, Hash)]
pub struct GpuTypeName(pub String);

/// The path of a shared type.
#[derive(Debug, PartialEq, Eq, Hash)]
pub struct GpuTypePath(pub String);

/// A shared constant.
#[derive(Debug)]
pub struct GpuTypeConstant {
    pub name: String,
    pub ty: String,
    pub value_expression: String,
}

/// A variant of a shared enumeration.
#[derive(Debug)]
pub struct GpuTypeEnumVariant {
    pub name: String,
    pub discriminant: u32,
}

/// A shared enumeration.
#[derive(Debug)]
pub struct GpuTypeEnum {
    pub name: GpuTypeName,
    pub variants: Vec<GpuTypeEnumVariant>,
}

/// The type of a field of a shared structure.
#[derive(Debug)]
pub enum GpuTypeStructFieldType {
    Scalar(String),
    Array { element: String, length: usize },
}

/// A field of a shared structure.
#[derive(Debug)]
pub struct GpuTypeStructField {
    pub name: String,
    pub ty: GpuTypeStructFieldType,
}

/// A shared structure.
#[derive(Debug)]
pub struct GpuTypeStruct {
    pub name: GpuTypeName,
    pub fields: Vec<GpuTypeStructField>,
}

/// A shared type.
#[derive(Debug)]
pub enum GpuType {
    Constant(GpuTypeConstant),
    Enum(GpuTypeEnum),
    Struct(GpuTypeStruct),
    OptionSet(GpuTypeOptionSet),
}

/// The shared types of a source file.
#[derive(Debug)]
pub struct GpuTypeFile {
    pub name: String,
    pub types: Vec<GpuType>,
}

/// All shared types.
#[derive(Debug)]
pub struct GpuTypes {
    pub files: Vec<GpuTypeFile>,
}

/// An attribute from `from` on fixes the layout of a type to that of C.
pub open spec fn has_repr_c(attributes: Seq<Seq<char>>, from: int) -> bool
    decreases attributes.len() - from,
{
    if from >= attributes.len() {
        false
    } else {
        is_repr_c(attributes[from]) || has_repr_c(attributes, from + 1)
    }
}

/// The attribute fixes the layout of a type to that of C.
pub open spec fn is_repr_c(attribute: Seq<char>) -> bool {
    match rust_source::attribute_parts(attribute) {
        Some((Some(name), arguments)) => name == "repr"@ && function::parsed_identifier(arguments)
            == Some("C"@),
        _ => false,
    }
}

/// Whether the attributes of a type fix its layout to that of C.
pub fn ensure_repr_c(attributes: &[String]) -> (fixed: bool)
    ensures
        fixed == has_repr_c(attributes.deep_view(), 0),
{
    let mut i: usize = 0;
    while i < attributes.len()
        invariant
            i <= attributes@.len(),
            has_repr_c(attributes.deep_view(), 0) == has_repr_c(attributes.deep_view(), i as int),
        decreases attributes@.len() - i,
    {
        assert(attributes.deep_view()[i as int] == attributes@[i as int]@);
        if let Some((Some(name), Some(arguments))) = rust_source::read_attribute(
            attributes[i].as_str(),
        ) {
            if text::is_same(name.as_str(), "repr") {
                if let Some(layout) = rust_source::read_identifier(arguments.as_str()) {
                    if text::is_same(layout.as_str(), "C") {
                        return true;
                    }
                }
            }
        }
        i += 1;
    }
    false
}

/// A type that a source file shares, before it is read in detail.
#[derive(Debug)]
pub enum SharedItem {
    Constant(String),
    Enumeration(String),
    Structure(String),
    OptionSet(GpuTypeOptionSet),
}

/// What a [`SharedItem`] holds.
pub ghost enum SharedItemModel {
    Constant(Seq<char>),
    Enumeration(Seq<char>),
    Structure(Seq<char>),
    OptionSet(option_set::OptionSetModel),
}

impl DeepView for SharedItem {
    type V = SharedItemModel;

    open spec fn deep_view(&self) -> SharedItemModel {
        match self {
            SharedItem::Constant(item) => SharedItemModel::Constant(item@),
            SharedItem::Enumeration(item) => SharedItemModel::Enumeration(item@),
            SharedItem::Structure(item) => SharedItemModel::Structure(item@),
            SharedItem::OptionSet(set) => SharedItemModel::OptionSet(set.deep_view()),
        }
    }
}

/// Why a source file shares no types.
#[derive(Clone, Copy, Debug, PartialEq, Eq, Structural)]
pub enum ScanError {
    /// It is no source file.
    Source,
    /// What is handed to `bitflags` is no set of options.
    OptionSet { item: usize },
}

/// What an item shares, if anything: of the call of a macro, `macro_name` is the macro, and `set` the
/// set of options that is handed to it. There is no answer where `bitflags` gets anything else.
pub open spec fn shared_item(
    kind: ItemKind,
    item: Seq<char>,
    macro_name: Option<Seq<char>>,
    set: Option<option_set::OptionSetModel>,
) -> Option<Option<SharedItemModel>> {
    match kind {
        ItemKind::Constant => Some(Some(SharedItemModel::Constant(item))),
        ItemKind::Enumeration => Some(Some(SharedItemModel::Enumeration(item))),
        ItemKind::Structure => Some(Some(SharedItemModel::Structure(item))),
        ItemKind::Macro => if macro_name == Some("bitflags"@) {
            match set {
                Some(set) => Some(Some(SharedItemModel::OptionSet(set))),
                None => None,
            }
        } else {
            Some(None)
        },
        _ => Some(None),
    }
}

/// What an item shares, if anything: of the call of a macro, `macro_name` is the macro, and `set` the
/// set of options that is handed to it. There is no answer where `bitflags` gets anything else.
pub fn share_item(
    kind: ItemKind,
    item: &str,
    macro_name: Option<&str>,
    set: Option<GpuTypeOptionSet>,
) -> (shared: Option<Option<SharedItem>>)
    ensures
        shared.deep_view() == shared_item(kind, item@, macro_name.deep_view(), set.deep_view()),
{
    match kind {
        ItemKind::Constant => Some(Some(SharedItem::Constant(text::copy_str(item)))),
        ItemKind::Enumeration => Some(Some(SharedItem::Enumeration(text::copy_str(item)))),
        ItemKind::Structure => Some(Some(SharedItem::Structure(text::copy_str(item)))),
        ItemKind::Macro => {
            let options: bool = match macro_name {
                Some(name) => text::is_same(name, "bitflags"),
                None => false,
            };
            if options {
                match set {
                    Some(set) => Some(Some(SharedItem::OptionSet(set))),
                    None => None,
                }
            } else {
                Some(None)
            }
        },
        _ => Some(None),
    }
}

/// What an item of a source file shares.
pub open spec fn shared_by(item: (ItemKind, Seq<char>)) -> Option<Option<SharedItemModel>> {
    let (name, set) = match rust_source::macro_parts(item.1) {
        Some((name, tokens)) => (name, option_set::option_set_of(tokens)),
        None => (None, None),
    };
    shared_item(item.0, item.1, name, set)
}

fn read_shared(kind: ItemKind, item: &str) -> (shared: Option<Option<SharedItem>>)
    ensures
        shared.deep_view() == shared_by((kind, item@)),
{
    if kind != ItemKind::Macro {
        return share_item(kind, item, None, None);
    }
    match rust_source::read_macro(item) {
        Some((name, tokens)) => {
            let set: Option<GpuTypeOptionSet> = GpuTypeOptionSet::parse(tokens.as_str());
            match &name {
                Some(name) => share_item(kind, item, Some(name.as_str()), set),
                None => share_item(kind, item, None, set),
            }
        },
        None => share_item(kind, item, None, None),
    }
}

/// What the first `count` items share, or the first of them that cannot be read.
pub open spec fn shared_items(items: Seq<(ItemKind, Seq<char>)>, count: int) -> Result<
    Seq<SharedItemModel>,
    ScanError,
>
    decreases count,
{
    if count <= 0 {
        Ok(Seq::empty())
    } else {
        match shared_items(items, count - 1) {
            Err(error) => Err(error),
            Ok(before) => match shared_by(items[count - 1]) {
                Some(Some(shared)) => Ok(before.push(shared)),
                Some(None) => Ok(before),
                None => Err(ScanError::OptionSet { item: (count - 1) as usize }),
            },
        }
    }
}

proof fn lemma_unreadable_item_stands(
    items: Seq<(ItemKind, Seq<char>)>,
    count: int,
    total: int,
)
    requires
        0 <= count <= total,
        shared_items(items, count) is Err,
    ensures
        shared_items(items, total) == shared_items(items, count),
    decreases total - count,
{
    if count < total {
        lemma_unreadable_item_stands(items, count, total - 1);
    }
}

impl GpuTypeFile {
    /// What a source file shares: its constants, enumerations, structures and sets of options, in
    /// their order.
    pub fn scan(source: &str) -> (shared: Result<Vec<SharedItem>, ScanError>)
        ensures
            match rust_source::items(source@) {
                None => shared matches Err(error) && error == ScanError::Source,
                Some(items) => match shared {
                    Ok(shared) => shared_items(items, items.len() as int) == Ok::<
                        Seq<SharedItemModel>,
                        ScanError,
                    >(shared.deep_view()),
                    Err(error) => shared_items(items, items.len() as int) == Err::<
                        Seq<SharedItemModel>,
                        ScanError,
                    >(error),
                },
            },
    {
        let items: Vec<(ItemKind, String)> = match rust_source::read_items(source) {
            Some(items) => items,
            None => {
                return Err(ScanError::Source);
            },
        };
        let mut shared: Vec<SharedItem> = Vec::new();
        assert(shared.deep_view() =~= Seq::empty());
        let mut i: usize = 0;
        while i < items.len()
            invariant
                i <= items@.len(),
                rust_source::items(source@) == Some(items.deep_view()),
                shared_items(items.deep_view(), i as int) == Ok::<
                    Seq<SharedItemModel>,
                    ScanError,
                >(shared.deep_view()),
            decreases items@.len() - i,
        {
            let ghost before = shared.deep_view();
            assert(items.deep_view()[i as int] == items@[i as int].deep_view());
            match read_shared(items[i].0, items[i].1.as_str()) {
                Some(Some(found)) => {
                    let ghost added = found.deep_view();
                    shared.push(found);
                    assert(shared.deep_view() =~= before.push(added));
                },
                Some(None) => {},
                None => {
                    proof {
                        lemma_unreadable_item_stands(
                            items.deep_view(),
                            i + 1,
                            items@.len() as int,
                        );
                    }
                    return Err(ScanError::OptionSet { item: i });
                },
            }
            i += 1;
        }
        Ok(shared)
    }
}

proof fn lemma_repr_c(attributes: Seq<Seq<char>>, from: int)
    requires
        0 <= from <= attributes.len(),
    ensures
        has_repr_c(attributes, from) <==> exists|i: int|
            from <= i < attributes.len() && is_repr_c(#[trigger] attributes[i]),
    decreases attributes.len() - from,
{
    if from < attributes.len() {
        lemma_repr_c(attributes, from + 1);
    }
}

/// The layout of a type is fixed exactly where one of its attributes is `repr` with the argument `C`.
pub proof fn law_layout_is_fixed_by_an_attribute(attributes: &[String], fixed: bool)
    requires
        call_ensures(ensure_repr_c, (attributes,), fixed),
    ensures
        fixed <==> exists|i: int|
            0 <= i < attributes@.len() && (rust_source::attribute_parts(
                #[trigger] attributes.deep_view()[i],
            ) matches Some((Some(name), arguments)) && name == "repr"@ && function::parsed_identifier(
                arguments,
            ) == Some("C"@)),
{
    lemma_repr_c(attributes.deep_view(), 0);
    assert(attributes.deep_view().len() == attributes@.len());
    if fixed {
        let i = choose|i: int|
            0 <= i < attributes.deep_view().len() && is_repr_c(#[trigger] attributes.deep_view()[i]);
        assert(is_repr_c(attributes.deep_view()[i]));
    }
    assert forall|i: int|
        0 <= i < attributes@.len() && (rust_source::attribute_parts(
            #[trigger] attributes.deep_view()[i],
        ) matches Some((Some(name), arguments)) && name == "repr"@ && function::parsed_identifier(
            arguments,
        ) == Some("C"@)) implies fixed by {
        assert(is_repr_c(attributes.deep_view()[i]));
    }
}

/// Constants, enumerations and structures are shared as they are written; of the calls of macros only those
/// of `bitflags` are, as their sets of options; nothing else is shared.
pub proof fn law_items_are_shared_by_their_kind(
    kind: ItemKind,
    item: &str,
    macro_name: Option<&str>,
    set: Option<GpuTypeOptionSet>,
    shared: Option<Option<SharedItem>>,
)
    requires
        call_ensures(share_item, (kind, item, macro_name, set), shared),
    ensures
        kind == ItemKind::Constant ==> (shared matches Some(Some(SharedItem::Constant(text))) && text@
            == item@),
        kind == ItemKind::Enumeration ==> (shared matches Some(Some(SharedItem::Enumeration(text)))
            && text@ == item@),
        kind == ItemKind::Structure ==> (shared matches Some(Some(SharedItem::Structure(text))) && text@
            == item@),
        kind == ItemKind::Macro && (macro_name matches Some(name) && name@ == "bitflags"@) ==> (match set {
            Some(set) => shared matches Some(Some(SharedItem::OptionSet(kept))) && kept.deep_view()
                == set.deep_view(),
            None => shared is None,
        }),
        kind == ItemKind::Macro && !(macro_name matches Some(name) && name@ == "bitflags"@) ==> shared
            == Some(None::<SharedItem>),
        kind != ItemKind::Constant && kind != ItemKind::Enumeration && kind != ItemKind::Structure && kind
            != ItemKind::Macro ==> shared == Some(None::<SharedItem>),
{
    let model = shared.deep_view();
    if let Some(inner) = shared {
        assert(model == Some(inner.deep_view()));
        if let Some(found) = inner {
            assert(inner.deep_view() == Some(found.deep_view()));
        }
    }
    match macro_name {
        Some(name) => {
            assert(macro_name.deep_view() == Some(name@));
        },
        None => {},
    }
    match set {
        Some(given) => {
            assert(set.deep_view() == Some(given.deep_view()));
        },
        None => {},
    }
}

} // verus!
