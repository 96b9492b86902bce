//! What is known of a Metal kernel from its source.
//!
//! Host expressions are code of the host: the names of variants and specializations in them stand for
//! the fields of the generated type.
use vstd::prelude::*;

use crate::build::kernel::KernelBufferAccess;
use crate::text;

verus! {

/// The size of a constant argument.
#[derive(Debug, PartialEq, Eq)]
pub enum MetalConstantType<T> {
    Scalar,
    UnsizedArray,
    SizedArray(T),
}

/// How a specialization becomes a function constant.
#[derive(Clone, Copy, Debug, PartialEq, Eq, Structural)]
pub enum SpecializeLowering {
    Direct,
    Enum,
    OptionSet,
}

/// What an argument of a Metal kernel is.
#[derive(Debug, PartialEq, Eq)]
pub enum MetalArgumentType<T> {
    Buffer(KernelBufferAccess),
    Constant { rust_type: T, constant_type: MetalConstantType<T> },
    /// Memory of a group of threads: the number of elements, where it is given, and the size of one,
    /// where that is known.
    Shared { element_count: Option<T>, element_size: Option<usize> },
    /// The number of groups of threads along one more axis.
    Groups(T),
    /// The number of groups of threads is read from a buffer.
    GroupsIndirect,
    /// The number of threads of a group along one more axis.
    Threads(T),
    /// The number of threads, and of threads of a group, along one more axis.
    Axis { total: T, per_group: T },
    Specialize { constant: T, lowering: SpecializeLowering },
    Other,
}

/// An argument of a Metal kernel, which may be there only under a condition. In the condition the
/// variants of enumerations stand with their full paths.
#[derive(Debug, PartialEq, Eq)]
pub struct MetalArgument<T> {
    pub name: T,
    pub condition: Option<T>,
    pub argument_type: MetalArgumentType<T>,
}

impl DeepView for MetalConstantType<String> {
    type V = MetalConstantType<Seq<char>>;

    open spec fn deep_view(&self) -> MetalConstantType<Seq<char>> {
        match self {
            MetalConstantType::Scalar => MetalConstantType::Scalar,
            MetalConstantType::UnsizedArray => MetalConstantType::UnsizedArray,
            MetalConstantType::SizedArray(size) => MetalConstantType::SizedArray(size@),
        }
    }
}

impl DeepView for MetalArgumentType<String> {
    type V = MetalArgumentType<Seq<char>>;

    open spec fn deep_view(&self) -> MetalArgumentType<Seq<char>> {
        match self {
            MetalArgumentType::Buffer(access) => MetalArgumentType::Buffer(*access),
            MetalArgumentType::Constant { rust_type, constant_type } =>
                MetalArgumentType::Constant {
                rust_type: rust_type@,
                constant_type: constant_type.deep_view(),
            },
            MetalArgumentType::Shared { element_count, element_size } =>
                MetalArgumentType::Shared {
                element_count: element_count.deep_view(),
                element_size: *element_size,
            },
            MetalArgumentType::Groups(groups) => MetalArgumentType::Groups(groups@),
            MetalArgumentType::GroupsIndirect => MetalArgumentType::GroupsIndirect,
            MetalArgumentType::Threads(threads) => MetalArgumentType::Threads(threads@),
            MetalArgumentType::Axis { total, per_group } => MetalArgumentType::Axis {
                total: total@,
                per_group: per_group@,
            },
            MetalArgumentType::Specialize { constant, lowering } => MetalArgumentType::Specialize {
                constant: constant@,
                lowering: *lowering,
            },
            MetalArgumentType::Other => MetalArgumentType::Other,
        }
    }
}

impl DeepView for MetalArgument<String> {
    type V = MetalArgument<Seq<char>>;

    open spec fn deep_view(&self) -> MetalArgument<Seq<char>> {
        MetalArgument {
            name: self.name@,
            condition: self.condition.deep_view(),
            argument_type: self.argument_type.deep_view(),
        }
    }
}

/// A Metal kernel. A variant is the name of a template parameter, with its type where it is a value.
#[derive(Debug, PartialEq, Eq)]
pub struct MetalKernelInfo {
    pub name: String,
    pub public: bool,
    pub variants: Vec<(String, Option<String>)>,
    pub arguments: Vec<MetalArgument<String>>,
}

/// Why no code can be generated for a Metal kernel.
#[derive(Clone, Copy, Debug, PartialEq, Eq, Structural)]
pub enum BindgenError {
    /// The type of a variant cannot be read.
    VariantType { variant: usize },
    /// The type of a specialization cannot be read.
    SpecializeType { argument: usize },
    /// The type of a constant cannot be read.
    ConstantType { argument: usize },
    /// The size of an array cannot be read.
    ConstantSize { argument: usize },
    /// The condition of an optional argument is no expression.
    ArgumentCondition { argument: usize },
    /// Optional memory of a group has no dimensions.
    SharedDimensions { argument: usize },
    /// The size of an element of optional memory of a group is not known.
    SharedElement { argument: usize },
    /// Axes together with groups or threads.
    MixedAxes,
    /// Groups that are read from a buffer together with others.
    MixedGroups,
    /// Sizes along more than three axes.
    TooManyAxes,
}

/// The number of elements of memory with the first `count` dimensions: their product.
pub open spec fn element_product(dimensions: Seq<Seq<char>>, count: int) -> Seq<char>
    decreases count,
{
    if count <= 1 {
        dimensions[0]
    } else {
        "("@ + element_product(dimensions, count - 1) + ") * ("@ + dimensions[count - 1] + ")"@
    }
}

/// The number of elements of memory with the given dimensions.
pub fn element_count(dimensions: &[String]) -> (product: String)
    requires
        dimensions@.len() > 0,
    ensures
        product@ == element_product(dimensions.deep_view(), dimensions@.len() as int),
{
    assert(dimensions.deep_view()[0] == dimensions@[0]@);
    let mut product: String = text::copy_str(dimensions[0].as_str());
    let mut i: usize = 1;
    while i < dimensions.len()
        invariant
            1 <= i <= dimensions@.len(),
            product@ == element_product(dimensions.deep_view(), i as int),
        decreases dimensions@.len() - i,
    {
        assert(dimensions.deep_view()[i as int] == dimensions@[i as int]@);
        let mut longer: String = text::copy_str("(");
        text::push_str(&mut longer, product.as_str());
        text::push_str(&mut longer, ") * (");
        text::push_str(&mut longer, dimensions[i].as_str());
        text::push_str(&mut longer, ")");
        product = longer;
        i += 1;
    }
    product
}

/// Two brackets stand at `index`, one that closes a dimension and one that opens the next.
pub open spec fn is_dimension_border(source: Seq<char>, index: int) -> bool {
    0 <= index && index + 1 < source.len() && source[index] == ']' && source[index + 1] == '['
}

/// The first border of dimensions from `from` on.
pub open spec fn next_border(source: Seq<char>, from: int) -> int
    decreases source.len() - from,
{
    if from < 0 || from >= source.len() {
        source.len() as int
    } else if is_dimension_border(source, from) {
        from
    } else {
        next_border(source, from + 1)
    }
}

proof fn lemma_border_is_inside(source: Seq<char>, from: int)
    requires
        0 <= from <= source.len(),
    ensures
        from <= next_border(source, from) <= source.len(),
        next_border(source, from) < source.len() ==> next_border(source, from) + 2 <= source.len(),
    decreases source.len() - from,
{
    if from < source.len() && !is_dimension_border(source, from) {
        lemma_border_is_inside(source, from + 1);
    }
}

/// `before` and the dimensions from `from` on.
pub open spec fn dimensions_from(source: Seq<char>, from: int, before: Seq<Seq<char>>) -> Seq<
    Seq<char>,
>
    decreases source.len() - from,
{
    let border = next_border(source, from);
    if border < from || border + 2 > source.len() {
        before.push(source.subrange(from, source.len() as int))
    } else {
        dimensions_from(source, border + 2, before.push(source.subrange(from, border)))
    }
}

/// The dimensions of memory, which are written one behind the other with brackets between them.
pub fn split_dimensions(source: &str) -> (dimensions: Vec<String>)
    ensures
        dimensions.deep_view() == dimensions_from(source@, 0, Seq::empty()),
        dimensions@.len() > 0,
{
    let letters: Vec<char> = text::characters(source);
    let mut dimensions: Vec<String> = Vec::new();
    assert(dimensions.deep_view() =~= Seq::empty());
    let mut from: usize = 0;
    loop
        invariant
            from <= letters@.len(),
            letters@ == source@,
            dimensions_from(source@, 0, Seq::empty()) == dimensions_from(
                source@,
                from as int,
                dimensions.deep_view(),
            ),
        decreases letters@.len() - from,
    {
        let ghost before = dimensions.deep_view();
        let mut border: usize = from;
        while border < letters.len() && !(letters.len() - border >= 2 && letters[border] == ']'
            && letters[border + 1] == '[')
            invariant
                from <= border <= letters@.len(),
                letters@ == source@,
                next_border(source@, from as int) == next_border(source@, border as int),
            decreases letters@.len() - border,
        {
            border += 1;
        }
        proof {
            lemma_border_is_inside(source@, from as int);
        }
        let dimension: &str = source.substring_char(from, border);
        dimensions.push(text::copy_str(dimension));
        assert(dimensions.deep_view() =~= before.push(source@.subrange(from as int, border as int)));
        if border == letters.len() {
            return dimensions;
        }
        from = border + 2;
    }
}

/// The first `count` dimensions with the brackets between them.
pub open spec fn written_dimensions(dimensions: Seq<Seq<char>>, count: int) -> Seq<char>
    decreases count,
{
    if count <= 1 {
        dimensions[0]
    } else {
        written_dimensions(dimensions, count - 1) + "]["@ + dimensions[count - 1]
    }
}

proof fn lemma_written_prefix(left: Seq<Seq<char>>, right: Seq<Seq<char>>, count: int)
    requires
        1 <= count <= left.len(),
        count <= right.len(),
        forall|i: int| 0 <= i < count ==> left[i] == right[i],
    ensures
        written_dimensions(left, count) == written_dimensions(right, count),
    decreases count,
{
    if count > 1 {
        lemma_written_prefix(left, right, count - 1);
    }
}

proof fn lemma_next_border(source: Seq<char>, from: int)
    requires
        0 <= from <= source.len(),
    ensures
        from <= next_border(source, from) <= source.len(),
        next_border(source, from) < source.len() ==> is_dimension_border(
            source,
            next_border(source, from),
        ),
        forall|i: int|
            from <= i < next_border(source, from) ==> !#[trigger] is_dimension_border(source, i),
    decreases source.len() - from,
{
    if from < source.len() && !is_dimension_border(source, from) {
        lemma_next_border(source, from + 1);
    }
}

proof fn lemma_dimensions(source: Seq<char>, from: int, before: Seq<Seq<char>>)
    requires
        0 <= from <= source.len(),
    ensures
        ({
            let all = dimensions_from(source, from, before);
            &&& all.len() > before.len()
            &&& forall|i: int| 0 <= i < before.len() ==> all[i] == before[i]
            &&& before.len() == 0 ==> written_dimensions(all, all.len() as int) == source.skip(from)
            &&& before.len() > 0 ==> written_dimensions(all, all.len() as int) == written_dimensions(
                before,
                before.len() as int,
            ) + "]["@ + source.skip(from)
            &&& forall|i: int, j: int|
                before.len() <= i < all.len() && 0 <= j ==> !#[trigger] is_dimension_border(all[i], j)
        }),
    decreases source.len() - from,
{
    reveal_strlit("][");
    let border = next_border(source, from);
    lemma_next_border(source, from);
    let all = dimensions_from(source, from, before);
    if border < from || border + 2 > source.len() {
        let rest = source.subrange(from, source.len() as int);
        assert(rest =~= source.skip(from));
        assert(all == before.push(rest));
        if before.len() > 0 {
            lemma_written_prefix(all, before, before.len() as int);
        }
        assert forall|i: int, j: int|
            before.len() <= i < all.len() && 0 <= j implies !#[trigger] is_dimension_border(all[i], j) by {
            if is_dimension_border(all[i], j) {
                assert(is_dimension_border(source, from + j));
            }
        }
    } else {
        let dimension = source.subrange(from, border);
        let longer = before.push(dimension);
        lemma_dimensions(source, border + 2, longer);
        assert forall|i: int| 0 <= i < before.len() implies all[i] == before[i] by {
            assert(all[i] == longer[i]);
        }
        assert(longer[before.len() as int] == dimension);
        if before.len() > 0 {
            lemma_written_prefix(longer, before, before.len() as int);
            assert(written_dimensions(longer, longer.len() as int) == written_dimensions(
                before,
                before.len() as int,
            ) + "]["@ + dimension);
        }
        assert(dimension + "]["@ + source.skip(border + 2) =~= source.skip(from));
        let front = written_dimensions(before, before.len() as int) + "]["@;
        assert(front + dimension + "]["@ + source.skip(border + 2) =~= front + (dimension + "]["@
            + source.skip(border + 2)));
        assert forall|i: int, j: int|
            before.len() <= i < all.len() && 0 <= j implies !#[trigger] is_dimension_border(all[i], j) by {
            if i == before.len() {
                assert(all[i] == longer[i]);
                if is_dimension_border(dimension, j) {
                    assert(is_dimension_border(source, from + j));
                }
            }
        }
    }
}

/// The dimensions written one behind the other with brackets between them are the source, and no dimension holds
/// such brackets itself.
pub proof fn law_dimensions_are_split_at_brackets(
    source: &str,
    dimensions: Vec<String>,
    at: int,
    letter: int,
)
    requires
        call_ensures(split_dimensions, (source,), dimensions),
    ensures
        dimensions@.len() > 0,
        written_dimensions(dimensions.deep_view(), dimensions@.len() as int) == source@,
        0 <= at < dimensions@.len() && 0 <= letter && letter + 1 < dimensions.deep_view()[at].len() ==> !(
        dimensions.deep_view()[at][letter] == ']' && dimensions.deep_view()[at][letter + 1] == '['),
{
    lemma_dimensions(source@, 0, Seq::empty());
    assert(source@.skip(0) =~= source@);
    assert(dimensions.deep_view().len() == dimensions@.len());
    if 0 <= at < dimensions@.len() && 0 <= letter {
        assert(!is_dimension_border(dimensions.deep_view()[at], letter));
    }
}

/// Memory has as many elements as the product of its dimensions: one alone is the number, and each further one
/// is a factor.
pub proof fn law_elements_are_the_product(
    dimensions: &[String],
    fewer: &[String],
    product: String,
    fewer_product: String,
)
    requires
        dimensions@.len() > 0,
        call_ensures(element_count, (dimensions,), product),
        call_ensures(element_count, (fewer,), fewer_product),
        dimensions@.len() > 1 ==> fewer.deep_view() == dimensions.deep_view().drop_last(),
    ensures
        dimensions@.len() == 1 ==> product@ == dimensions@[0]@,
        dimensions@.len() > 1 ==> product@ == "("@ + fewer_product@ + ") * ("@ + dimensions@.last()@
            + ")"@,
{
    let deep = dimensions.deep_view();
    assert(deep.len() == dimensions@.len());
    assert(fewer.deep_view().len() == fewer@.len());
    assert(deep[0] == dimensions@[0]@);
    if dimensions@.len() > 1 {
        assert(deep[deep.len() - 1] == dimensions@.last()@);
        lemma_product_prefix(deep, fewer.deep_view(), deep.len() - 1);
    }
}

proof fn lemma_product_prefix(left: Seq<Seq<char>>, right: Seq<Seq<char>>, count: int)
    requires
        1 <= count <= left.len(),
        count <= right.len(),
        forall|i: int| 0 <= i < count ==> left[i] == right[i],
    ensures
        element_product(left, count) == element_product(right, count),
    decreases count,
{
    if count > 1 {
        lemma_product_prefix(left, right, count - 1);
    }
}

} // verus!
