//! The template parameters of a kernel, which are fixed when it is created.
use vstd::prelude::*;

use crate::build::metal::bindgen::kernel_info::BindgenError;
use crate::build::metal::bindgen::specialize;
use crate::build::rust_source;
use crate::text;

verus! {

/// A template parameter, the field that holds it, and its type where it is a value.
#[derive(Debug, PartialEq, Eq)]
pub struct VariantBind<T> {
    pub parameter_name: T,
    pub field_name: T,
    pub parsed_type: Option<T>,
}

impl DeepView for VariantBind<String> {
    type V = VariantBind<Seq<char>>;

    open spec fn deep_view(&self) -> VariantBind<Seq<char>> {
        VariantBind {
            parameter_name: self.parameter_name@,
            field_name: self.field_name@,
            parsed_type: self.parsed_type.deep_view(),
        }
    }
}

/// A letter in lower case, where it is one of the twenty-six.
pub open spec fn lowercase_letter(letter: char) -> char {
    if 'A' <= letter && letter <= 'Z' {
        (letter as u32 + 32) as char
    } else {
        letter
    }
}

fn to_lower(letter: char) -> (lower: &'static str)
    requires
        'A' <= letter && letter <= 'Z',
    ensures
        lower@ == seq![lowercase_letter(letter)],
{
    let lower: &'static str = match letter {
        'A' => "a",
        'B' => "b",
        'C' => "c",
        'D' => "d",
        'E' => "e",
        'F' => "f",
        'G' => "g",
        'H' => "h",
        'I' => "i",
        'J' => "j",
        'K' => "k",
        'L' => "l",
        'M' => "m",
        'N' => "n",
        'O' => "o",
        'P' => "p",
        'Q' => "q",
        'R' => "r",
        'S' => "s",
        'T' => "t",
        'U' => "u",
        'V' => "v",
        'W' => "w",
        'X' => "x",
        'Y' => "y",
        _ => "z",
    };
    proof {
        reveal_strlit("a");
        reveal_strlit("b");
        reveal_strlit("c");
        reveal_strlit("d");
        reveal_strlit("e");
        reveal_strlit("f");
        reveal_strlit("g");
        reveal_strlit("h");
        reveal_strlit("i");
        reveal_strlit("j");
        reveal_strlit("k");
        reveal_strlit("l");
        reveal_strlit("m");
        reveal_strlit("n");
        reveal_strlit("o");
        reveal_strlit("p");
        reveal_strlit("q");
        reveal_strlit("r");
        reveal_strlit("s");
        reveal_strlit("t");
        reveal_strlit("u");
        reveal_strlit("v");
        reveal_strlit("w");
        reveal_strlit("x");
        reveal_strlit("y");
        reveal_strlit("z");
        assert(lower@ =~= seq![lowercase_letter(letter)]);
    }
    lower
}

/// A text with the letters of ASCII in lower case, and everything else as it is.
fn to_ascii_lowercase(source: &str) -> (lower: String)
    ensures
        lower@ == source@.map_values(|letter: char| lowercase_letter(letter)),
{
    let letters: Vec<char> = text::characters(source);
    let ghost expected = source@.map_values(|letter: char| lowercase_letter(letter));
    let mut lower: String = String::new();
    let mut i: usize = 0;
    while i < letters.len()
        invariant
            i <= letters@.len(),
            letters@ == source@,
            lower@ == expected.take(i as int),
            expected == source@.map_values(|letter: char| lowercase_letter(letter)),
        decreases letters@.len() - i,
    {
        let letter: char = letters[i];
        let next: &str = if 'A' <= letter && letter <= 'Z' {
            to_lower(letter)
        } else {
            source.substring_char(i, i + 1)
        };
        assert(next@ =~= seq![expected[i as int]]);
        text::push_str(&mut lower, next);
        i += 1;
        assert(lower@ =~= expected.take(i as int));
    }
    assert(lower@ =~= expected);
    lower
}

/// A template parameter, where its type can be read.
pub open spec fn variant_of(variant: (Seq<char>, Option<Seq<char>>)) -> Option<
    VariantBind<Seq<char>>,
> {
    let field_name = variant.0.map_values(|letter: char| lowercase_letter(letter));
    match variant.1 {
        None => Some(
            VariantBind { parameter_name: variant.0, field_name, parsed_type: None },
        ),
        Some(ty) => match rust_source::type_tokens(ty) {
            Some(ty) => Some(
                VariantBind { parameter_name: variant.0, field_name, parsed_type: Some(ty) },
            ),
            None => None,
        },
    }
}

/// The first `count` template parameters.
pub open spec fn variants_of(variants: Seq<(Seq<char>, Option<Seq<char>>)>, count: int) -> Result<
    Seq<VariantBind<Seq<char>>>,
    BindgenError,
>
    decreases count,
{
    if count <= 0 {
        Ok(Seq::empty())
    } else {
        match variants_of(variants, count - 1) {
            Err(error) => Err(error),
            Ok(before) => match variant_of(variants[count - 1]) {
                Some(variant) => Ok(before.push(variant)),
                None => Err(BindgenError::VariantType { variant: (count - 1) as usize }),
            },
        }
    }
}

proof fn lemma_refused_variant_stands(
    variants: Seq<(Seq<char>, Option<Seq<char>>)>,
    count: int,
    total: int,
)
    requires
        0 <= count <= total,
        variants_of(variants, count) is Err,
    ensures
        variants_of(variants, total) == variants_of(variants, count),
    decreases total - count,
{
    if count < total {
        lemma_refused_variant_stands(variants, count, total - 1);
    }
}

fn read_variant(name: &str, ty: &Option<String>) -> (variant: Option<VariantBind<String>>)
    ensures
        variant.deep_view() == variant_of((name@, ty.deep_view())),
{
    let parsed_type: Option<String> = match ty {
        None => None,
        Some(ty) => match rust_source::read_type(ty.as_str()) {
            Some(ty) => Some(ty),
            None => {
                return None;
            },
        },
    };
    Some(
        VariantBind {
            parameter_name: text::copy_str(name),
            field_name: to_ascii_lowercase(name),
            parsed_type,
        },
    )
}

/// The template parameters of a kernel.
pub fn parse(variants: &[(String, Option<String>)]) -> (binds: Result<
    Vec<VariantBind<String>>,
    BindgenError,
>)
    ensures
        match variants_of(variants.deep_view(), variants@.len() as int) {
            Ok(expected) => binds matches Ok(binds) && binds.deep_view() == expected,
            Err(error) => binds matches Err(found) && found == error,
        },
{
    let ghost all = variants.deep_view();
    let mut binds: Vec<VariantBind<String>> = Vec::new();
    assert(binds.deep_view() =~= Seq::empty());
    let mut i: usize = 0;
    while i < variants.len()
        invariant
            i <= variants@.len(),
            all == variants.deep_view(),
            variants_of(all, i as int) == Ok::<Seq<VariantBind<Seq<char>>>, BindgenError>(
                binds.deep_view(),
            ),
        decreases variants@.len() - i,
    {
        assert(all[i as int] == variants@[i as int].deep_view());
        let ghost before = binds.deep_view();
        match read_variant(variants[i].0.as_str(), &variants[i].1) {
            Some(variant) => {
                let ghost added = variant.deep_view();
                binds.push(variant);
                assert(binds.deep_view() =~= before.push(added));
            },
            None => {
                proof {
                    lemma_refused_variant_stands(all, i + 1, all.len() as int);
                }
                return Err(BindgenError::VariantType { variant: i });
            },
        }
        i += 1;
    }
    Ok(binds)
}

/// The parts of the generated code that template parameters take part in.
#[derive(Clone, Copy, Debug, PartialEq, Eq, Structural)]
pub enum VariantPart {
    /// The fields that hold values which host expressions speak of.
    Field,
    /// The initializers of those fields.
    Initializer,
    /// The arguments of the function that creates the kernel.
    Argument,
}

/// `out` with one part of the code for a template parameter behind it.
pub open spec fn with_part(
    out: Seq<char>,
    part: VariantPart,
    bind: VariantBind<Seq<char>>,
    referenced: Seq<String>,
) -> Seq<char> {
    match part {
        VariantPart::Field => match bind.parsed_type {
            Some(ty) => if text::is_listed(referenced, bind.parameter_name) {
                out + bind.field_name + ": "@ + ty + ", "@
            } else {
                out
            },
            None => out,
        },
        VariantPart::Initializer => if bind.parsed_type is Some && text::is_listed(
            referenced,
            bind.parameter_name,
        ) {
            out + ", "@ + bind.field_name + ": "@ + bind.parameter_name
        } else {
            out
        },
        VariantPart::Argument => match bind.parsed_type {
            Some(ty) => out + ", #[allow(non_snake_case)] "@ + bind.parameter_name + ": "@ + ty,
            None => out + ", #[allow(non_snake_case)] "@ + bind.parameter_name
                + ": crate::data_type::DataType"@,
        },
    }
}

/// `out` with one part of the code for the first `count` template parameters behind it.
pub open spec fn with_parts(
    out: Seq<char>,
    part: VariantPart,
    binds: Seq<VariantBind<Seq<char>>>,
    referenced: Seq<String>,
    count: int,
) -> Seq<char>
    decreases count,
{
    if count <= 0 {
        out
    } else {
        with_part(
            with_parts(out, part, binds, referenced, count - 1),
            part,
            binds[count - 1],
            referenced,
        )
    }
}

/// Appends one part of the code for template parameters.
pub fn push_parts(
    out: &mut String,
    part: VariantPart,
    binds: &[VariantBind<String>],
    referenced: &[String],
)
    ensures
        final(out)@ == with_parts(
            old(out)@,
            part,
            binds.deep_view(),
            referenced@,
            binds@.len() as int,
        ),
{
    let ghost before = out@;
    let mut i: usize = 0;
    while i < binds.len()
        invariant
            i <= binds@.len(),
            out@ == with_parts(before, part, binds.deep_view(), referenced@, i as int),
        decreases binds@.len() - i,
    {
        assert(binds.deep_view()[i as int] == binds@[i as int].deep_view());
        let name: &str = binds[i].parameter_name.as_str();
        match part {
            VariantPart::Field => {
                if let Some(ty) = &binds[i].parsed_type {
                    if specialize::contains(referenced, name) {
                        text::push_str(out, binds[i].field_name.as_str());
                        text::push_str(out, ": ");
                        text::push_str(out, ty.as_str());
                        text::push_str(out, ", ");
                    }
                }
            },
            VariantPart::Initializer => {
                if binds[i].parsed_type.is_some() && specialize::contains(referenced, name) {
                    text::push_str(out, ", ");
                    text::push_str(out, binds[i].field_name.as_str());
                    text::push_str(out, ": ");
                    text::push_str(out, name);
                }
            },
            VariantPart::Argument => {
                text::push_str(out, ", #[allow(non_snake_case)] ");
                text::push_str(out, name);
                match &binds[i].parsed_type {
                    Some(ty) => {
                        text::push_str(out, ": ");
                        text::push_str(out, ty.as_str());
                    },
                    None => {
                        text::push_str(out, ": crate::data_type::DataType");
                    },
                }
            },
        }
        i += 1;
    }
}

/// The expression by which the name of an instance holds a template parameter.
pub open spec fn kernel_format(bind: VariantBind<Seq<char>>) -> Seq<char> {
    match bind.parsed_type {
        None => bind.parameter_name + ".metal_type()"@,
        Some(_) => bind.parameter_name + ".to_string()"@,
    }
}

/// The expressions by which the name of an instance holds the template parameters.
pub fn kernel_formats(binds: &[VariantBind<String>]) -> (formats: Vec<String>)
    ensures
        formats.deep_view() == binds.deep_view().map_values(
            |bind: VariantBind<Seq<char>>| kernel_format(bind),
        ),
{
    let ghost expected = binds.deep_view().map_values(
        |bind: VariantBind<Seq<char>>| kernel_format(bind),
    );
    let mut formats: Vec<String> = Vec::new();
    assert(formats.deep_view() =~= expected.take(0));
    let mut i: usize = 0;
    while i < binds.len()
        invariant
            i <= binds@.len(),
            expected == binds.deep_view().map_values(
                |bind: VariantBind<Seq<char>>| kernel_format(bind),
            ),
            formats.deep_view() == expected.take(i as int),
        decreases binds@.len() - i,
    {
        let ghost before = formats.deep_view();
        assert(binds.deep_view()[i as int] == binds@[i as int].deep_view());
        let mut format: String = text::copy_str(binds[i].parameter_name.as_str());
        if binds[i].parsed_type.is_some() {
            text::push_str(&mut format, ".to_string()");
        } else {
            text::push_str(&mut format, ".metal_type()");
        }
        formats.push(format);
        i += 1;
        assert(formats.deep_view() =~= before.push(expected[i - 1]));
        assert(formats.deep_view() =~= expected.take(i as int));
    }
    assert(formats.deep_view() =~= expected);
    formats
}

proof fn lemma_variants_of(variants: Seq<(Seq<char>, Option<Seq<char>>)>, count: int, at: int)
    requires
        0 <= count <= variants.len() <= usize::MAX,
    ensures
        match variants_of(variants, count) {
            Ok(binds) => binds.len() == count && (0 <= at < count ==> variant_of(variants[at]) == Some(
                binds[at],
            )),
            Err(error) => error matches BindgenError::VariantType { variant } && variant < count
                && variant_of(variants[variant as int]) is None && (0 <= at < variant ==> variant_of(
                variants[at],
            ) is Some),
        },
    decreases count,
{
    if count > 0 {
        lemma_variants_of(variants, count - 1, at);
    }
}

/// Every template parameter keeps its name and its place; the field for it has its name in lower case, and it
/// has a type where it is a value. The first whose type cannot be read is told.
pub proof fn law_parameters_are_bound_in_order(
    variants: &[(String, Option<String>)],
    binds: Result<Vec<VariantBind<String>>, BindgenError>,
    at: int,
    letter: int,
)
    requires
        variants@.len() <= usize::MAX,
        call_ensures(parse, (variants,), binds),
        0 <= at < variants@.len(),
    ensures
        match binds {
            Ok(binds) => {
                let (name, ty) = variants.deep_view()[at];
                let bind = binds.deep_view()[at];
                &&& binds@.len() == variants@.len()
                &&& bind.parameter_name == name
                &&& bind.field_name.len() == name.len()
                &&& 0 <= letter < name.len() ==> (if 'A' <= name[letter] && name[letter] <= 'Z' {
                    bind.field_name[letter] as int == name[letter] as int + 32
                } else {
                    bind.field_name[letter] == name[letter]
                })
                &&& bind.parsed_type is Some <==> ty is Some
                &&& ty matches Some(ty) ==> rust_source::type_tokens(ty) == bind.parsed_type
            },
            Err(error) => error matches BindgenError::VariantType { variant } && variant < variants@.len()
                && (at == variant ==> (variants.deep_view()[at].1 matches Some(ty)
                && rust_source::type_tokens(ty) is None)),
        },
{
    let deep = variants.deep_view();
    assert(deep.len() == variants@.len());
    lemma_variants_of(deep, deep.len() as int, at);
    if let Ok(found) = binds {
        assert(found.deep_view().len() == found@.len());
    }
}

/// The name of an instance holds a type by its name in the language of the kernels, and a value by its text.
pub proof fn law_instances_are_named_by_their_parameters(
    binds: &[VariantBind<String>],
    formats: Vec<String>,
    at: int,
)
    requires
        call_ensures(kernel_formats, (binds,), formats),
        0 <= at < binds@.len(),
    ensures
        formats@.len() == binds@.len(),
        formats.deep_view()[at] == binds.deep_view()[at].parameter_name + (if binds.deep_view()[
            at
        ].parsed_type is Some {
            ".to_string()"@
        } else {
            ".metal_type()"@
        }),
{
    assert(binds.deep_view().len() == binds@.len());
    assert(formats.deep_view().len() == formats@.len());
}

} // verus!
