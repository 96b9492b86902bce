//! The shared types in the language of the kernels.
use vstd::prelude::*;

use crate::build::gpu_types::option_set::GpuTypeOptionSet;
use crate::build::gpu_types::{
    GpuType, GpuTypeConstant, GpuTypeEnum, GpuTypeEnumVariant, GpuTypeFile, GpuTypeStruct,
    GpuTypeStructField, GpuTypeStructFieldType, GpuTypes,
};
use crate::text;

verus! {

/// The name that a scalar type has in the language of the kernels.
pub open spec fn metal_type(ty: Seq<char>) -> Option<Seq<char>> {
    if ty == "i8"@ {
        Some("int8_t"@)
    } else if ty == "i16"@ {
        Some("int16_t"@)
    } else if ty == "i32"@ {
        Some("int32_t"@)
    } else if ty == "i64"@ {
        Some("int64_t"@)
    } else if ty == "u8"@ {
        Some("uint8_t"@)
    } else if ty == "u16"@ {
        Some("uint16_t"@)
    } else if ty == "u32"@ {
        Some("uint32_t"@)
    } else if ty == "u64"@ {
        Some("uint64_t"@)
    } else if ty == "f32"@ {
        Some("float"@)
    } else if ty == "bool"@ {
        Some("bool"@)
    } else {
        None
    }
}

/// The name that a scalar type has in the language of the kernels; nothing where it has none.
pub fn rust_to_metal(ty: &str) -> (name: Option<&'static str>)
    ensures
        name.deep_view() == metal_type(ty@),
{
    if text::is_same(ty, "i8") {
        Some("int8_t")
    } else if text::is_same(ty, "i16") {
        Some("int16_t")
    } else if text::is_same(ty, "i32") {
        Some("int32_t")
    } else if text::is_same(ty, "i64") {
        Some("int64_t")
    } else if text::is_same(ty, "u8") {
        Some("uint8_t")
    } else if text::is_same(ty, "u16") {
        Some("uint16_t")
    } else if text::is_same(ty, "u32") {
        Some("uint32_t")
    } else if text::is_same(ty, "u64") {
        Some("uint64_t")
    } else if text::is_same(ty, "f32") {
        Some("float")
    } else if text::is_same(ty, "bool") {
        Some("bool")
    } else {
        None
    }
}

/// The text of a constant.
pub open spec fn constant_text(constant: GpuTypeConstant) -> Option<Seq<char>> {
    match metal_type(constant.ty@) {
        Some(ty) => Some(
            "static constant constexpr "@ + ty + " "@ + constant.name@ + " = "@
                + constant.value_expression@ + ";"@,
        ),
        None => None,
    }
}

/// The text of a constant; nothing where its type cannot be shared.
pub fn gpu_type_gen_constant(constant: &GpuTypeConstant) -> (generated: Option<String>)
    ensures
        generated.deep_view() == constant_text(*constant),
{
    let ty: &str = match rust_to_metal(constant.ty.as_str()) {
        Some(ty) => ty,
        None => {
            return None;
        },
    };
    let mut out: String = text::copy_str("static constant constexpr ");
    text::push_str(&mut out, ty);
    text::push_str(&mut out, " ");
    text::push_str(&mut out, constant.name.as_str());
    text::push_str(&mut out, " = ");
    text::push_str(&mut out, constant.value_expression.as_str());
    text::push_str(&mut out, ";");
    Some(out)
}

/// `out` with the first `count` variants behind it.
pub open spec fn with_variants(
    out: Seq<char>,
    variants: Seq<GpuTypeEnumVariant>,
    count: int,
) -> Seq<char>
    decreases count,
{
    if count <= 0 {
        out
    } else {
        let variant = variants[count - 1];
        with_variants(out, variants, count - 1) + "\n  "@ + variant.name@ + " = "@
            + text::decimal(variant.discriminant as nat) + ","@
    }
}

/// The text of an enumeration.
pub open spec fn enum_text(gpu_type: GpuTypeEnum) -> Seq<char> {
    with_variants(
        "enum class "@ + gpu_type.name.0@ + " : uint32_t {"@,
        gpu_type.variants@,
        gpu_type.variants@.len() as int,
    ) + "\n};"@
}

/// The text of an enumeration.
pub fn gpu_type_gen_enum(gpu_type: &GpuTypeEnum) -> (generated: String)
    ensures
        generated@ == enum_text(*gpu_type),
{
    let mut out: String = text::copy_str("enum class ");
    text::push_str(&mut out, gpu_type.name.0.as_str());
    text::push_str(&mut out, " : uint32_t {");
    let ghost before = out@;
    let mut i: usize = 0;
    while i < gpu_type.variants.len()
        invariant
            i <= gpu_type.variants@.len(),
            out@ == with_variants(before, gpu_type.variants@, i as int),
        decreases gpu_type.variants@.len() - i,
    {
        text::push_str(&mut out, "\n  ");
        text::push_str(&mut out, gpu_type.variants[i].name.as_str());
        text::push_str(&mut out, " = ");
        text::push_decimal(&mut out, gpu_type.variants[i].discriminant as u64);
        text::push_str(&mut out, ",");
        i += 1;
    }
    text::push_str(&mut out, "\n};");
    out
}

/// `out` with a field behind it; nothing where its type cannot be shared.
pub open spec fn with_field(out: Seq<char>, field: GpuTypeStructField) -> Option<Seq<char>> {
    match field.ty {
        GpuTypeStructFieldType::Scalar(ty) => match metal_type(ty@) {
            Some(ty) => Some(out + "\n  "@ + ty + " "@ + field.name@ + ";"@),
            None => None,
        },
        GpuTypeStructFieldType::Array { element, length } => match metal_type(element@) {
            Some(ty) => Some(
                out + "\n  "@ + ty + " "@ + field.name@ + "["@ + text::decimal(length as nat)
                    + "];"@,
            ),
            None => None,
        },
    }
}

/// `out` with the first `count` fields behind it; nothing where the type of one cannot be shared.
pub open spec fn with_fields(out: Seq<char>, fields: Seq<GpuTypeStructField>, count: int) -> Option<
    Seq<char>,
>
    decreases count,
{
    if count <= 0 {
        Some(out)
    } else {
        match with_fields(out, fields, count - 1) {
            Some(before) => with_field(before, fields[count - 1]),
            None => None,
        }
    }
}

proof fn lemma_unshared_field_stands(
    out: Seq<char>,
    fields: Seq<GpuTypeStructField>,
    count: int,
    total: int,
)
    requires
        0 <= count <= total,
        with_fields(out, fields, count) is None,
    ensures
        with_fields(out, fields, total) is None,
    decreases total - count,
{
    if count < total {
        lemma_unshared_field_stands(out, fields, count, total - 1);
    }
}

/// The text of a structure.
pub open spec fn struct_text(gpu_type: GpuTypeStruct) -> Option<Seq<char>> {
    match with_fields(
        "typedef struct {"@,
        gpu_type.fields@,
        gpu_type.fields@.len() as int,
    ) {
        Some(fields) => Some(fields + "\n} "@ + gpu_type.name.0@ + ";"@),
        None => None,
    }
}

fn push_field(out: &mut String, field: &GpuTypeStructField) -> (pushed: bool)
    ensures
        pushed ==> with_field(old(out)@, *field) == Some(final(out)@),
        !pushed ==> with_field(old(out)@, *field) is None,
{
    match &field.ty {
        GpuTypeStructFieldType::Scalar(ty) => {
            match rust_to_metal(ty.as_str()) {
                Some(ty) => {
                    text::push_str(out, "\n  ");
                    text::push_str(out, ty);
                    text::push_str(out, " ");
                    text::push_str(out, field.name.as_str());
                    text::push_str(out, ";");
                    true
                },
                None => false,
            }
        },
        GpuTypeStructFieldType::Array { element, length } => {
            match rust_to_metal(element.as_str()) {
                Some(ty) => {
                    text::push_str(out, "\n  ");
                    text::push_str(out, ty);
                    text::push_str(out, " ");
                    text::push_str(out, field.name.as_str());
                    text::push_str(out, "[");
                    text::push_decimal(out, *length as u64);
                    text::push_str(out, "];");
                    true
                },
                None => false,
            }
        },
    }
}

/// The text of a structure; nothing where the type of a field cannot be shared.
pub fn gpu_type_gen_struct(gpu_type: &GpuTypeStruct) -> (generated: Option<String>)
    ensures
        generated.deep_view() == struct_text(*gpu_type),
{
    let mut out: String = text::copy_str("typedef struct {");
    let mut i: usize = 0;
    while i < gpu_type.fields.len()
        invariant
            i <= gpu_type.fields@.len(),
            with_fields("typedef struct {"@, gpu_type.fields@, i as int) == Some(out@),
        decreases gpu_type.fields@.len() - i,
    {
        if !push_field(&mut out, &gpu_type.fields[i]) {
            proof {
                lemma_unshared_field_stands(
                    "typedef struct {"@,
                    gpu_type.fields@,
                    i + 1,
                    gpu_type.fields@.len() as int,
                );
            }
            return None;
        }
        i += 1;
    }
    text::push_str(&mut out, "\n} ");
    text::push_str(&mut out, gpu_type.name.0.as_str());
    text::push_str(&mut out, ";");
    Some(out)
}

/// `out` with the first `count` options behind it.
pub open spec fn with_options(
    out: Seq<char>,
    underlying: Seq<char>,
    variants: Seq<(Seq<char>, Seq<char>)>,
    count: int,
) -> Seq<char>
    decreases count,
{
    if count <= 0 {
        out
    } else {
        with_options(out, underlying, variants, count - 1) + "  static constant constexpr "@
            + underlying + " "@ + variants[count - 1].0 + " = "@ + variants[count - 1].1 + ";\n"@
    }
}

/// The text of a set of options.
pub open spec fn option_set_text(set: GpuTypeOptionSet) -> Option<Seq<char>> {
    let name = set.name@;
    match metal_type(set.underlying_type@) {
        Some(underlying) => Some(
            with_options(
                "struct "@ + name + " {\n  "@ + underlying + " raw_value;\n  constexpr "@ + name
                    + "() thread : raw_value(0) {}\n  constexpr "@ + name + "("@ + underlying
                    + " __dsl_v) thread : raw_value(__dsl_v) {}\n"@,
                underlying,
                set.variants.deep_view(),
                set.variants@.len() as int,
            ) + "  constexpr bool contains("@ + underlying
                + " flag) const thread { return (raw_value & flag) != 0; }\n  constexpr bool contains("@
                + underlying
                + " flag) const constant { return (raw_value & flag) != 0; }\n  constexpr "@
                + underlying + " bits() const thread { return raw_value; }\n  constexpr "@
                + underlying + " bits() const constant { return raw_value; }\n};"@,
        ),
        None => None,
    }
}

/// The text of a set of options; nothing where its integer type cannot be shared.
pub fn gpu_type_gen_option_set(set: &GpuTypeOptionSet) -> (generated: Option<String>)
    ensures
        generated.deep_view() == option_set_text(*set),
{
    let underlying: &str = match rust_to_metal(set.underlying_type.as_str()) {
        Some(underlying) => underlying,
        None => {
            return None;
        },
    };
    let name: &str = set.name.as_str();
    let mut out: String = text::copy_str("struct ");
    text::push_str(&mut out, name);
    text::push_str(&mut out, " {\n  ");
    text::push_str(&mut out, underlying);
    text::push_str(&mut out, " raw_value;\n  constexpr ");
    text::push_str(&mut out, name);
    text::push_str(&mut out, "() thread : raw_value(0) {}\n  constexpr ");
    text::push_str(&mut out, name);
    text::push_str(&mut out, "(");
    text::push_str(&mut out, underlying);
    text::push_str(&mut out, " __dsl_v) thread : raw_value(__dsl_v) {}\n");
    let ghost before = out@;
    let mut i: usize = 0;
    while i < set.variants.len()
        invariant
            i <= set.variants@.len(),
            out@ == with_options(before, underlying@, set.variants.deep_view(), i as int),
        decreases set.variants@.len() - i,
    {
        assert(set.variants.deep_view()[i as int] == set.variants@[i as int].deep_view());
        text::push_str(&mut out, "  static constant constexpr ");
        text::push_str(&mut out, underlying);
        text::push_str(&mut out, " ");
        text::push_str(&mut out, set.variants[i].0.as_str());
        text::push_str(&mut out, " = ");
        text::push_str(&mut out, set.variants[i].1.as_str());
        text::push_str(&mut out, ";\n");
        i += 1;
    }
    text::push_str(&mut out, "  constexpr bool contains(");
    text::push_str(&mut out, underlying);
    text::push_str(
        &mut out,
        " flag) const thread { return (raw_value & flag) != 0; }\n  constexpr bool contains(",
    );
    text::push_str(&mut out, underlying);
    text::push_str(
        &mut out,
        " flag) const constant { return (raw_value & flag) != 0; }\n  constexpr ",
    );
    text::push_str(&mut out, underlying);
    text::push_str(&mut out, " bits() const thread { return raw_value; }\n  constexpr ");
    text::push_str(&mut out, underlying);
    text::push_str(&mut out, " bits() const constant { return raw_value; }\n};");
    Some(out)
}

/// The text of a shared type.
pub open spec fn type_text(gpu_type: GpuType) -> Option<Seq<char>> {
    match gpu_type {
        GpuType::Constant(constant) => constant_text(constant),
        GpuType::Enum(gpu_type) => Some(enum_text(gpu_type)),
        GpuType::Struct(gpu_type) => struct_text(gpu_type),
        GpuType::OptionSet(set) => option_set_text(set),
    }
}

/// The texts of the first `count` types with an empty line between them; nothing where one cannot be
/// shared.
pub open spec fn types_text(types: Seq<GpuType>, count: int) -> Option<Seq<char>>
    decreases count,
{
    if count <= 0 {
        Some(Seq::empty())
    } else {
        match (types_text(types, count - 1), type_text(types[count - 1])) {
            (Some(before), Some(generated)) => if count > 1 {
                Some(before + "\n\n"@ + generated)
            } else {
                Some(before + generated)
            },
            _ => None,
        }
    }
}

proof fn lemma_unshared_type_stands(types: Seq<GpuType>, count: int, total: int)
    requires
        0 <= count <= total,
        types_text(types, count) is None,
    ensures
        types_text(types, total) is None,
    decreases total - count,
{
    if count < total {
        lemma_unshared_type_stands(types, count, total - 1);
    }
}

/// The texts of the types of a file; nothing where one cannot be shared.
pub fn gpu_type_gen_file(file: &GpuTypeFile) -> (generated: Option<String>)
    ensures
        generated.deep_view() == types_text(file.types@, file.types@.len() as int),
{
    let mut out: String = String::new();
    let mut i: usize = 0;
    while i < file.types.len()
        invariant
            i <= file.types@.len(),
            types_text(file.types@, i as int) == Some(out@),
        decreases file.types@.len() - i,
    {
        let generated: Option<String> = match &file.types[i] {
            GpuType::Constant(constant) => gpu_type_gen_constant(constant),
            GpuType::Enum(gpu_type) => Some(gpu_type_gen_enum(gpu_type)),
            GpuType::Struct(gpu_type) => gpu_type_gen_struct(gpu_type),
            GpuType::OptionSet(set) => gpu_type_gen_option_set(set),
        };
        match generated {
            Some(generated) => {
                if i > 0 {
                    text::push_str(&mut out, "\n\n");
                }
                text::push_str(&mut out, generated.as_str());
            },
            None => {
                proof {
                    lemma_unshared_type_stands(file.types@, i + 1, file.types@.len() as int);
                }
                return None;
            },
        }
        i += 1;
    }
    Some(out)
}

/// The first `count` files, each as its name with the texts of its types; or the first of them with a
/// type that cannot be shared.
pub open spec fn files_text(files: Seq<GpuTypeFile>, count: int) -> Result<
    Seq<(Seq<char>, Seq<char>)>,
    usize,
>
    decreases count,
{
    if count <= 0 {
        Ok(Seq::empty())
    } else {
        match files_text(files, count - 1) {
            Err(index) => Err(index),
            Ok(before) => match types_text(
                files[count - 1].types@,
                files[count - 1].types@.len() as int,
            ) {
                Some(generated) => Ok(before.push((files[count - 1].name@, generated))),
                None => Err((count - 1) as usize),
            },
        }
    }
}

proof fn lemma_unshared_file_stands(files: Seq<GpuTypeFile>, count: int, total: int)
    requires
        0 <= count <= total,
        files_text(files, count) is Err,
    ensures
        files_text(files, total) == files_text(files, count),
    decreases total - count,
{
    if count < total {
        lemma_unshared_file_stands(files, count, total - 1);
    }
}

/// Every file of shared types as its name with the texts of its types.
///
/// The error is the position of the first file with a type that cannot be shared.
pub fn gpu_type_gen(gpu_types: &GpuTypes) -> (generated: Result<Vec<(String, String)>, usize>)
    ensures
        match generated {
            Ok(generated) => files_text(
                gpu_types.files@,
                gpu_types.files@.len() as int,
            ) == Ok::<Seq<(Seq<char>, Seq<char>)>, usize>(generated.deep_view()),
            Err(index) => files_text(gpu_types.files@, gpu_types.files@.len() as int) == Err::<
                Seq<(Seq<char>, Seq<char>)>,
                usize,
            >(index),
        },
{
    let mut generated: Vec<(String, String)> = Vec::new();
    assert(generated.deep_view() =~= Seq::empty());
    let mut i: usize = 0;
    while i < gpu_types.files.len()
        invariant
            i <= gpu_types.files@.len(),
            files_text(gpu_types.files@, i as int) == Ok::<Seq<(Seq<char>, Seq<char>)>, usize>(
                generated.deep_view(),
            ),
        decreases gpu_types.files@.len() - i,
    {
        let ghost before = generated.deep_view();
        match gpu_type_gen_file(&gpu_types.files[i]) {
            Some(contents) => {
                let name: String = text::copy_str(gpu_types.files[i].name.as_str());
                let ghost added = (name@, contents@);
                generated.push((name, contents));
                assert(generated.deep_view() =~= before.push(added));
            },
            None => {
                proof {
                    lemma_unshared_file_stands(
                        gpu_types.files@,
                        i + 1,
                        gpu_types.files@.len() as int,
                    );
                }
                return Err(i);
            },
        }
        i += 1;
    }
    Ok(generated)
}

/// Whether a file has to be written: a file that holds the same keeps its time of change.
pub fn needs_writing(present: Option<&[u8]>, contents: &[u8]) -> (needed: bool)
    ensures
        needed == !(present matches Some(present) && present@ == contents@),
{
    match present {
        None => true,
        Some(old_contents) => {
            if old_contents.len() != contents.len() {
                return true;
            }
            let mut i: usize = 0;
            while i < old_contents.len()
                invariant
                    present == Some(old_contents),
                    i <= old_contents@.len(),
                    old_contents@.len() == contents@.len(),
                    forall|j: int| 0 <= j < i ==> old_contents@[j] == contents@[j],
                decreases old_contents@.len() - i,
            {
                if old_contents[i] != contents[i] {
                    return true;
                }
                i += 1;
            }
            assert(old_contents@ =~= contents@);
            false
        },
    }
}

/// Integer types keep their width and say whether they have a sign; single precision and truth values have
/// names of their own, and other types are not shared.
pub proof fn law_scalar_types_keep_their_width(ty: &str, name: Option<&'static str>)
    requires
        call_ensures(rust_to_metal, (ty,), name),
    ensures
        name matches Some(name) ==> match ty@[0] {
            'i' => name@ == "int"@ + ty@.skip(1) + "_t"@,
            'u' => name@ == "uint"@ + ty@.skip(1) + "_t"@,
            'f' => ty@ == "f32"@ && name@ == "float"@,
            _ => ty@ == "bool"@ && name@ == "bool"@,
        },
        name matches Some(_) ==> (ty@[0] == 'i' || ty@[0] == 'u' ==> ty@.skip(1) == "8"@ || ty@.skip(1)
            == "16"@ || ty@.skip(1) == "32"@ || ty@.skip(1) == "64"@),
        ty@ == "f32"@ || ty@ == "bool"@ || ty@ == "u8"@ || ty@ == "u32"@ || ty@ == "i64"@ ==> name is Some,
{
    reveal_strlit("i8");
    reveal_strlit("i16");
    reveal_strlit("i32");
    reveal_strlit("i64");
    reveal_strlit("u8");
    reveal_strlit("u16");
    reveal_strlit("u32");
    reveal_strlit("u64");
    reveal_strlit("f32");
    reveal_strlit("bool");
    reveal_strlit("int8_t");
    reveal_strlit("int16_t");
    reveal_strlit("int32_t");
    reveal_strlit("int64_t");
    reveal_strlit("uint8_t");
    reveal_strlit("uint16_t");
    reveal_strlit("uint32_t");
    reveal_strlit("uint64_t");
    reveal_strlit("float");
    reveal_strlit("int");
    reveal_strlit("uint");
    reveal_strlit("_t");
    reveal_strlit("8");
    reveal_strlit("16");
    reveal_strlit("32");
    reveal_strlit("64");
    if let Some(name) = name {
        assert(Some(name).deep_view() == Some(name@));
        let width = ty@.skip(1);
        if ty@[0] == 'i' {
            assert(name@ =~= "int"@ + width + "_t"@);
        }
        if ty@[0] == 'u' {
            assert(name@ =~= "uint"@ + width + "_t"@);
        }
        if ty@ == "i8"@ || ty@ == "u8"@ {
            assert(width =~= "8"@);
        }
        if ty@ == "i16"@ || ty@ == "u16"@ {
            assert(width =~= "16"@);
        }
        if ty@ == "i32"@ || ty@ == "u32"@ {
            assert(width =~= "32"@);
        }
        if ty@ == "i64"@ || ty@ == "u64"@ {
            assert(width =~= "64"@);
        }
    }
}

/// A constant is written with its type before its name and its value behind it.
pub proof fn law_constants_have_their_values(
    constant: GpuTypeConstant,
    generated: Option<String>,
)
    requires
        call_ensures(gpu_type_gen_constant, (&constant,), generated),
    ensures
        generated is Some <==> metal_type(constant.ty@) is Some,
        generated matches Some(generated) ==> text::is_part(
            generated@,
            metal_type(constant.ty@)->0 + " "@ + constant.name@ + " = "@ + constant.value_expression@
                + ";"@,
        ),
{
    if let Some(written) = generated {
        assert(generated.deep_view() == Some(written@));
        let part = metal_type(constant.ty@)->0 + " "@ + constant.name@ + " = "@
            + constant.value_expression@ + ";"@;
        text::lemma_part_of_sum("static constant constexpr "@, part, Seq::empty());
        let opened = "static constant constexpr "@;
        let ty = metal_type(constant.ty@)->0;
        text::lemma_sum(opened, ty, " "@);
        text::lemma_sum(opened, ty + " "@, constant.name@);
        text::lemma_sum(opened, ty + " "@ + constant.name@, " = "@);
        text::lemma_sum(opened, ty + " "@ + constant.name@ + " = "@, constant.value_expression@);
        text::lemma_sum(
            opened,
            ty + " "@ + constant.name@ + " = "@ + constant.value_expression@,
            ";"@,
        );
        assert(opened + part + Seq::<char>::empty() =~= opened + part);
    }
}

proof fn lemma_variants(out: Seq<char>, variants: Seq<GpuTypeEnumVariant>, count: int, at: int)
    requires
        0 <= at < count <= variants.len(),
    ensures
        text::is_part(
            with_variants(out, variants, count),
            variants[at].name@ + " = "@ + text::decimal(variants[at].discriminant as nat) + ","@,
        ),
    decreases count,
{
    let before = with_variants(out, variants, count - 1);
    let variant = variants[count - 1];
    let line = variant.name@ + " = "@ + text::decimal(variant.discriminant as nat) + ","@;
    assert(with_variants(out, variants, count) =~= (before + "\n  "@) + line + Seq::<char>::empty());
    assert(with_variants(out, variants, count) =~= Seq::<char>::empty() + before + ("\n  "@ + line));
    if at < count - 1 {
        lemma_variants(out, variants, count - 1, at);
        text::lemma_part_of_part(
            before,
            variants[at].name@ + " = "@ + text::decimal(variants[at].discriminant as nat) + ","@,
            Seq::empty(),
            "\n  "@ + line,
        );
    } else {
        text::lemma_part_of_sum(before + "\n  "@, line, Seq::empty());
    }
}

/// Every variant of an enumeration is written with its number.
pub proof fn law_variants_have_their_numbers(gpu_type: GpuTypeEnum, generated: String, at: int)
    requires
        call_ensures(gpu_type_gen_enum, (&gpu_type,), generated),
        0 <= at < gpu_type.variants@.len(),
    ensures
        text::is_part(
            generated@,
            gpu_type.variants@[at].name@ + " = "@ + text::decimal(
                gpu_type.variants@[at].discriminant as nat,
            ) + ","@,
        ),
{
    let opened = "enum class "@ + gpu_type.name.0@ + " : uint32_t {"@;
    let count = gpu_type.variants@.len() as int;
    lemma_variants(opened, gpu_type.variants@, count, at);
    let part = gpu_type.variants@[at].name@ + " = "@ + text::decimal(
        gpu_type.variants@[at].discriminant as nat,
    ) + ","@;
    text::lemma_part_of_part(
        with_variants(opened, gpu_type.variants@, count),
        part,
        Seq::empty(),
        "\n};"@,
    );
    assert(generated@ =~= Seq::<char>::empty() + with_variants(opened, gpu_type.variants@, count)
        + "\n};"@);
}

/// How a field is declared: its type, its name and, where it is an array, its length.
pub open spec fn declaration(field: GpuTypeStructField) -> Seq<char> {
    match field.ty {
        GpuTypeStructFieldType::Scalar(ty) => metal_type(ty@)->0 + " "@ + field.name@ + ";"@,
        GpuTypeStructFieldType::Array { element, length } => metal_type(element@)->0 + " "@
            + field.name@ + "["@ + text::decimal(length as nat) + "];"@,
    }
}

proof fn lemma_fields(out: Seq<char>, fields: Seq<GpuTypeStructField>, count: int, at: int)
    requires
        0 <= at < count <= fields.len(),
        with_fields(out, fields, count) is Some,
    ensures
        text::is_part(with_fields(out, fields, count)->0, declaration(fields[at])),
    decreases count,
{
    let before = with_fields(out, fields, count - 1)->0;
    let whole = with_fields(out, fields, count)->0;
    let line = declaration(fields[count - 1]);
    assert(whole =~= (before + "\n  "@) + line + Seq::<char>::empty());
    assert(whole =~= Seq::<char>::empty() + before + ("\n  "@ + line));
    if at < count - 1 {
        lemma_fields(out, fields, count - 1, at);
        text::lemma_part_of_part(before, declaration(fields[at]), Seq::empty(), "\n  "@ + line);
    } else {
        text::lemma_part_of_sum(before + "\n  "@, line, Seq::empty());
    }
}

/// Every field of a structure is declared in the text of the structure, which ends with its name.
pub proof fn law_fields_are_declared(gpu_type: GpuTypeStruct, generated: String, at: int)
    requires
        call_ensures(gpu_type_gen_struct, (&gpu_type,), Some(generated)),
        0 <= at < gpu_type.fields@.len(),
    ensures
        text::is_part(generated@, declaration(gpu_type.fields@[at])),
        text::is_part(generated@, "} "@ + gpu_type.name.0@ + ";"@),
{
    assert(Some(generated).deep_view() == Some(generated@));
    let count = gpu_type.fields@.len() as int;
    lemma_fields("typedef struct {"@, gpu_type.fields@, count, at);
    let fields = with_fields("typedef struct {"@, gpu_type.fields@, count)->0;
    let name = gpu_type.name.0@;
    let closed = "\n} "@ + name + ";"@;
    text::lemma_part_of_part(fields, declaration(gpu_type.fields@[at]), Seq::empty(), closed);
    text::lemma_sum(fields, "\n} "@, name);
    text::lemma_sum(fields, "\n} "@ + name, ";"@);
    assert(generated@ == fields + closed);
    assert(Seq::<char>::empty() + fields =~= fields);
    reveal_strlit("\n} ");
    reveal_strlit("\n");
    reveal_strlit("} ");
    assert("\n} "@ =~= "\n"@ + "} "@);
    let named = "} "@ + name + ";"@;
    text::lemma_sum("\n"@, "} "@, name);
    text::lemma_sum("\n"@, "} "@ + name, ";"@);
    assert(closed == "\n"@ + named);
    text::lemma_sum(fields, "\n"@, named);
    text::lemma_part_of_sum(fields + "\n"@, named, Seq::empty());
    assert((fields + "\n"@) + named + Seq::<char>::empty() =~= (fields + "\n"@) + named);
}

proof fn lemma_files(files: Seq<GpuTypeFile>, count: int, at: int)
    requires
        0 <= count <= files.len() <= usize::MAX,
    ensures
        match files_text(files, count) {
            Ok(written) => written.len() == count && (0 <= at < count ==> written[at].0 == files[at].name@
                && types_text(files[at].types@, files[at].types@.len() as int) == Some(written[at].1)),
            Err(index) => index < count && types_text(
                files[index as int].types@,
                files[index as int].types@.len() as int,
            ) is None && (0 <= at < index ==> types_text(
                files[at].types@,
                files[at].types@.len() as int,
            ) is Some),
        },
    decreases count,
{
    if count > 0 {
        lemma_files(files, count - 1, at);
        if let Ok(before) = files_text(files, count - 1) {
            if 0 <= at < count - 1 {
                lemma_files(files, count - 1, at);
            }
        }
    }
}

/// Every file is written under its own name, in the order of the files, with what its types are written as; the
/// first file with a type that cannot be shared is told.
pub proof fn law_files_are_written_by_their_names(
    gpu_types: GpuTypes,
    generated: Result<Vec<(String, String)>, usize>,
    at: int,
    file: Option<String>,
)
    requires
        call_ensures(gpu_type_gen, (&gpu_types,), generated),
        0 <= at < gpu_types.files@.len() <= usize::MAX,
        call_ensures(gpu_type_gen_file, (&gpu_types.files@[at],), file),
    ensures
        match generated {
            Ok(written) => {
                &&& written@.len() == gpu_types.files@.len()
                &&& written@[at].0@ == gpu_types.files@[at].name@
                &&& file matches Some(contents) && written@[at].1@ == contents@
            },
            Err(index) => {
                &&& at < index ==> file is Some
                &&& at == index ==> file is None
            },
        },
{
    lemma_files(gpu_types.files@, gpu_types.files@.len() as int, at);
    if let Ok(written) = generated {
        assert(written.deep_view()[at] == written@[at].deep_view());
        assert(written@[at].deep_view() == (written@[at].0@, written@[at].1@));
    }
    if let Some(contents) = file {
        assert(file.deep_view() == Some(contents@));
    }
}

/// A file is written exactly where it is not there or holds something else.
pub proof fn law_unchanged_files_are_left(present: Option<&[u8]>, contents: &[u8], needed: bool)
    requires
        call_ensures(needs_writing, (present, contents), needed),
    ensures
        present is None ==> needed,
        present matches Some(bytes) ==> (needed <==> bytes@ != contents@),
{
}

} // verus!
