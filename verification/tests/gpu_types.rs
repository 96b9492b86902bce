//! Types that the host and the kernels share.
use uzu_engine::build::gpu_types::option_set::{
    GpuTypeOptionSet, find_semicolon, join_tokens, read_group,
};
use uzu_engine::build::gpu_types::{
    GpuType, GpuTypeConstant, GpuTypeEnum, GpuTypeEnumVariant, GpuTypeFile, GpuTypeName,
    GpuTypeStruct, GpuTypeStructField, GpuTypeStructFieldType, GpuTypes, ScanError, SharedItem,
    ensure_repr_c, share_item,
};
use uzu_engine::build::rust_source::{ItemKind, Token};
use uzu_engine::build::metal::gpu_types::{
    gpu_type_gen, gpu_type_gen_file, needs_writing, rust_to_metal,
};

const FLAGS: &str = "
    /// Options.
    #[derive(Clone, Copy)]
    pub(crate) struct Flags: u32 {
        const A = 1 << 0;
        const B = (1 << 1) | 4;
    }
";

#[test]
fn sets_of_options_are_read() {
    let set = GpuTypeOptionSet::parse(FLAGS).unwrap();
    assert_eq!(set.name, "Flags");
    assert_eq!(set.underlying_type, "u32");
    assert_eq!(
        set.variants,
        vec![
            ("A".to_string(), "1 << 0".to_string()),
            ("B".to_string(), "(1 << 1) | 4".to_string()),
        ]
    );
    assert!(GpuTypeOptionSet::parse("struct F: u8 {}").unwrap().variants.is_empty());
}

#[test]
fn what_is_no_set_of_options_is_refused() {
    for source in [
        "enum F: u8 {}",
        "struct F u8 {}",
        "struct F: u8 { const A = 1 }",
        "struct F: u8 { const A == 1; }",
        "struct F: u8 { A = 1; }",
        "struct F: u8 {} struct G: u8 {}",
        "pub(elsewhere) struct F: u8 {}",
        "struct F: u8 (",
        "struct struct: u8 {}",
    ] {
        assert!(GpuTypeOptionSet::parse(source).is_none(), "{source}");
    }
}

#[test]
fn a_file_is_scanned_in_order() {
    let source = format!(
        "use bitflags::bitflags;
        pub const LIMIT: u32 = 4;
        bitflags! {{ {FLAGS} }}
        other! {{ }}
        #[repr(C)] pub enum Kind {{ A = 0 }}
        #[repr(C)] pub struct Params {{ a: u32 }}
        pub fn helper() {{}}"
    );
    let shared = GpuTypeFile::scan(&source).unwrap();
    assert!(matches!(&shared[0], SharedItem::Constant(text) if text.contains("LIMIT")));
    assert!(matches!(&shared[1], SharedItem::OptionSet(set) if set.name == "Flags"));
    assert!(matches!(&shared[2], SharedItem::Enumeration(text) if text.contains("Kind")));
    assert!(matches!(&shared[3], SharedItem::Structure(text) if text.contains("Params")));
    assert_eq!(shared.len(), 4);
    assert_eq!(GpuTypeFile::scan("fn (").err(), Some(ScanError::Source));
    assert_eq!(
        GpuTypeFile::scan("const A: u8 = 1; bitflags! { nothing }").err(),
        Some(ScanError::OptionSet { item: 1 })
    );
}

#[test]
fn the_layout_of_c_is_recognized() {
    let attributes = |list: &[&str]| list.iter().map(|text| text.to_string()).collect::<Vec<_>>();
    assert!(ensure_repr_c(&attributes(&["#[derive(Clone)]", "#[repr(C)]"])));
    assert!(!ensure_repr_c(&attributes(&["#[repr(u32)]", "#[repr]"])));
    assert!(!ensure_repr_c(&attributes(&["#[repr(C, packed)]"])));
    assert!(!ensure_repr_c(&[]));
}

fn file(types: Vec<GpuType>) -> GpuTypeFile {
    GpuTypeFile { name: "shared".to_string(), types }
}

#[test]
fn shared_types_are_written_for_kernels() {
    let generated = gpu_type_gen_file(&file(vec![
        GpuType::Constant(GpuTypeConstant {
            name: "LIMIT".to_string(),
            ty: "u32".to_string(),
            value_expression: "4".to_string(),
        }),
        GpuType::Enum(GpuTypeEnum {
            name: GpuTypeName("Kind".to_string()),
            variants: vec![
                GpuTypeEnumVariant { name: "A".to_string(), discriminant: 0 },
                GpuTypeEnumVariant { name: "B".to_string(), discriminant: 12 },
            ],
        }),
        GpuType::Struct(GpuTypeStruct {
            name: GpuTypeName("Params".to_string()),
            fields: vec![
                GpuTypeStructField {
                    name: "scale".to_string(),
                    ty: GpuTypeStructFieldType::Scalar("f32".to_string()),
                },
                GpuTypeStructField {
                    name: "extent".to_string(),
                    ty: GpuTypeStructFieldType::Array { element: "i64".to_string(), length: 3 },
                },
            ],
        }),
        GpuType::OptionSet(GpuTypeOptionSet::parse("struct F: u8 { const A = 1; }").unwrap()),
    ]))
    .unwrap();
    let expected = "static constant constexpr uint32_t LIMIT = 4;

enum class Kind : uint32_t {
  A = 0,
  B = 12,
};

typedef struct {
  float scale;
  int64_t extent[3];
} Params;

struct F {
  uint8_t raw_value;
  constexpr F() thread : raw_value(0) {}
  constexpr F(uint8_t __dsl_v) thread : raw_value(__dsl_v) {}
  static constant constexpr uint8_t A = 1;
  constexpr bool contains(uint8_t flag) const thread { return (raw_value & flag) != 0; }
  constexpr bool contains(uint8_t flag) const constant { return (raw_value & flag) != 0; }
  constexpr uint8_t bits() const thread { return raw_value; }
  constexpr uint8_t bits() const constant { return raw_value; }
};";
    assert_eq!(generated, expected);
}

#[test]
fn types_that_cannot_be_shared_are_refused() {
    assert_eq!(rust_to_metal("u16"), Some("uint16_t"));
    assert_eq!(rust_to_metal("bool"), Some("bool"));
    assert_eq!(rust_to_metal("f64"), None);
    let constant = |ty: &str| {
        GpuType::Constant(GpuTypeConstant {
            name: "X".to_string(),
            ty: ty.to_string(),
            value_expression: "0".to_string(),
        })
    };
    let types = GpuTypes { files: vec![file(vec![constant("i8")]), file(vec![constant("usize")])] };
    assert_eq!(gpu_type_gen(&types).err(), Some(1));
    let types = GpuTypes { files: vec![file(vec![constant("i8")])] };
    assert_eq!(
        gpu_type_gen(&types).unwrap(),
        vec![("shared".to_string(), "static constant constexpr int8_t X = 0;".to_string())]
    );
}

#[test]
fn files_that_hold_the_same_are_not_written() {
    assert!(needs_writing(None, b"a"));
    assert!(needs_writing(Some(b"a"), b"b"));
    assert!(needs_writing(Some(b"a"), b"ab"));
    assert!(!needs_writing(Some(b"ab"), b"ab"));
}

#[test]
fn items_are_shared_by_their_kind() {
    let shared = share_item(ItemKind::Structure, "struct S;", None, None);
    assert!(matches!(shared, Some(Some(SharedItem::Structure(text))) if text == "struct S;"));
    assert!(matches!(share_item(ItemKind::Function, "fn f() {}", None, None), Some(None)));
    assert!(matches!(share_item(ItemKind::Macro, "m!{}", Some("m"), None), Some(None)));
    assert!(share_item(ItemKind::Macro, "bitflags!{}", Some("bitflags"), None).is_none());
    let set = GpuTypeOptionSet::parse("struct F: u8 {}");
    let shared = share_item(ItemKind::Macro, "bitflags!{}", Some("bitflags"), set);
    assert!(matches!(shared, Some(Some(SharedItem::OptionSet(set))) if set.name == "F"));
}

#[test]
fn tokens_are_joined_with_their_spacing() {
    let tokens = vec![
        Token::Literal("1".to_string()),
        Token::Punctuation("<".to_string(), true),
        Token::Punctuation("<".to_string(), false),
        Token::Group("(a)".to_string(), "a".to_string()),
        Token::Punctuation(";".to_string(), false),
    ];
    assert_eq!(find_semicolon(&tokens, 0), Some(4));
    assert_eq!(find_semicolon(&tokens, 5), None);
    assert_eq!(join_tokens(&tokens, 0, 4), "1 << (a) ");
    assert_eq!(read_group(&tokens, 3, '('), Some("a".to_string()));
    assert_eq!(read_group(&tokens, 3, '['), None);
}
