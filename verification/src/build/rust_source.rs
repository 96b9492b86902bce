//! Rust source code, read by `syn`.
//!
//! A piece of code is held as its text: the text of its tokens, as `proc_macro2` writes them outside
//! of a procedural macro. Each function here reads one kind of piece and gives its parts.
use proc_macro2::{Spacing, TokenStream, TokenTree};
use quote::ToTokens;
use vstd::prelude::*;

verus! {

/// What an item of a source file is.
#[derive(Clone, Copy, Debug, PartialEq, Eq, Structural)]
pub enum ItemKind {
    Constant,
    Enumeration,
    Function,
    Macro,
    Structure,
    Other,
}

impl DeepView for ItemKind {
    type V = ItemKind;

    open spec fn deep_view(&self) -> ItemKind {
        *self
    }
}

/// What a type is, as far as the arguments of kernels go.
#[derive(Debug, PartialEq, Eq)]
pub enum TypeShape<T> {
    Array { item: T, length: T },
    Path,
    Pointer { mutable: bool },
    Reference { target: T },
    Slice { element: T },
    Other,
}

impl DeepView for TypeShape<String> {
    type V = TypeShape<Seq<char>>;

    open spec fn deep_view(&self) -> TypeShape<Seq<char>> {
        match self {
            TypeShape::Array { item, length } => TypeShape::Array { item: item@, length: length@ },
            TypeShape::Path => TypeShape::Path,
            TypeShape::Pointer { mutable } => TypeShape::Pointer { mutable: *mutable },
            TypeShape::Reference { target } => TypeShape::Reference { target: target@ },
            TypeShape::Slice { element } => TypeShape::Slice { element: element@ },
            TypeShape::Other => TypeShape::Other,
        }
    }
}

/// The items of a source file, each with its text; nothing where it is no source file.
pub uninterp spec fn items(source: Seq<char>) -> Option<Seq<(ItemKind, Seq<char>)>>;

/// Calls `syn::parse_file`, which gives the items of a file or finds that it is none.
#[verifier::external_body]
pub(crate) fn read_items(source: &str) -> (result: Option<Vec<(ItemKind, String)>>)
    ensures
        result.deep_view() == items(source@),
{
    let kind = |item: &syn::Item| match item {
        syn::Item::Const(_) => ItemKind::Constant,
        syn::Item::Enum(_) => ItemKind::Enumeration,
        syn::Item::Fn(_) => ItemKind::Function,
        syn::Item::Macro(_) => ItemKind::Macro,
        syn::Item::Struct(_) => ItemKind::Structure,
        _ => ItemKind::Other,
    };
    let file = syn::parse_file(source).ok()?;
    let items = file.items.iter().map(|item| (kind(item), item.to_token_stream().to_string()));
    Some(items.collect())
}

/// The attributes of a function, its name, its generic parameters and its arguments.
pub uninterp spec fn function_parts(function: Seq<char>) -> Option<
    (Seq<Seq<char>>, Seq<char>, Seq<Seq<char>>, Seq<Seq<char>>),
>;

/// Calls `syn::parse_str` for a function.
#[verifier::external_body]
pub(crate) fn read_function(function: &str) -> (result: Option<
    (Vec<String>, String, Vec<String>, Vec<String>),
>)
    ensures
        result.deep_view() == function_parts(function@),
{
    let function = syn::parse_str::<syn::ItemFn>(function).ok()?;
    let attributes = function.attrs.iter().map(|part| part.to_token_stream().to_string());
    let generics = &function.sig.generics.params;
    let parameters = generics.iter().map(|part| part.to_token_stream().to_string());
    let arguments = function.sig.inputs.iter().map(|part| part.to_token_stream().to_string());
    let name = function.sig.ident.to_string();
    Some((attributes.collect(), name, parameters.collect(), arguments.collect()))
}

/// The name of an attribute, where it is one identifier, and its arguments, where it is a list.
pub uninterp spec fn attribute_parts(attribute: Seq<char>) -> Option<
    (Option<Seq<char>>, Option<Seq<char>>),
>;

/// Calls `syn::Attribute::parse_outer` and takes the last attribute.
#[verifier::external_body]
pub(crate) fn read_attribute(attribute: &str) -> (result: Option<
    (Option<String>, Option<String>),
>)
    ensures
        result.deep_view() == attribute_parts(attribute@),
{
    let parser = syn::Attribute::parse_outer;
    let attribute = syn::parse::Parser::parse_str(parser, attribute).ok()?.pop()?;
    let name = attribute.path().get_ident().map(|name| name.to_string());
    let arguments = attribute.meta.require_list().ok().map(|list| list.tokens.to_string());
    Some((name, arguments))
}

/// The name of a generic parameter, with its type where it is a constant; nothing for a lifetime.
pub uninterp spec fn generic_parameter(parameter: Seq<char>) -> Option<
    (Seq<char>, Option<Seq<char>>),
>;

/// Calls `syn::parse_str` for a generic parameter.
#[verifier::external_body]
pub(crate) fn read_generic_parameter(parameter: &str) -> (result: Option<
    (String, Option<String>),
>)
    ensures
        result.deep_view() == generic_parameter(parameter@),
{
    match syn::parse_str::<syn::GenericParam>(parameter) {
        Ok(syn::GenericParam::Type(parameter)) => Some((parameter.ident.to_string(), None)),
        Ok(syn::GenericParam::Const(parameter)) => {
            let constant_type = parameter.ty.to_token_stream().to_string();
            Some((parameter.ident.to_string(), Some(constant_type)))
        },
        _ => None,
    }
}

/// The attributes of an argument, its pattern and its type; nothing for `self`.
pub uninterp spec fn argument_parts(argument: Seq<char>) -> Option<
    (Seq<Seq<char>>, Seq<char>, Seq<char>),
>;

/// Calls `syn::parse_str` for an argument of a function.
#[verifier::external_body]
pub(crate) fn read_argument(argument: &str) -> (result: Option<(Vec<String>, String, String)>)
    ensures
        result.deep_view() == argument_parts(argument@),
{
    match syn::parse_str::<syn::FnArg>(argument) {
        Ok(syn::FnArg::Typed(argument)) => {
            let attributes = argument.attrs.iter().map(|part| part.to_token_stream().to_string());
            let pattern = argument.pat.to_token_stream().to_string();
            Some((attributes.collect(), pattern, argument.ty.to_token_stream().to_string()))
        },
        _ => None,
    }
}

/// The name that a pattern binds, and whether it binds by reference, mutably, and with a pattern
/// behind it; nothing where the pattern is no identifier.
pub uninterp spec fn identifier_pattern(pattern: Seq<char>) -> Option<
    (Seq<char>, bool, bool, bool),
>;

/// Calls `syn::Pat::parse_single`.
#[verifier::external_body]
pub(crate) fn read_pattern(pattern: &str) -> (result: Option<(String, bool, bool, bool)>)
    ensures
        result.deep_view() == identifier_pattern(pattern@),
{
    match syn::parse::Parser::parse_str(syn::Pat::parse_single, pattern) {
        Ok(syn::Pat::Ident(pattern)) => {
            let (by_ref, mutable) = (pattern.by_ref.is_some(), pattern.mutability.is_some());
            Some((pattern.ident.to_string(), by_ref, mutable, pattern.subpat.is_some()))
        },
        _ => None,
    }
}

/// What a type is; nothing where the text is no type.
pub uninterp spec fn type_shape(type_text: Seq<char>) -> Option<TypeShape<Seq<char>>>;

/// Calls `syn::parse_str` for a type and tells apart what it is.
#[verifier::external_body]
pub(crate) fn read_type_shape(type_text: &str) -> (result: Option<TypeShape<String>>)
    ensures
        result.deep_view() == type_shape(type_text@),
{
    Some(match syn::parse_str::<syn::Type>(type_text).ok()? {
        syn::Type::Array(array) => TypeShape::Array {
            item: array.elem.to_token_stream().to_string(),
            length: array.len.to_token_stream().to_string(),
        },
        syn::Type::Path(_) => TypeShape::Path,
        syn::Type::Ptr(pointer) => TypeShape::Pointer { mutable: pointer.mutability.is_some() },
        syn::Type::Reference(reference) => {
            TypeShape::Reference { target: reference.elem.to_token_stream().to_string() }
        },
        syn::Type::Slice(slice) => TypeShape::Slice { element: slice.elem.to_token_stream().to_string() },
        _ => TypeShape::Other,
    })
}

/// The segments of a type that is a path: each name and, where they stand in angle brackets, its
/// arguments, with whether each is a type.
pub uninterp spec fn path_segments(type_text: Seq<char>) -> Option<
    Seq<(Seq<char>, Option<Seq<(bool, Seq<char>)>>)>,
>;

/// Calls `syn::parse_str` for a path.
#[verifier::external_body]
pub(crate) fn read_path_segments(type_text: &str) -> (result: Option<
    Vec<(String, Option<Vec<(bool, String)>>)>,
>)
    ensures
        result.deep_view() == path_segments(type_text@),
{
    let path = syn::parse_str::<syn::TypePath>(type_text).ok()?.path;
    let argument = |argument: &syn::GenericArgument| match argument {
        syn::GenericArgument::Type(_) => (true, argument.to_token_stream().to_string()),
        _ => (false, argument.to_token_stream().to_string()),
    };
    let arguments = |arguments: &syn::PathArguments| match arguments {
        syn::PathArguments::AngleBracketed(list) => Some(list.args.iter().map(argument).collect()),
        _ => None,
    };
    let segment = |part: &syn::PathSegment| (part.ident.to_string(), arguments(&part.arguments));
    Some(path.segments.iter().map(segment).collect())
}

/// The text of an identifier; nothing where the text is none.
pub uninterp spec fn identifier(source: Seq<char>) -> Option<Seq<char>>;

/// Calls `syn::parse_str` for an identifier.
#[verifier::external_body]
pub(crate) fn read_identifier(source: &str) -> (result: Option<String>)
    ensures
        result.deep_view() == identifier(source@),
{
    syn::parse_str::<syn::Ident>(source).ok().map(|identifier| identifier.to_string())
}

/// The text of an expression; nothing where the text is none.
pub uninterp spec fn expression(source: Seq<char>) -> Option<Seq<char>>;

/// Calls `syn::parse_str` for an expression.
#[verifier::external_body]
pub(crate) fn read_expression(source: &str) -> (result: Option<String>)
    ensures
        result.deep_view() == expression(source@),
{
    let expression = syn::parse_str::<syn::Expr>(source).ok();
    expression.map(|expression| expression.to_token_stream().to_string())
}

/// The texts of expressions with commas between them; nothing where the text is no such list.
pub uninterp spec fn expressions(source: Seq<char>) -> Option<Seq<Seq<char>>>;

/// Calls `syn::punctuated::Punctuated::parse_terminated` for expressions and commas.
#[verifier::external_body]
pub(crate) fn read_expressions(source: &str) -> (result: Option<Vec<String>>)
    ensures
        result.deep_view() == expressions(source@),
{
    let parser = syn::punctuated::Punctuated::<syn::Expr, syn::token::Comma>::parse_terminated;
    let list = syn::parse::Parser::parse_str(parser, source).ok()?;
    Some(list.iter().map(|expression| expression.to_token_stream().to_string()).collect())
}

/// The identifier that an expression consists of; nothing where it is anything else.
pub uninterp spec fn expression_identifier(source: Seq<char>) -> Option<Seq<char>>;

/// Calls `syn::Path::get_ident` for an expression that is a path.
#[verifier::external_body]
pub(crate) fn read_expression_identifier(source: &str) -> (result: Option<String>)
    ensures
        result.deep_view() == expression_identifier(source@),
{
    match syn::parse_str::<syn::Expr>(source) {
        Ok(syn::Expr::Path(path)) => path.path.get_ident().map(|name| name.to_string()),
        _ => None,
    }
}

/// The text of a type; nothing where the text is none.
pub uninterp spec fn type_tokens(source: Seq<char>) -> Option<Seq<char>>;

/// Calls `syn::parse_str` for a type.
#[verifier::external_body]
pub(crate) fn read_type(source: &str) -> (result: Option<String>)
    ensures
        result.deep_view() == type_tokens(source@),
{
    syn::parse_str::<syn::Type>(source).ok().map(|parsed| parsed.to_token_stream().to_string())
}

/// A piece of source code between which there is only space.
#[derive(Debug, PartialEq, Eq)]
pub enum Token<T> {
    Identifier(T),
    /// A mark, and whether the next one follows without space.
    Punctuation(T, bool),
    Literal(T),
    /// What stands between brackets: with them, and without.
    Group(T, T),
}

impl DeepView for Token<String> {
    type V = Token<Seq<char>>;

    open spec fn deep_view(&self) -> Token<Seq<char>> {
        match self {
            Token::Identifier(source) => Token::Identifier(source@),
            Token::Punctuation(mark, joint) => Token::Punctuation(mark@, *joint),
            Token::Literal(source) => Token::Literal(source@),
            Token::Group(whole, inside) => Token::Group(whole@, inside@),
        }
    }
}

/// The pieces of source code, where brackets match; what stands between brackets is one piece.
pub uninterp spec fn tokens(source: Seq<char>) -> Option<Seq<Token<Seq<char>>>>;

/// Calls `proc_macro2::TokenStream::from_str`.
#[verifier::external_body]
pub(crate) fn read_tokens(source: &str) -> (result: Option<Vec<Token<String>>>)
    ensures
        result.deep_view() == tokens(source@),
{
    let token = |tree| match tree {
        TokenTree::Ident(word) => Token::Identifier(word.to_string()),
        TokenTree::Punct(mark) => {
            Token::Punctuation(mark.as_char().into(), mark.spacing() == Spacing::Joint)
        },
        TokenTree::Literal(literal) => Token::Literal(literal.to_string()),
        TokenTree::Group(group) => Token::Group(group.to_string(), group.stream().to_string()),
    };
    source.parse::<TokenStream>().ok().map(|stream| stream.into_iter().map(token).collect())
}

/// Whether the text is a visibility, such as `pub` or `pub (crate)`.
pub uninterp spec fn is_visibility(source: Seq<char>) -> bool;

/// Calls `syn::parse_str` for a visibility.
#[verifier::external_body]
pub(crate) fn check_visibility(source: &str) -> (visibility: bool)
    ensures
        visibility == is_visibility(source@),
{
    syn::parse_str::<syn::Visibility>(source).is_ok()
}

/// The name of a macro, where it is one identifier, and what is handed to it.
pub uninterp spec fn macro_parts(item: Seq<char>) -> Option<(Option<Seq<char>>, Seq<char>)>;

/// Calls `syn::parse_str` for a macro call that is an item.
#[verifier::external_body]
pub(crate) fn read_macro(item: &str) -> (result: Option<(Option<String>, String)>)
    ensures
        result.deep_view() == macro_parts(item@),
{
    let item = syn::parse_str::<syn::ItemMacro>(item).ok()?;
    let name = item.mac.path.get_ident().map(|name| name.to_string());
    Some((name, item.mac.tokens.to_string()))
}

/// The value of a decimal integer literal, where it is one and fits; nothing otherwise.
pub uninterp spec fn u32_literal(source: Seq<char>) -> Option<u32>;

/// Calls `syn::LitInt::base10_parse` for an integer literal.
#[verifier::external_body]
pub(crate) fn read_u32_literal(source: &str) -> (result: Option<u32>)
    ensures
        result == u32_literal(source@),
{
    syn::parse_str::<syn::LitInt>(source).ok().and_then(|literal| literal.base10_parse().ok())
}

/// The text as a literal of the language, between quotes and with escapes.
pub uninterp spec fn string_literal(source: Seq<char>) -> Seq<char>;

/// Calls `proc_macro2::Literal::string`.
#[verifier::external_body]
pub(crate) fn write_string_literal(source: &str) -> (literal: String)
    ensures
        literal@ == string_literal(source@),
{
    proc_macro2::Literal::string(source).to_string()
}

/// The text with its letters in upper case.
pub uninterp spec fn uppercase(source: Seq<char>) -> Seq<char>;

/// Calls `str::to_uppercase`, which goes by the tables of Unicode.
#[verifier::external_body]
pub(crate) fn to_uppercase(source: &str) -> (upper: String)
    ensures
        upper@ == uppercase(source@),
{
    source.to_uppercase()
}

} // verus!
