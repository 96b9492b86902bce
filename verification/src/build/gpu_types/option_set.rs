//! Sets of options, as they are handed to `bitflags`.
//!
//! ```text
//! attributes visibility struct NAME : TYPE { (const NAME = EXPRESSION ;)* }
//! ```
use vstd::prelude::*;

use crate::build::rust_source::{self, Token};
use crate::text;

verus! {

/// A set of options: the integer type behind it, and the name and value of each option.
#[derive(Debug)]
pub struct GpuTypeOptionSet {
    pub name: String,
    pub underlying_type: String,
    pub variants: Vec<(String, String)>,
}

/// What a [`GpuTypeOptionSet`] holds.
#[verifier::ext_equal]
pub ghost struct OptionSetModel {
    pub name: Seq<char>,
    pub underlying_type: Seq<char>,
    pub variants: Seq<(Seq<char>, Seq<char>)>,
}

impl DeepView for GpuTypeOptionSet {
    type V = OptionSetModel;

    open spec fn deep_view(&self) -> OptionSetModel {
        OptionSetModel {
            name: self.name@,
            underlying_type: self.underlying_type@,
            variants: self.variants.deep_view(),
        }
    }
}

/// The mark stands at `index`.
pub open spec fn mark_at(tokens: Seq<Token<Seq<char>>>, index: int, mark: Seq<char>) -> bool {
    0 <= index && index < tokens.len() && match tokens[index] {
        Token::Punctuation(found, _) => found == mark,
        _ => false,
    }
}

/// The word stands at `index`.
pub open spec fn word_at(tokens: Seq<Token<Seq<char>>>, index: int, word: Seq<char>) -> bool {
    0 <= index && index < tokens.len() && match tokens[index] {
        Token::Identifier(found) => found == word,
        _ => false,
    }
}

/// The name at `index`.
pub open spec fn name_at(tokens: Seq<Token<Seq<char>>>, index: int) -> Option<Seq<char>> {
    if 0 <= index && index < tokens.len() {
        match tokens[index] {
            Token::Identifier(name) => rust_source::identifier(name),
            _ => None,
        }
    } else {
        None
    }
}

/// What stands between brackets at `index`, where they begin with `open`.
pub open spec fn group_at(tokens: Seq<Token<Seq<char>>>, index: int, open: char) -> Option<
    Seq<char>,
> {
    if 0 <= index && index < tokens.len() {
        match tokens[index] {
            Token::Group(whole, inside) => if whole.len() > 0 && whole[0] == open {
                Some(inside)
            } else {
                None
            },
            _ => None,
        }
    } else {
        None
    }
}

/// The place behind the attributes at `from`; nothing where one of them cannot be read.
pub open spec fn after_attributes(tokens: Seq<Token<Seq<char>>>, from: int) -> Option<int>
    decreases tokens.len() - from,
{
    if mark_at(tokens, from, "#"@) {
        match group_at(tokens, from + 1, '[') {
            Some(attribute) => if rust_source::attribute_parts("#["@ + attribute + "]"@) is Some {
                after_attributes(tokens, from + 2)
            } else {
                None
            },
            None => None,
        }
    } else {
        Some(from)
    }
}

/// The place behind the visibility at `from`, which may be missing.
pub open spec fn after_visibility(tokens: Seq<Token<Seq<char>>>, from: int) -> int {
    if word_at(tokens, from, "pub"@) {
        match group_at(tokens, from + 1, '(') {
            Some(scope) => if rust_source::is_visibility("pub("@ + scope + ")"@) {
                from + 2
            } else {
                from + 1
            },
            None => from + 1,
        }
    } else {
        from
    }
}

/// The place of the first semicolon from `from` on.
pub open spec fn semicolon_from(tokens: Seq<Token<Seq<char>>>, from: int) -> Option<int>
    decreases tokens.len() - from,
{
    if from < 0 || from >= tokens.len() {
        None
    } else if mark_at(tokens, from, ";"@) {
        Some(from)
    } else {
        semicolon_from(tokens, from + 1)
    }
}

/// `out` with the token behind it.
pub open spec fn with_token(out: Seq<char>, token: Token<Seq<char>>) -> Seq<char> {
    match token {
        Token::Identifier(source) => out + source + " "@,
        Token::Punctuation(mark, joint) => if joint {
            out + mark
        } else {
            out + mark + " "@
        },
        Token::Literal(source) => out + source + " "@,
        Token::Group(whole, _) => out + whole + " "@,
    }
}

/// The text of the tokens from `from` to `to`.
pub open spec fn text_between(tokens: Seq<Token<Seq<char>>>, from: int, to: int) -> Seq<char>
    decreases to - from,
{
    if to <= from {
        Seq::empty()
    } else {
        with_token(text_between(tokens, from, to - 1), tokens[to - 1])
    }
}

/// The option at `from`, and the place behind it.
pub open spec fn option_at(tokens: Seq<Token<Seq<char>>>, from: int) -> Option<
    ((Seq<char>, Seq<char>), int),
> {
    if !word_at(tokens, from, "const"@) || !mark_at(tokens, from + 2, "="@) {
        None
    } else {
        match (name_at(tokens, from + 1), semicolon_from(tokens, from + 3)) {
            (Some(name), Some(end)) => match rust_source::expression(
                text_between(tokens, from + 3, end),
            ) {
                Some(value) => Some(((name, value), end + 1)),
                None => None,
            },
            _ => None,
        }
    }
}

/// `before` and the options from `from` on; nothing where something else stands there.
pub open spec fn options_from(
    tokens: Seq<Token<Seq<char>>>,
    from: int,
    before: Seq<(Seq<char>, Seq<char>)>,
) -> Option<Seq<(Seq<char>, Seq<char>)>>
    decreases tokens.len() - from,
{
    if from >= tokens.len() {
        Some(before)
    } else {
        match option_at(tokens, from) {
            Some((option, next)) => if from < next <= tokens.len() {
                options_from(tokens, next, before.push(option))
            } else {
                None
            },
            None => None,
        }
    }
}

/// The set of options of which `source` is the text.
pub open spec fn option_set_of(source: Seq<char>) -> Option<OptionSetModel> {
    match rust_source::tokens(source) {
        None => None,
        Some(tokens) => match after_attributes(tokens, 0) {
            None => None,
            Some(attributed) => {
                let start = after_visibility(tokens, attributed);
                if !word_at(tokens, start, "struct"@) || !mark_at(tokens, start + 2, ":"@)
                    || tokens.len() != start + 5 {
                    None
                } else {
                    match (
                        name_at(tokens, start + 1),
                        name_at(tokens, start + 3),
                        group_at(tokens, start + 4, '{'),
                    ) {
                        (Some(name), Some(underlying_type), Some(body)) => match rust_source::tokens(
                            body,
                        ) {
                            None => None,
                            Some(body) => match options_from(body, 0, Seq::empty()) {
                                None => None,
                                Some(variants) => Some(
                                    OptionSetModel { name, underlying_type, variants },
                                ),
                            },
                        },
                        _ => None,
                    }
                }
            },
        },
    }
}

fn has_mark(tokens: &[Token<String>], index: usize, mark: &str) -> (found: bool)
    ensures
        found == mark_at(tokens.deep_view(), index as int, mark@),
{
    if index >= tokens.len() {
        return false;
    }
    assert(tokens.deep_view()[index as int] == tokens@[index as int].deep_view());
    match &tokens[index] {
        Token::Punctuation(found, _) => text::is_same(found.as_str(), mark),
        _ => false,
    }
}

fn has_word(tokens: &[Token<String>], index: usize, word: &str) -> (found: bool)
    ensures
        found == word_at(tokens.deep_view(), index as int, word@),
{
    if index >= tokens.len() {
        return false;
    }
    assert(tokens.deep_view()[index as int] == tokens@[index as int].deep_view());
    match &tokens[index] {
        Token::Identifier(found) => text::is_same(found.as_str(), word),
        _ => false,
    }
}

fn read_name(tokens: &[Token<String>], index: usize) -> (name: Option<String>)
    ensures
        name.deep_view() == name_at(tokens.deep_view(), index as int),
{
    if index >= tokens.len() {
        return None;
    }
    assert(tokens.deep_view()[index as int] == tokens@[index as int].deep_view());
    match &tokens[index] {
        Token::Identifier(name) => rust_source::read_identifier(name.as_str()),
        _ => None,
    }
}

/// What stands between brackets at `index`, where they begin with `open`.
pub fn read_group(tokens: &[Token<String>], index: usize, open: char) -> (inside: Option<String>)
    ensures
        inside.deep_view() == group_at(tokens.deep_view(), index as int, open),
{
    if index >= tokens.len() {
        return None;
    }
    assert(tokens.deep_view()[index as int] == tokens@[index as int].deep_view());
    match &tokens[index] {
        Token::Group(whole, inside) => {
            let letters: Vec<char> = text::characters(whole.as_str());
            if letters.len() > 0 && letters[0] == open {
                Some(text::copy_str(inside.as_str()))
            } else {
                None
            }
        },
        _ => None,
    }
}

fn skip_attributes(tokens: &[Token<String>]) -> (place: Option<usize>)
    ensures
        match place {
            Some(place) => after_attributes(tokens.deep_view(), 0) == Some(place as int) && place
                <= tokens@.len(),
            None => after_attributes(tokens.deep_view(), 0) is None,
        },
{
    let mut i: usize = 0;
    while has_mark(tokens, i, "#")
        invariant
            i <= tokens@.len(),
            after_attributes(tokens.deep_view(), 0) == after_attributes(
                tokens.deep_view(),
                i as int,
            ),
        decreases tokens@.len() - i,
    {
        if tokens.len() - i < 2 {
            return None;
        }
        match read_group(tokens, i + 1, '[') {
            Some(attribute) => {
                let mut source: String = text::copy_str("#[");
                text::push_str(&mut source, attribute.as_str());
                text::push_str(&mut source, "]");
                if rust_source::read_attribute(source.as_str()).is_none() {
                    return None;
                }
            },
            None => {
                return None;
            },
        }
        i += 2;
    }
    Some(i)
}

fn skip_visibility(tokens: &[Token<String>], from: usize) -> (place: usize)
    requires
        from <= tokens@.len(),
    ensures
        place == after_visibility(tokens.deep_view(), from as int),
        place <= tokens@.len(),
{
    if !has_word(tokens, from, "pub") {
        return from;
    }
    if tokens.len() - from < 2 {
        return from + 1;
    }
    match read_group(tokens, from + 1, '(') {
        Some(scope) => {
            let mut source: String = text::copy_str("pub(");
            text::push_str(&mut source, scope.as_str());
            text::push_str(&mut source, ")");
            if rust_source::check_visibility(source.as_str()) {
                from + 2
            } else {
                from + 1
            }
        },
        None => from + 1,
    }
}

/// The place of the first semicolon from `from` on.
pub fn find_semicolon(tokens: &[Token<String>], from: usize) -> (place: Option<usize>)
    ensures
        match place {
            Some(place) => semicolon_from(tokens.deep_view(), from as int) == Some(place as int)
                && from <= place < tokens@.len(),
            None => semicolon_from(tokens.deep_view(), from as int) is None,
        },
{
    let mut i: usize = from;
    while i < tokens.len()
        invariant
            from <= i,
            semicolon_from(tokens.deep_view(), from as int) == semicolon_from(
                tokens.deep_view(),
                i as int,
            ),
        decreases tokens@.len() - i,
    {
        if has_mark(tokens, i, ";") {
            return Some(i);
        }
        i += 1;
    }
    None
}

fn push_token(out: &mut String, token: &Token<String>)
    ensures
        final(out)@ == with_token(old(out)@, token.deep_view()),
{
    match token {
        Token::Identifier(source) | Token::Literal(source) | Token::Group(source, _) => {
            text::push_str(out, source.as_str());
            text::push_str(out, " ");
        },
        Token::Punctuation(mark, joint) => {
            text::push_str(out, mark.as_str());
            if !*joint {
                text::push_str(out, " ");
            }
        },
    }
}

/// The text of the tokens from `from` to `to`.
pub fn join_tokens(tokens: &[Token<String>], from: usize, to: usize) -> (joined: String)
    requires
        from <= to <= tokens@.len(),
    ensures
        joined@ == text_between(tokens.deep_view(), from as int, to as int),
{
    let mut joined: String = String::new();
    let mut i: usize = from;
    while i < to
        invariant
            from <= i <= to <= tokens@.len(),
            joined@ == text_between(tokens.deep_view(), from as int, i as int),
        decreases to - i,
    {
        assert(tokens.deep_view()[i as int] == tokens@[i as int].deep_view());
        push_token(&mut joined, &tokens[i]);
        i += 1;
    }
    joined
}

fn read_option(tokens: &[Token<String>], from: usize) -> (read: Option<((String, String), usize)>)
    requires
        from < tokens@.len(),
    ensures
        match read {
            Some((option, next)) => option_at(tokens.deep_view(), from as int) == Some(
                (option.deep_view(), next as int),
            ) && from < next <= tokens@.len(),
            None => option_at(tokens.deep_view(), from as int) is None,
        },
{
    if !has_word(tokens, from, "const") {
        return None;
    }
    if tokens.len() - from < 3 || !has_mark(tokens, from + 2, "=") {
        return None;
    }
    let name: String = match read_name(tokens, from + 1) {
        Some(name) => name,
        None => {
            return None;
        },
    };
    if tokens.len() - from < 4 {
        return None;
    }
    let end: usize = match find_semicolon(tokens, from + 3) {
        Some(end) => end,
        None => {
            return None;
        },
    };
    let source: String = join_tokens(tokens, from + 3, end);
    match rust_source::read_expression(source.as_str()) {
        Some(value) => Some(((name, value), end + 1)),
        None => None,
    }
}

fn read_options(tokens: &[Token<String>]) -> (options: Option<Vec<(String, String)>>)
    ensures
        options.deep_view() == options_from(tokens.deep_view(), 0, Seq::empty()),
{
    let mut options: Vec<(String, String)> = Vec::new();
    assert(options.deep_view() =~= Seq::empty());
    let mut i: usize = 0;
    while i < tokens.len()
        invariant
            i <= tokens@.len(),
            options_from(tokens.deep_view(), 0, Seq::empty()) == options_from(
                tokens.deep_view(),
                i as int,
                options.deep_view(),
            ),
        decreases tokens@.len() - i,
    {
        let ghost before = options.deep_view();
        match read_option(tokens, i) {
            Some((option, next)) => {
                let ghost added = option.deep_view();
                options.push(option);
                assert(options.deep_view() =~= before.push(added));
                i = next;
            },
            None => {
                return None;
            },
        }
    }
    Some(options)
}

impl GpuTypeOptionSet {
    /// Reads what is handed to `bitflags`; nothing where it is no set of options.
    pub fn parse(source: &str) -> (set: Option<GpuTypeOptionSet>)
        ensures
            set.deep_view() == option_set_of(source@),
    {
        let tokens: Vec<Token<String>> = match rust_source::read_tokens(source) {
            Some(tokens) => tokens,
            None => {
                return None;
            },
        };
        let attributed: usize = match skip_attributes(&tokens) {
            Some(attributed) => attributed,
            None => {
                return None;
            },
        };
        let start: usize = skip_visibility(&tokens, attributed);
        if !has_word(&tokens, start, "struct") || tokens.len() - start != 5 || !has_mark(
            &tokens,
            start + 2,
            ":",
        ) {
            return None;
        }
        let name: Option<String> = read_name(&tokens, start + 1);
        let underlying_type: Option<String> = read_name(&tokens, start + 3);
        let body: Vec<Token<String>> = match read_group(&tokens, start + 4, '{') {
            Some(body) => match rust_source::read_tokens(body.as_str()) {
                Some(body) => body,
                None => {
                    return None;
                },
            },
            None => {
                return None;
            },
        };
        match (name, underlying_type, read_options(&body)) {
            (Some(name), Some(underlying_type), Some(variants)) => Some(
                GpuTypeOptionSet { name, underlying_type, variants },
            ),
            _ => None,
        }
    }
}

proof fn lemma_semicolon(tokens: Seq<Token<Seq<char>>>, from: int)
    requires
        0 <= from,
    ensures
        match semicolon_from(tokens, from) {
            Some(place) => from <= place < tokens.len() && mark_at(tokens, place, ";"@) && forall|i: int|
                from <= i < place ==> !#[trigger] mark_at(tokens, i, ";"@),
            None => forall|i: int| from <= i ==> !#[trigger] mark_at(tokens, i, ";"@),
        },
    decreases tokens.len() - from,
{
    if from < tokens.len() && !mark_at(tokens, from, ";"@) {
        lemma_semicolon(tokens, from + 1);
    }
}

/// What is found is a semicolon, and none stands before it; where none is found there is none.
pub proof fn law_first_semicolon_is_found(
    tokens: &[Token<String>],
    from: usize,
    place: Option<usize>,
    at: int,
)
    requires
        call_ensures(find_semicolon, (tokens, from), place),
        from <= at < tokens@.len(),
    ensures
        (match tokens.deep_view()[at] {
            Token::Punctuation(mark, _) => mark == ";"@,
            _ => false,
        }) ==> (place matches Some(place) && place <= at),
        (place matches Some(found) && found == at) ==> (match tokens.deep_view()[at] {
            Token::Punctuation(mark, _) => mark == ";"@,
            _ => false,
        }),
{
    lemma_semicolon(tokens.deep_view(), from as int);
    assert(tokens.deep_view().len() == tokens@.len());
    assert(mark_at(tokens.deep_view(), at, ";"@) <==> (match tokens.deep_view()[at] {
        Token::Punctuation(mark, _) => mark == ";"@,
        _ => false,
    }));
}

proof fn lemma_text_between(tokens: Seq<Token<Seq<char>>>, from: int, middle: int, to: int)
    requires
        from <= middle <= to,
    ensures
        text_between(tokens, from, to) == text_between(tokens, from, middle) + text_between(
            tokens,
            middle,
            to,
        ),
    decreases to - middle,
{
    if middle == to {
        assert(text_between(tokens, from, middle) + Seq::<char>::empty() =~= text_between(
            tokens,
            from,
            middle,
        ));
    } else {
        lemma_text_between(tokens, from, middle, to - 1);
        let front = text_between(tokens, from, middle);
        let back = text_between(tokens, middle, to - 1);
        assert(with_token(front + back, tokens[to - 1]) =~= front + with_token(back, tokens[to - 1]));
    }
}

/// The texts of tokens follow each other.
pub proof fn law_joined_tokens_follow_each_other(
    tokens: &[Token<String>],
    from: usize,
    middle: usize,
    to: usize,
    whole: String,
    front: String,
    back: String,
)
    requires
        from <= middle <= to,
        call_ensures(join_tokens, (tokens, from, to), whole),
        call_ensures(join_tokens, (tokens, from, middle), front),
        call_ensures(join_tokens, (tokens, middle, to), back),
    ensures
        whole@ == front@ + back@,
        from == to ==> whole@.len() == 0,
{
    lemma_text_between(tokens.deep_view(), from as int, middle as int, to as int);
}

/// A token is written as it stands in the source, with a space behind it unless the next one is joined to it.
pub proof fn law_tokens_are_set_apart(tokens: &[Token<String>], at: usize, joined: String)
    requires
        at < tokens@.len(),
        at < usize::MAX,
        call_ensures(join_tokens, (tokens, at, (at + 1) as usize), joined),
    ensures
        match tokens.deep_view()[at as int] {
            Token::Identifier(source) => joined@ == source + " "@,
            Token::Literal(source) => joined@ == source + " "@,
            Token::Group(whole, _) => joined@ == whole + " "@,
            Token::Punctuation(mark, joint) => if joint {
                joined@ == mark
            } else {
                joined@ == mark + " "@
            },
        },
{
    let deep = tokens.deep_view();
    assert(text_between(deep, at as int, at as int) =~= Seq::<char>::empty());
    assert(joined@ == with_token(Seq::empty(), deep[at as int]));
    match deep[at as int] {
        Token::Identifier(source) => {
            assert(joined@ =~= source + " "@);
        },
        Token::Literal(source) => {
            assert(joined@ =~= source + " "@);
        },
        Token::Group(whole, _) => {
            assert(joined@ =~= whole + " "@);
        },
        Token::Punctuation(mark, joint) => {
            if joint {
                assert(joined@ =~= mark);
            } else {
                assert(joined@ =~= mark + " "@);
            }
        },
    }
}

/// What stands between brackets is read only where they begin as is asked.
pub proof fn law_groups_are_read_by_their_brackets(
    tokens: &[Token<String>],
    index: usize,
    open: char,
    inside: Option<String>,
)
    requires
        index < tokens@.len(),
        call_ensures(read_group, (tokens, index, open), inside),
    ensures
        match tokens.deep_view()[index as int] {
            Token::Group(whole, content) => match inside {
                Some(inside) => inside@ == content && whole.len() > 0 && whole[0] == open,
                None => whole.len() == 0 || whole[0] != open,
            },
            _ => inside is None,
        },
{
    assert(tokens.deep_view().len() == tokens@.len());
    if let Some(found) = inside {
        assert(inside.deep_view() == Some(found@));
    }
}

proof fn lemma_options_from(
    tokens: Seq<Token<Seq<char>>>,
    from: int,
    before: Seq<(Seq<char>, Seq<char>)>,
)
    requires
        0 <= from,
    ensures
        options_from(tokens, from, before) matches Some(all) ==> before.len() <= all.len() && all.take(
            before.len() as int,
        ) == before,
    decreases tokens.len() - from,
{
    if from >= tokens.len() {
        assert(before.take(before.len() as int) =~= before);
    } else if let Some((option, next)) = option_at(tokens, from) {
        if from < next <= tokens.len() {
            lemma_options_from(tokens, next, before.push(option));
            if let Some(all) = options_from(tokens, from, before) {
                assert(all.take(before.len() as int) =~= all.take(before.len() as int + 1).take(
                    before.len() as int,
                ));
                assert(before.push(option).take(before.len() as int) =~= before);
            }
        }
    }
}

/// A set of options ends with its name, a colon, the integer type behind it and its options between braces; the
/// word before its name says that it is a structure. The first option is the first that stands
/// between the braces.
pub proof fn law_set_is_named_before_its_type(
    source: &str,
    set: GpuTypeOptionSet,
    tokens: Seq<Token<Seq<char>>>,
)
    requires
        call_ensures(GpuTypeOptionSet::parse, (source,), Some(set)),
        rust_source::tokens(source@) == Some(tokens),
    ensures
        tokens.len() >= 5,
        ({
            let start = tokens.len() - 5;
            &&& tokens[start] == Token::Identifier("struct"@)
            &&& tokens[start + 1] matches Token::Identifier(name) && rust_source::identifier(name)
                == Some(set.name@)
            &&& tokens[start + 2] matches Token::Punctuation(mark, _) && mark == ":"@
            &&& tokens[start + 3] matches Token::Identifier(name) && rust_source::identifier(name)
                == Some(set.underlying_type@)
            &&& tokens[start + 4] matches Token::Group(whole, inside) && whole.len() > 0 && whole[0] == '{'
                && (rust_source::tokens(inside) matches Some(body) && (body.len() == 0
                <==> set.variants@.len() == 0) && (body.len() > 0 ==> body[0] == Token::Identifier(
                "const"@,
            ) && (body[1] matches Token::Identifier(name) && rust_source::identifier(name) == Some(
                set.variants.deep_view()[0].0,
            ))))
        }),
{
    assert(Some(set).deep_view() == Some(set.deep_view()));
    let start = after_visibility(tokens, after_attributes(tokens, 0)->0);
    assert(start == tokens.len() - 5);
    let inside = group_at(tokens, start + 4, '{')->0;
    let body = rust_source::tokens(inside)->0;
    let none = Seq::<(Seq<char>, Seq<char>)>::empty();
    let variants = set.variants.deep_view();
    assert(options_from(body, 0, none) == Some(variants));
    assert(variants.len() == set.variants@.len());
    if body.len() > 0 {
        let (option, next) = option_at(body, 0)->0;
        lemma_options_from(body, next, none.push(option));
        assert(variants.take(1)[0] == variants[0]);
        assert(variants.take(1) == none.push(option));
        assert(variants[0] == option);
    }
}

} // verus!
