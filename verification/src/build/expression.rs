//! Expressions that can be evaluated without running anything.
//!
//! The script language of conditions knows functions that wait, that run other scripts and that ask
//! for more memory than there is. An expression is plain where it calls none of them: it is made of
//! values, names, operators, groups, lists and indices, and of calls of functions that only look at
//! their arguments. Properties of a value may be read too; that only looks at it.
//!
//! What stands in a text or in a comment is not looked at, except that a text in back quotes may
//! hold no script.
use vstd::prelude::*;

use crate::text;

verus! {

/// A space, a tab or the end of a line.
pub open spec fn is_blank(letter: char) -> bool {
    letter == ' ' || letter == '\t' || letter == '\n' || letter == '\r'
}

/// Part of a name or a number.
pub open spec fn is_word_letter(letter: char) -> bool {
    ||| 'a' <= letter && letter <= 'z'
    ||| 'A' <= letter && letter <= 'Z'
    ||| '0' <= letter && letter <= '9'
    ||| letter == '_'
}

/// What a group can follow without being the arguments of a call.
pub open spec fn is_operator(letter: char) -> bool {
    ||| letter == '(' || letter == '[' || letter == ','
    ||| letter == '=' || letter == '<' || letter == '>'
    ||| letter == '&' || letter == '|' || letter == '^'
    ||| letter == '+' || letter == '-' || letter == '*' || letter == '/' || letter == '%'
}

/// Where the word that ends at `end` starts.
pub open spec fn word_start(text: Seq<char>, end: int) -> int
    decreases end,
{
    if 0 < end <= text.len() && is_word_letter(text[end - 1]) {
        word_start(text, end - 1)
    } else {
        end
    }
}

/// The word that ends at `end`.
pub open spec fn word_before(text: Seq<char>, end: int) -> Seq<char> {
    text.subrange(word_start(text, end), end)
}

/// The text begins at `end`, or an operator ends there. Two dots make a range, and two question marks
/// choose between values.
pub open spec fn follows_operator(text: Seq<char>, end: int) -> bool {
    ||| end <= 0
    ||| is_operator(text[end - 1])
    ||| end >= 2 && text[end - 1] == text[end - 2] && (text[end - 1] == '.' || text[end - 1] == '?')
}

/// A function that looks at whole numbers, or that compares values.
pub open spec fn is_number_inspection(name: Seq<char>) -> bool {
    ||| name == "abs"@ || name == "min"@ || name == "max"@ || name == "sign"@
    ||| name == "is_zero"@ || name == "is_odd"@ || name == "is_even"@
}

/// A function that rounds a number or tells whether it is one.
pub open spec fn is_rounding(name: Seq<char>) -> bool {
    ||| name == "floor"@ || name == "ceiling"@ || name == "round"@ || name == "int"@
    ||| name == "fraction"@ || name == "is_nan"@ || name == "is_finite"@ || name == "is_infinite"@
}

/// A function of real numbers.
pub open spec fn is_real_function(name: Seq<char>) -> bool {
    ||| name == "sqrt"@ || name == "exp"@ || name == "ln"@ || name == "log"@
    ||| name == "hypot"@ || name == "to_radians"@ || name == "to_degrees"@ || name == "PI"@
    ||| name == "E"@ || name == "sin"@ || name == "cos"@ || name == "tan"@
    ||| name == "asin"@ || name == "acos"@ || name == "atan"@ || name == "sinh"@
    ||| name == "cosh"@ || name == "tanh"@ || name == "asinh"@ || name == "acosh"@
    ||| name == "atanh"@
}

/// A function that gives a value in another form.
pub open spec fn is_conversion(name: Seq<char>) -> bool {
    ||| name == "to_int"@ || name == "to_float"@ || name == "parse_int"@ || name == "parse_float"@
    ||| name == "to_string"@ || name == "to_debug"@ || name == "to_hex"@ || name == "to_octal"@
    ||| name == "to_binary"@
}

/// A function that looks at text or at a list.
pub open spec fn is_text_inspection(name: Seq<char>) -> bool {
    ||| name == "len"@ || name == "is_empty"@ || name == "bytes"@ || name == "contains"@
    ||| name == "starts_with"@ || name == "ends_with"@ || name == "to_upper"@ || name == "to_lower"@
    ||| name == "to_chars"@ || name == "sub_string"@
}

/// A function that only looks at its arguments.
pub open spec fn is_inspection(name: Seq<char>) -> bool {
    ||| is_number_inspection(name) || is_rounding(name) || is_real_function(name)
    ||| is_conversion(name) || is_text_inspection(name)
    ||| name == "type_of"@ || name == "is_def_var"@
}

/// What a letter belongs to.
#[derive(Clone, Copy, Debug, PartialEq, Eq, Structural)]
pub enum Part {
    /// What is evaluated.
    Code,
    /// A text between two marks like the given one, with escapes.
    Quoted(char),
    /// A text between back quotes.
    BackQuoted,
    /// A text between `#"` and `"#`.
    Raw,
    /// What follows two slashes in a line.
    LineComment,
    /// What stands between `/*` and `*/`.
    BlockComment,
}

/// How far a text was looked at.
pub ghost struct Place {
    /// The letter that comes next.
    pub index: int,
    /// What that letter belongs to.
    pub part: Part,
    /// How many comments are open, one inside of the other.
    pub level: nat,
    /// The end of what was last evaluated; blanks, comments and exclamation marks are passed over.
    pub last: int,
}

/// Whether `letter` follows the letter at `index`.
pub open spec fn is_next(text: Seq<char>, index: int, letter: char) -> bool {
    index + 1 < text.len() && text[index + 1] == letter
}

/// The place one letter on.
pub open spec fn on(place: Place, part: Part) -> Place {
    Place { index: place.index + 1, part, ..place }
}

/// The place two letters on, or at the end.
pub open spec fn on_two(text: Seq<char>, place: Place, part: Part, level: nat) -> Place {
    Place {
        index: if place.index + 1 < text.len() {
            place.index + 2
        } else {
            place.index + 1
        },
        part,
        level,
        last: place.last,
    }
}

/// The place behind the first `count` letters, which were evaluated.
pub open spec fn behind(place: Place, count: int) -> Place {
    Place {
        index: place.index + count,
        part: Part::Code,
        level: 0,
        last: place.index + count,
    }
}

/// Nothing is run by the letter that is evaluated at the place: no script in braces, and no call but
/// of an inspection.
pub open spec fn is_plain_at(text: Seq<char>, place: Place) -> bool {
    let letter = text[place.index];
    &&& letter != '{' && letter != '}' && letter != '#'
    &&& letter == '(' ==> follows_operator(text, place.last) || word_before(text, place.last) == "in"@
        || is_inspection(word_before(text, place.last))
}

/// The next place after one where the letter is evaluated.
pub open spec fn step_in_code(text: Seq<char>, place: Place) -> Option<Place> {
    let letter = text[place.index];
    if is_blank(letter) || letter == '!' {
        Some(on(place, Part::Code))
    } else if letter == '"' || letter == '\'' {
        Some(on(place, Part::Quoted(letter)))
    } else if letter == '`' {
        Some(on(place, Part::BackQuoted))
    } else if letter == '#' && is_next(text, place.index, '"') {
        Some(on_two(text, place, Part::Raw, 0))
    } else if letter == '/' && is_next(text, place.index, '/') {
        Some(on_two(text, place, Part::LineComment, 0))
    } else if letter == '/' && is_next(text, place.index, '*') {
        Some(on_two(text, place, Part::BlockComment, 1))
    } else if is_plain_at(text, place) {
        Some(behind(place, 1))
    } else {
        None
    }
}

/// The next place after one in a text.
pub open spec fn step_in_text(text: Seq<char>, place: Place) -> Option<Place> {
    let letter = text[place.index];
    match place.part {
        Part::Quoted(mark) => if letter == '\\' {
            Some(on_two(text, place, place.part, place.level))
        } else if letter == mark {
            Some(behind(place, 1))
        } else {
            Some(on(place, place.part))
        },
        Part::BackQuoted => if letter == '$' && is_next(text, place.index, '{') {
            None
        } else if letter == '`' {
            Some(behind(place, 1))
        } else {
            Some(on(place, place.part))
        },
        _ => if letter == '"' && is_next(text, place.index, '#') {
            Some(behind(place, 2))
        } else {
            Some(on(place, place.part))
        },
    }
}

/// The next place after one in a comment.
pub open spec fn step_in_comment(text: Seq<char>, place: Place) -> Place {
    let letter = text[place.index];
    if place.part is LineComment {
        on(place, if letter == '\n' || letter == '\r' {
            Part::Code
        } else {
            Part::LineComment
        })
    } else if letter == '/' && is_next(text, place.index, '*') {
        on_two(text, place, Part::BlockComment, place.level + 1)
    } else if letter == '*' && is_next(text, place.index, '/') {
        if place.level <= 1 {
            on_two(text, place, Part::Code, 0)
        } else {
            on_two(text, place, Part::BlockComment, (place.level - 1) as nat)
        }
    } else {
        on(place, Part::BlockComment)
    }
}

/// The next place; none where something is run.
pub open spec fn step(text: Seq<char>, place: Place) -> Option<Place> {
    match place.part {
        Part::Code => step_in_code(text, place),
        Part::LineComment => Some(step_in_comment(text, place)),
        Part::BlockComment => Some(step_in_comment(text, place)),
        _ => step_in_text(text, place),
    }
}

/// Nothing is run by the text from a place on.
pub open spec fn is_plain_from(text: Seq<char>, place: Place) -> bool
    decreases text.len() - place.index,
{
    place.index >= text.len() || match step(text, place) {
        Some(next) => next.index > place.index && is_plain_from(text, next),
        None => false,
    }
}

/// Where a text begins.
pub open spec fn beginning() -> Place {
    Place { index: 0, part: Part::Code, level: 0, last: 0 }
}

/// Nothing is run by the text.
pub open spec fn is_plain(text: Seq<char>) -> bool {
    is_plain_from(text, beginning())
}

fn blank(letter: char) -> (answer: bool)
    ensures
        answer == is_blank(letter),
{
    letter == ' ' || letter == '\t' || letter == '\n' || letter == '\r'
}

fn word_letter(letter: char) -> (answer: bool)
    ensures
        answer == is_word_letter(letter),
{
    ('a' <= letter && letter <= 'z') || ('A' <= letter && letter <= 'Z') || ('0' <= letter
        && letter <= '9') || letter == '_'
}

fn operator(letter: char) -> (answer: bool)
    ensures
        answer == is_operator(letter),
{
    letter == '(' || letter == '[' || letter == ',' || letter == '=' || letter == '<' || letter
        == '>' || letter == '&' || letter == '|' || letter == '^' || letter == '+' || letter == '-'
        || letter == '*' || letter == '/' || letter == '%'
}

fn number_inspection(name: &str) -> (answer: bool)
    ensures
        answer == is_number_inspection(name@),
{
    text::is_same(name, "abs")
        || text::is_same(name, "min")
        || text::is_same(name, "max")
        || text::is_same(name, "sign")
        || text::is_same(name, "is_zero")
        || text::is_same(name, "is_odd")
        || text::is_same(name, "is_even")
}

fn rounding(name: &str) -> (answer: bool)
    ensures
        answer == is_rounding(name@),
{
    text::is_same(name, "floor")
        || text::is_same(name, "ceiling")
        || text::is_same(name, "round")
        || text::is_same(name, "int")
        || text::is_same(name, "fraction")
        || text::is_same(name, "is_nan")
        || text::is_same(name, "is_finite")
        || text::is_same(name, "is_infinite")
}

fn real_function(name: &str) -> (answer: bool)
    ensures
        answer == is_real_function(name@),
{
    text::is_same(name, "sqrt")
        || text::is_same(name, "exp")
        || text::is_same(name, "ln")
        || text::is_same(name, "log")
        || text::is_same(name, "hypot")
        || text::is_same(name, "to_radians")
        || text::is_same(name, "to_degrees")
        || text::is_same(name, "PI")
        || text::is_same(name, "E")
        || text::is_same(name, "sin")
        || text::is_same(name, "cos")
        || text::is_same(name, "tan")
        || text::is_same(name, "asin")
        || text::is_same(name, "acos")
        || text::is_same(name, "atan")
        || text::is_same(name, "sinh")
        || text::is_same(name, "cosh")
        || text::is_same(name, "tanh")
        || text::is_same(name, "asinh")
        || text::is_same(name, "acosh")
        || text::is_same(name, "atanh")
}

fn conversion(name: &str) -> (answer: bool)
    ensures
        answer == is_conversion(name@),
{
    text::is_same(name, "to_int")
        || text::is_same(name, "to_float")
        || text::is_same(name, "parse_int")
        || text::is_same(name, "parse_float")
        || text::is_same(name, "to_string")
        || text::is_same(name, "to_debug")
        || text::is_same(name, "to_hex")
        || text::is_same(name, "to_octal")
        || text::is_same(name, "to_binary")
}

fn text_inspection(name: &str) -> (answer: bool)
    ensures
        answer == is_text_inspection(name@),
{
    text::is_same(name, "len")
        || text::is_same(name, "is_empty")
        || text::is_same(name, "bytes")
        || text::is_same(name, "contains")
        || text::is_same(name, "starts_with")
        || text::is_same(name, "ends_with")
        || text::is_same(name, "to_upper")
        || text::is_same(name, "to_lower")
        || text::is_same(name, "to_chars")
        || text::is_same(name, "sub_string")
}

fn inspection(name: &str) -> (answer: bool)
    ensures
        answer == is_inspection(name@),
{
    number_inspection(name) || rounding(name) || real_function(name) || conversion(name)
        || text_inspection(name) || text::is_same(name, "type_of") || text::is_same(
        name,
        "is_def_var",
    )
}

fn find_word(letters: &[char], end: usize) -> (start: usize)
    requires
        end <= letters@.len(),
    ensures
        start == word_start(letters@, end as int),
        start <= end,
{
    let mut start: usize = end;
    while start > 0 && word_letter(letters[start - 1])
        invariant
            start <= end <= letters@.len(),
            word_start(letters@, end as int) == word_start(letters@, start as int),
        decreases start,
    {
        start -= 1;
    }
    start
}

/// A place in a text.
#[derive(Clone, Copy)]
struct Cursor {
    index: usize,
    part: Part,
    level: usize,
    last: usize,
}

impl Cursor {
    spec fn place(self) -> Place {
        Place {
            index: self.index as int,
            part: self.part,
            level: self.level as nat,
            last: self.last as int,
        }
    }

    /// The place stands in the text.
    spec fn is_in(self, text: Seq<char>) -> bool {
        self.index <= text.len() && self.level <= self.index && self.last <= self.index
    }

    fn on(self, part: Part) -> (next: Cursor)
        requires
            self.index < usize::MAX,
        ensures
            next.place() == on(self.place(), part),
    {
        Cursor { index: self.index + 1, part, level: self.level, last: self.last }
    }

    fn on_two(self, letters: &[char], part: Part, level: usize) -> (next: Cursor)
        requires
            self.index < letters@.len(),
        ensures
            next.place() == on_two(letters@, self.place(), part, level as nat),
    {
        let count: usize = letters.len();
        let index: usize = if self.index + 1 < count {
            self.index + 2
        } else {
            self.index + 1
        };
        Cursor { index, part, level, last: self.last }
    }

    fn behind(self, count: usize) -> (next: Cursor)
        requires
            self.index + count <= usize::MAX,
        ensures
            next.place() == behind(self.place(), count as int),
    {
        let index: usize = self.index + count;
        Cursor { index, part: Part::Code, level: 0, last: index }
    }
}

fn next_is(letters: &[char], index: usize, letter: char) -> (answer: bool)
    requires
        index < letters@.len(),
    ensures
        answer == is_next(letters@, index as int, letter),
{
    let count: usize = letters.len();
    index + 1 < count && letters[index + 1] == letter
}

fn plain_at(source: &str, letters: &[char], cursor: Cursor) -> (plain: bool)
    requires
        letters@ == source@,
        cursor.is_in(letters@),
        cursor.index < letters@.len(),
    ensures
        plain == is_plain_at(letters@, cursor.place()),
{
    let letter: char = letters[cursor.index];
    if letter == '{' || letter == '}' || letter == '#' {
        return false;
    }
    if letter != '(' {
        return true;
    }
    let end: usize = cursor.last;
    if end == 0 || operator(letters[end - 1]) {
        return true;
    }
    if end >= 2 && letters[end - 1] == letters[end - 2] && (letters[end - 1] == '.' || letters[end
        - 1] == '?') {
        return true;
    }
    let start: usize = find_word(letters, end);
    let word: &str = source.substring_char(start, end);
    text::is_same(word, "in") || inspection(word)
}

fn advance_in_code(source: &str, letters: &[char], cursor: Cursor) -> (next: Option<Cursor>)
    requires
        letters@ == source@,
        cursor.is_in(letters@),
        cursor.index < letters@.len(),
    ensures
        match next {
            Some(next) => step_in_code(letters@, cursor.place()) == Some(next.place())
                && next.is_in(letters@) && next.index > cursor.index,
            None => step_in_code(letters@, cursor.place()) is None,
        },
{
    let letter: char = letters[cursor.index];
    if blank(letter) || letter == '!' {
        Some(cursor.on(Part::Code))
    } else if letter == '"' || letter == '\'' {
        Some(cursor.on(Part::Quoted(letter)))
    } else if letter == '`' {
        Some(cursor.on(Part::BackQuoted))
    } else if letter == '#' && next_is(letters, cursor.index, '"') {
        Some(cursor.on_two(letters, Part::Raw, 0))
    } else if letter == '/' && next_is(letters, cursor.index, '/') {
        Some(cursor.on_two(letters, Part::LineComment, 0))
    } else if letter == '/' && next_is(letters, cursor.index, '*') {
        Some(cursor.on_two(letters, Part::BlockComment, 1))
    } else if plain_at(source, letters, cursor) {
        Some(cursor.behind(1))
    } else {
        None
    }
}

fn advance_in_text(letters: &[char], cursor: Cursor) -> (next: Option<Cursor>)
    requires
        cursor.is_in(letters@),
        cursor.index < letters@.len(),
    ensures
        match next {
            Some(next) => step_in_text(letters@, cursor.place()) == Some(next.place())
                && next.is_in(letters@) && next.index > cursor.index,
            None => step_in_text(letters@, cursor.place()) is None,
        },
{
    let letter: char = letters[cursor.index];
    match cursor.part {
        Part::Quoted(mark) => if letter == '\\' {
            Some(cursor.on_two(letters, cursor.part, cursor.level))
        } else if letter == mark {
            Some(cursor.behind(1))
        } else {
            Some(cursor.on(cursor.part))
        },
        Part::BackQuoted => if letter == '$' && next_is(letters, cursor.index, '{') {
            None
        } else if letter == '`' {
            Some(cursor.behind(1))
        } else {
            Some(cursor.on(cursor.part))
        },
        _ => if letter == '"' && next_is(letters, cursor.index, '#') {
            Some(cursor.behind(2))
        } else {
            Some(cursor.on(cursor.part))
        },
    }
}

fn advance_in_comment(letters: &[char], cursor: Cursor) -> (next: Cursor)
    requires
        cursor.is_in(letters@),
        cursor.index < letters@.len(),
    ensures
        next.place() == step_in_comment(letters@, cursor.place()),
        next.is_in(letters@),
        next.index > cursor.index,
{
    let letter: char = letters[cursor.index];
    if let Part::LineComment = cursor.part {
        if letter == '\n' || letter == '\r' {
            cursor.on(Part::Code)
        } else {
            cursor.on(Part::LineComment)
        }
    } else if letter == '/' && next_is(letters, cursor.index, '*') {
        cursor.on_two(letters, Part::BlockComment, cursor.level + 1)
    } else if letter == '*' && next_is(letters, cursor.index, '/') {
        if cursor.level <= 1 {
            cursor.on_two(letters, Part::Code, 0)
        } else {
            cursor.on_two(letters, Part::BlockComment, cursor.level - 1)
        }
    } else {
        cursor.on(Part::BlockComment)
    }
}

/// Whether nothing is run by the text.
pub fn check_plain(source: &str) -> (plain: bool)
    ensures
        plain == is_plain(source@),
{
    let letters: Vec<char> = text::characters(source);
    let mut cursor = Cursor { index: 0, part: Part::Code, level: 0, last: 0 };
    while cursor.index < letters.len()
        invariant
            letters@ == source@,
            cursor.is_in(letters@),
            is_plain(source@) == is_plain_from(source@, cursor.place()),
        decreases letters@.len() - cursor.index,
    {
        let next: Option<Cursor> = match cursor.part {
            Part::Code => advance_in_code(source, &letters, cursor),
            Part::LineComment => Some(advance_in_comment(&letters, cursor)),
            Part::BlockComment => Some(advance_in_comment(&letters, cursor)),
            _ => advance_in_text(&letters, cursor),
        };
        match next {
            Some(next) => {
                cursor = next;
            },
            None => {
                return false;
            },
        }
    }
    true
}

/// Neither the beginning of a text or a comment, nor a bracket or a brace, nor the mark of a list of names.
pub open spec fn is_simple(letter: char) -> bool {
    letter != '(' && letter != '{' && letter != '}' && letter != '#' && letter != '"' && letter != '\''
        && letter != '`' && letter != '/'
}

proof fn lemma_simple(text: Seq<char>, place: Place, end: int)
    requires
        place.part is Code,
        place.level == 0,
        0 <= place.index <= end <= text.len(),
        place.last <= place.index,
        forall|i: int| place.index <= i < end ==> is_simple(#[trigger] text[i]),
    ensures
        exists|last: int|
            last <= end && is_plain_from(text, place) == is_plain_from(
                text,
                #[trigger] code_place(end, last),
            ),
    decreases end - place.index,
{
    if place.index == end {
        assert(place == code_place(end, place.last));
    } else {
        let letter = text[place.index];
        assert(is_simple(letter));
        let next = step(text, place)->0;
        lemma_simple(text, next, end);
        let last = choose|last: int|
            last <= end && is_plain_from(text, next) == is_plain_from(
                text,
                #[trigger] code_place(end, last),
            );
        assert(is_plain_from(text, place) == is_plain_from(text, next));
        assert(is_plain_from(text, place) == is_plain_from(text, code_place(end, last)));
    }
}

/// A place at which code is evaluated.
pub open spec fn code_place(index: int, last: int) -> Place {
    Place { index, part: Part::Code, level: 0, last }
}

/// Text without calls, braces, texts and comments runs nothing, and a brace behind such text does.
pub proof fn law_braces_run_something(source: &str, plain: bool, before: Seq<char>, after: Seq<char>)
    requires
        call_ensures(check_plain, (source,), plain),
        forall|i: int| 0 <= i < before.len() ==> is_simple(#[trigger] before[i]),
    ensures
        source@ == before ==> plain,
        source@ == before + "{"@ + after ==> !plain,
        source@ == before + "}"@ + after ==> !plain,
{
    reveal_strlit("{");
    reveal_strlit("}");
    let end = before.len() as int;
    if source@ == before || source@ == before + "{"@ + after || source@ == before + "}"@ + after {
        assert forall|i: int| 0 <= i < end implies is_simple(#[trigger] source@[i]) by {
            assert(source@[i] == before[i]);
        }
        assert(beginning() == code_place(0, 0));
        lemma_simple(source@, beginning(), end);
        let last = choose|last: int|
            last <= end && is_plain_from(source@, beginning()) == is_plain_from(
                source@,
                #[trigger] code_place(end, last),
            );
        let place = code_place(end, last);
        if source@.len() > end {
            assert(source@[end] == '{' || source@[end] == '}');
            assert(step(source@, place) is None);
        }
    }
}

proof fn lemma_word(text: Seq<char>, end: int)
    requires
        0 <= end <= text.len(),
        forall|i: int| 0 <= i < end ==> is_word_letter(#[trigger] text[i]),
    ensures
        word_start(text, end) == 0,
    decreases end,
{
    if end > 0 {
        assert(is_word_letter(text[end - 1]));
        lemma_word(text, end - 1);
    }
}

proof fn lemma_word_is_passed(text: Seq<char>, end: int, from: int)
    requires
        0 <= from <= end <= text.len(),
        forall|i: int| 0 <= i < end ==> is_word_letter(#[trigger] text[i]),
    ensures
        is_plain_from(text, code_place(from, from)) == is_plain_from(text, code_place(end, end)),
    decreases end - from,
{
    if from < end {
        assert(is_word_letter(text[from]));
        assert(step(text, code_place(from, from)) == Some(code_place(from + 1, from + 1)));
        lemma_word_is_passed(text, end, from + 1);
    }
}

/// A text that begins with a call runs something unless the function is one that only looks at its arguments;
/// those that wait, run other scripts, print, fill memory or raise numbers to powers are none.
pub proof fn law_calls_run_something(source: &str, plain: bool, name: Seq<char>, rest: Seq<char>)
    requires
        call_ensures(check_plain, (source,), plain),
        source@ == name + "("@ + rest,
        name.len() > 0,
        forall|i: int| 0 <= i < name.len() ==> is_word_letter(#[trigger] name[i]),
        name != "in"@,
    ensures
        plain ==> is_inspection(name),
        name == "sleep"@ || name == "eval"@ || name == "print"@ || name == "pad"@ || name == "pow"@
            || name == "range"@ || name == "blob"@ || name == "timestamp"@ ==> !plain,
{
    reveal_strlit("(");
    let text = source@;
    let end = name.len() as int;
    assert forall|i: int| 0 <= i < end implies is_word_letter(#[trigger] text[i]) by {
        assert(text[i] == name[i]);
    }
    lemma_word_is_passed(text, end, 0);
    lemma_word(text, end);
    let place = code_place(end, end);
    assert(beginning() == code_place(0, 0));
    assert(word_before(text, end) =~= name);
    assert(text[end] == '(');
    assert(is_word_letter(text[end - 1]));
    if plain {
        assert(step(text, place) is Some);
        assert(is_inspection(name));
    }
    if is_inspection(name) {
        lemma_inspections(name);
    }
}

proof fn lemma_inspections(name: Seq<char>)
    requires
        is_inspection(name),
    ensures
        name != "sleep"@ && name != "eval"@ && name != "print"@ && name != "pad"@ && name != "pow"@ && name
            != "range"@ && name != "blob"@ && name != "timestamp"@,
{
    reveal_strlit("sleep");
    reveal_strlit("eval");
    reveal_strlit("print");
    reveal_strlit("pad");
    reveal_strlit("pow");
    reveal_strlit("range");
    reveal_strlit("blob");
    reveal_strlit("timestamp");
    assert("sleep"@.len() == 5 && "eval"@.len() == 4 && "print"@.len() == 5 && "pad"@.len() == 3);
    assert("pow"@.len() == 3 && "range"@.len() == 5 && "blob"@.len() == 4 && "timestamp"@.len() == 9);
    reveal_strlit("abs");
    reveal_strlit("min");
    reveal_strlit("max");
    reveal_strlit("sign");
    reveal_strlit("is_zero");
    reveal_strlit("is_odd");
    reveal_strlit("is_even");
    reveal_strlit("floor");
    reveal_strlit("ceiling");
    reveal_strlit("round");
    reveal_strlit("int");
    reveal_strlit("fraction");
    reveal_strlit("is_nan");
    reveal_strlit("is_finite");
    reveal_strlit("is_infinite");
    reveal_strlit("sqrt");
    reveal_strlit("exp");
    reveal_strlit("ln");
    reveal_strlit("log");
    reveal_strlit("hypot");
    reveal_strlit("to_radians");
    reveal_strlit("to_degrees");
    reveal_strlit("PI");
    reveal_strlit("E");
    reveal_strlit("sin");
    reveal_strlit("cos");
    reveal_strlit("tan");
    reveal_strlit("asin");
    reveal_strlit("acos");
    reveal_strlit("atan");
    reveal_strlit("sinh");
    reveal_strlit("cosh");
    reveal_strlit("tanh");
    reveal_strlit("asinh");
    reveal_strlit("acosh");
    reveal_strlit("atanh");
    reveal_strlit("to_int");
    reveal_strlit("to_float");
    reveal_strlit("parse_int");
    reveal_strlit("parse_float");
    reveal_strlit("to_string");
    reveal_strlit("to_debug");
    reveal_strlit("to_hex");
    reveal_strlit("to_octal");
    reveal_strlit("to_binary");
    reveal_strlit("len");
    reveal_strlit("is_empty");
    reveal_strlit("bytes");
    reveal_strlit("contains");
    reveal_strlit("starts_with");
    reveal_strlit("ends_with");
    reveal_strlit("to_upper");
    reveal_strlit("to_lower");
    reveal_strlit("to_chars");
    reveal_strlit("sub_string");
    reveal_strlit("type_of");
    reveal_strlit("is_def_var");
    if name == "sleep"@ {
        assert(name.len() == 5 && name[0] == 's' && name[1] == 'l');
    }
    if name == "eval"@ {
        assert(name.len() == 4 && name[0] == 'e' && name[1] == 'v');
    }
    if name == "print"@ {
        assert(name.len() == 5 && name[0] == 'p');
    }
    if name == "pad"@ {
        assert(name.len() == 3 && name[0] == 'p');
    }
    if name == "pow"@ {
        assert(name.len() == 3 && name[0] == 'p');
    }
    if name == "range"@ {
        assert(name.len() == 5 && name[0] == 'r' && name[1] == 'a');
    }
    if name == "blob"@ {
        assert(name.len() == 4 && name[0] == 'b');
    }
    if name == "timestamp"@ {
        assert(name.len() == 9 && name[0] == 't' && name[1] == 'i');
    }
}

} // verus!
