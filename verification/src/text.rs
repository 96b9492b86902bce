//! Text that is built and searched character by character.
use vstd::prelude::*;

verus! {

/// The decimal digit of a number below ten.
pub open spec fn digit(value: nat) -> char {
    if value == 0 {
        '0'
    } else if value == 1 {
        '1'
    } else if value == 2 {
        '2'
    } else if value == 3 {
        '3'
    } else if value == 4 {
        '4'
    } else if value == 5 {
        '5'
    } else if value == 6 {
        '6'
    } else if value == 7 {
        '7'
    } else if value == 8 {
        '8'
    } else {
        '9'
    }
}

/// The decimal digits of a number.
pub open spec fn decimal(value: nat) -> Seq<char>
    decreases value,
{
    if value < 10 {
        seq![digit(value)]
    } else {
        decimal(value / 10).push(digit(value % 10))
    }
}

/// Appends text.
pub fn push_str(text: &mut String, suffix: &str)
    ensures
        final(text)@ == old(text)@ + suffix@,
{
    text.append(suffix);
}

/// Appends the decimal digits of a number.
pub fn push_decimal(text: &mut String, value: u64)
    ensures
        final(text)@ == old(text)@ + decimal(value as nat),
    decreases value,
{
    let ghost before = text@;
    if value >= 10 {
        push_decimal(text, value / 10);
    }
    let ghost lead = text@;
    let last: &str = match value % 10 {
        0 => "0",
        1 => "1",
        2 => "2",
        3 => "3",
        4 => "4",
        5 => "5",
        6 => "6",
        7 => "7",
        8 => "8",
        _ => "9",
    };
    text.append(last);
    proof {
        reveal_strlit("0");
        reveal_strlit("1");
        reveal_strlit("2");
        reveal_strlit("3");
        reveal_strlit("4");
        reveal_strlit("5");
        reveal_strlit("6");
        reveal_strlit("7");
        reveal_strlit("8");
        reveal_strlit("9");
        assert(last@ =~= seq![digit((value % 10) as nat)]);
        assert(text@ =~= before + decimal(value as nat));
    }
}

/// Copies text.
pub fn copy_str(source: &str) -> (text: String)
    ensures
        text@ == source@,
{
    source.to_owned()
}

/// The characters of text.
pub fn characters(source: &str) -> (characters: Vec<char>)
    ensures
        characters@ == source@,
{
    let mut characters: Vec<char> = Vec::new();
    for character in iter: source.chars()
        invariant
            iter.seq() == source@,
            characters@ == source@.take(iter.index() as int),
    {
        characters.push(character);
        assert(characters@ =~= source@.take(iter.index() + 1));
    }
    assert(source@.take(source@.len() as int) =~= source@);
    characters
}


/// Whether two texts are the same.
pub fn is_same(left: &str, right: &str) -> (same: bool)
    ensures
        same == (left@ == right@),
{
    left.to_owned() == right.to_owned()
}

/// `left` comes before `right` where they first differ, or is a part of its front.
pub open spec fn comes_before(left: Seq<char>, right: Seq<char>) -> bool
    decreases left.len(),
{
    if right.len() == 0 {
        false
    } else if left.len() == 0 {
        true
    } else if left[0] != right[0] {
        left[0] < right[0]
    } else {
        comes_before(left.skip(1), right.skip(1))
    }
}

/// Whether `left` comes before `right`.
pub fn precedes(left: &str, right: &str) -> (before: bool)
    ensures
        before == comes_before(left@, right@),
{
    let left: Vec<char> = characters(left);
    let right: Vec<char> = characters(right);
    let mut i: usize = 0;
    proof {
        assert(left@.skip(0) =~= left@);
        assert(right@.skip(0) =~= right@);
    }
    while i < left.len() && i < right.len() && left[i] == right[i]
        invariant
            i <= left@.len(),
            i <= right@.len(),
            comes_before(left@, right@) == comes_before(
                left@.skip(i as int),
                right@.skip(i as int),
            ),
        decreases left@.len() - i,
    {
        proof {
            assert(left@.skip(i as int).skip(1) =~= left@.skip(i + 1));
            assert(right@.skip(i as int).skip(1) =~= right@.skip(i + 1));
        }
        i += 1;
    }
    if i < left.len() && i < right.len() {
        left[i] < right[i]
    } else {
        i < right.len()
    }
}

pub proof fn lemma_order_is_transitive(left: Seq<char>, middle: Seq<char>, right: Seq<char>)
    requires
        comes_before(left, middle),
        comes_before(middle, right),
    ensures
        comes_before(left, right),
    decreases left.len(),
{
    if left.len() > 0 && left[0] == middle[0] && middle[0] == right[0] {
        lemma_order_is_transitive(left.skip(1), middle.skip(1), right.skip(1));
    }
}

pub proof fn lemma_order_is_total(left: Seq<char>, right: Seq<char>)
    ensures
        comes_before(left, right) || comes_before(right, left) || left == right,
        !(comes_before(left, right) && comes_before(right, left)),
        !comes_before(left, left),
    decreases left.len(),
{
    if left.len() == 0 || right.len() == 0 {
        if left.len() == 0 && right.len() == 0 {
            assert(left =~= right);
        }
        if left.len() > 0 {
            lemma_order_is_total(left.skip(1), left.skip(1));
        }
    } else {
        lemma_order_is_total(left.skip(1), right.skip(1));
        if left[0] == right[0] && left.skip(1) == right.skip(1) {
            assert(left =~= right) by {
                assert forall|i: int| 0 <= i < left.len() implies left[i] == right[i] by {
                    if i > 0 {
                        assert(left.skip(1)[i - 1] == left[i]);
                        assert(right.skip(1)[i - 1] == right[i]);
                    }
                }
                assert(left.skip(1).len() == right.skip(1).len());
            }
        }
    }
}

/// The texts stand in order, none of them twice.
pub open spec fn is_ordered(texts: Seq<String>) -> bool {
    forall|i: int, j: int| 0 <= i < j < texts.len() ==> comes_before(texts[i]@, texts[j]@)
}

/// Whether the text is among `texts`.
pub open spec fn is_listed(texts: Seq<String>, text: Seq<char>) -> bool {
    exists|i: int| 0 <= i < texts.len() && (#[trigger] texts[i])@ == text
}

/// Adds a text at its place, unless it is there already.
pub fn insert_ordered(texts: &mut Vec<String>, text: &str)
    requires
        is_ordered(old(texts)@),
    ensures
        is_ordered(final(texts)@),
        forall|other: Seq<char>| #[trigger]
            is_listed(final(texts)@, other) <==> is_listed(old(texts)@, other) || other == text@,
{
    let ghost before = texts@;
    let mut place: usize = 0;
    while place < texts.len() && precedes(texts[place].as_str(), text)
        invariant
            place <= texts@.len(),
            texts@ == before,
            forall|i: int| 0 <= i < place ==> comes_before((#[trigger] before[i])@, text@),
        decreases texts@.len() - place,
    {
        place += 1;
    }
    if place < texts.len() && is_same(texts[place].as_str(), text) {
        assert(before[place as int]@ == text@);
        assert(is_listed(before, text@));
        return ;
    }
    texts.insert(place, copy_str(text));
    proof {
        let after = texts@;
        assert(after[place as int]@ == text@);
        let source = |i: int| if i < place { i } else { i - 1 };
        if place < before.len() {
            lemma_order_is_total(before[place as int]@, text@);
            assert forall|i: int| place <= i < before.len() implies comes_before(
                text@,
                (#[trigger] before[i])@,
            ) by {
                if i > place {
                    lemma_order_is_transitive(text@, before[place as int]@, before[i]@);
                }
            }
        }
        assert forall|i: int, j: int| 0 <= i < j < after.len() implies comes_before(
            after[i]@,
            after[j]@,
        ) by {
            if i == place {
                assert(after[j] == before[j - 1]);
            } else if j == place {
                assert(after[i] == before[i]);
            } else {
                assert(after[i] == before[source(i)] && after[j] == before[source(j)]);
            }
        }
        assert forall|other: Seq<char>| #[trigger]
            is_listed(after, other) <==> is_listed(before, other) || other == text@ by {
            if is_listed(after, other) && other != text@ {
                let i = choose|i: int| 0 <= i < after.len() && (#[trigger] after[i])@ == other;
                assert(after[i] == before[source(i)]);
            }
            if is_listed(before, other) {
                let i = choose|i: int| 0 <= i < before.len() && (#[trigger] before[i])@ == other;
                assert(after[if i < place {
                    i
                } else {
                    i + 1
                }] == before[i]);
            }
            if other == text@ {
                assert(after[place as int]@ == other);
            }
        }
    }
}

/// Two colons stand at `index`.
pub open spec fn is_path_separator(text: Seq<char>, index: int) -> bool {
    0 <= index && index + 1 < text.len() && text[index] == ':' && text[index + 1] == ':'
}

/// The last place before `end` at which two colons begin.
pub open spec fn last_path_separator(text: Seq<char>, end: int) -> Option<int>
    decreases end,
{
    if end <= 0 {
        None
    } else if is_path_separator(text, end - 1) {
        Some(end - 1)
    } else {
        last_path_separator(text, end - 1)
    }
}

/// What stands before and behind the last two colons.
pub open spec fn path_halves(text: Seq<char>) -> Option<(Seq<char>, Seq<char>)> {
    match last_path_separator(text, text.len() as int) {
        Some(index) => Some((text.take(index), text.skip(index + 2))),
        None => None,
    }
}

/// Splits a path at its last two colons.
pub fn split_path(text: &str) -> (halves: Option<(String, String)>)
    ensures
        halves.deep_view() == path_halves(text@),
{
    let letters: Vec<char> = characters(text);
    let mut end: usize = letters.len();
    while end > 0
        invariant
            end <= letters@.len(),
            letters@ == text@,
            path_halves(text@) == match last_path_separator(text@, end as int) {
                Some(index) => Some((text@.take(index), text@.skip(index + 2))),
                None => None,
            },
        decreases end,
    {
        if end < letters.len() && letters[end - 1] == ':' && letters[end] == ':' {
            let front: String = copy_str(text.substring_char(0, end - 1));
            let back: String = copy_str(text.substring_char(end + 1, letters.len()));
            proof {
                assert(front@ =~= text@.take(end - 1));
                assert(back@ =~= text@.skip(end + 1));
            }
            return Some((front, back));
        }
        end -= 1;
    }
    None
}

/// Two colons between spaces stand at the front.
pub open spec fn starts_with_spaced_colons(text: Seq<char>) -> bool {
    text.len() >= 4 && text[0] == ' ' && text[1] == ':' && text[2] == ':' && text[3] == ' '
}

/// The text from `from` on with every two colons between spaces drawn together with what is around
/// them.
pub open spec fn with_tight_paths(text: Seq<char>, from: int) -> Seq<char>
    decreases text.len() - from,
{
    if from < 0 || from >= text.len() {
        Seq::empty()
    } else if starts_with_spaced_colons(text.skip(from)) {
        "::"@ + with_tight_paths(text, from + 4)
    } else {
        seq![text[from]] + with_tight_paths(text, from + 1)
    }
}

/// Draws every two colons between spaces together with what is around them.
pub fn tighten_paths(text: &str) -> (tight: String)
    ensures
        tight@ == with_tight_paths(text@, 0),
{
    let letters: Vec<char> = characters(text);
    let mut tight: String = String::new();
    let mut i: usize = 0;
    assert(tight@ + with_tight_paths(text@, 0) =~= with_tight_paths(text@, 0));
    while i < letters.len()
        invariant
            i <= letters@.len(),
            letters@ == text@,
            tight@ + with_tight_paths(text@, i as int) == with_tight_paths(text@, 0),
        decreases letters@.len() - i,
    {
        let ghost before = tight@;
        if letters.len() - i >= 4 && letters[i] == ' ' && letters[i + 1] == ':' && letters[i + 2]
            == ':' && letters[i + 3] == ' ' {
            assert(starts_with_spaced_colons(text@.skip(i as int)));
            push_str(&mut tight, "::");
            assert(tight@ + with_tight_paths(text@, i + 4) =~= before + ("::"@ + with_tight_paths(
                text@,
                i + 4,
            )));
            i += 4;
        } else {
            assert(!starts_with_spaced_colons(text@.skip(i as int)));
            let letter: &str = text.substring_char(i, i + 1);
            assert(letter@ =~= seq![text@[i as int]]);
            push_str(&mut tight, letter);
            assert(tight@ + with_tight_paths(text@, i + 1) =~= before + (seq![text@[i as int]]
                + with_tight_paths(text@, i + 1)));
            i += 1;
        }
    }
    assert(tight@ + with_tight_paths(text@, i as int) =~= tight@);
    tight
}

/// The mark of a raw identifier stands at the front.
pub open spec fn is_raw(name: Seq<char>) -> bool {
    name.len() >= 2 && name[0] == 'r' && name[1] == '#'
}

/// Whether an identifier is raw.
pub fn is_raw_identifier(name: &str) -> (raw: bool)
    ensures
        raw == is_raw(name@),
{
    let letters: Vec<char> = characters(name);
    letters.len() >= 2 && letters[0] == 'r' && letters[1] == '#'
}

/// An identifier without the mark of a raw one.
pub open spec fn fragment(name: Seq<char>) -> Seq<char> {
    if is_raw(name) {
        name.skip(2)
    } else {
        name
    }
}

/// Appends an identifier without the mark of a raw one.
pub fn push_fragment(text: &mut String, name: &str)
    ensures
        final(text)@ == old(text)@ + fragment(name@),
{
    if is_raw_identifier(name) {
        let end: usize = characters(name).len();
        let rest: &str = name.substring_char(2, end);
        assert(rest@ =~= name@.skip(2));
        push_str(text, rest);
    } else {
        push_str(text, name);
    }
}

/// The path of `name` below `directory`.
pub open spec fn joined(directory: Seq<char>, name: Seq<char>) -> Seq<char> {
    if directory.len() == 0 || directory.last() == '/' {
        directory + name
    } else {
        directory + "/"@ + name
    }
}

/// The path of `name` below `directory`.
pub fn join_path(directory: &str, name: &str) -> (path: String)
    ensures
        path@ == joined(directory@, name@),
{
    let letters: Vec<char> = characters(directory);
    let mut path: String = copy_str(directory);
    if letters.len() > 0 && letters[letters.len() - 1] != '/' {
        push_str(&mut path, "/");
    }
    push_str(&mut path, name);
    path
}

/// `part` stands in `text` at `index`.
pub open spec fn stands_at(text: Seq<char>, part: Seq<char>, index: int) -> bool {
    0 <= index && index + part.len() <= text.len() && text.subrange(index, index + part.len())
        == part
}

/// `part` stands somewhere in `text`.
pub open spec fn is_part(text: Seq<char>, part: Seq<char>) -> bool {
    exists|index: int| stands_at(text, part, index)
}

/// Whether `part` stands somewhere in `text`.
pub fn contains(text: &str, part: &str) -> (found: bool)
    ensures
        found == is_part(text@, part@),
{
    let letters: Vec<char> = characters(text);
    let wanted: Vec<char> = characters(part);
    if wanted.len() > letters.len() {
        return false;
    }
    let last: usize = letters.len() - wanted.len();
    let mut i: usize = 0;
    while i <= last
        invariant
            last == letters@.len() - wanted@.len(),
            letters@.len() <= usize::MAX,
            i <= last + 1,
            letters@ == text@,
            wanted@ == part@,
            forall|index: int| 0 <= index < i ==> !stands_at(text@, part@, index),
        decreases last + 1 - i,
    {
        let mut j: usize = 0;
        while j < wanted.len() && letters[i + j] == wanted[j]
            invariant
                i <= last,
                last == letters@.len() - wanted@.len(),
                letters@.len() <= usize::MAX,
                j <= wanted@.len(),
                forall|k: int| 0 <= k < j ==> letters@[i + k] == wanted@[k],
            decreases wanted@.len() - j,
        {
            j += 1;
        }
        if j == wanted.len() {
            assert(text@.subrange(i as int, i + part@.len()) =~= part@);
            assert(stands_at(text@, part@, i as int));
            return true;
        }
        assert(!stands_at(text@, part@, i as int)) by {
            if stands_at(text@, part@, i as int) {
                assert(text@.subrange(i as int, i + part@.len())[j as int] == part@[j as int]);
            }
        }
        if i == last {
            return false;
        }
        i += 1;
    }
    false
}

/// The place behind the last of the marks before `end`, or the front.
pub open spec fn behind_last(text: Seq<char>, mark: char, end: int) -> int
    decreases end,
{
    if end <= 0 {
        0
    } else if text[end - 1] == mark {
        end
    } else {
        behind_last(text, mark, end - 1)
    }
}

fn find_behind_last(letters: &[char], mark: char) -> (place: usize)
    ensures
        place == behind_last(letters@, mark, letters@.len() as int),
        place <= letters@.len(),
{
    let mut end: usize = letters.len();
    while end > 0 && letters[end - 1] != mark
        invariant
            end <= letters@.len(),
            behind_last(letters@, mark, letters@.len() as int) == behind_last(
                letters@,
                mark,
                end as int,
            ),
        decreases end,
    {
        end -= 1;
    }
    end
}

/// The last part of a path.
pub open spec fn file_name(path: Seq<char>) -> Seq<char> {
    path.skip(behind_last(path, '/', path.len() as int))
}

/// The last part of the path is the name of a file.
pub open spec fn names_file(path: Seq<char>) -> bool {
    file_name(path) != ""@ && file_name(path) != "."@ && file_name(path) != ".."@
}

/// A path without the extension of its file: without the last dot of the name and what is behind it,
/// unless the name begins with that dot.
pub open spec fn without_extension(path: Seq<char>) -> Seq<char> {
    let dot = behind_last(path, '.', path.len() as int);
    if dot - 1 > behind_last(path, '/', path.len() as int) {
        path.take(dot - 1)
    } else {
        path
    }
}

/// A path without the extension of its file.
pub fn strip_extension(path: &str) -> (stripped: String)
    requires
        names_file(path@),
    ensures
        stripped@ == without_extension(path@),
{
    let letters: Vec<char> = characters(path);
    let name: usize = find_behind_last(&letters, '/');
    let dot: usize = find_behind_last(&letters, '.');
    if dot > 0 && dot - 1 > name {
        let front: &str = path.substring_char(0, dot - 1);
        assert(front@ =~= path@.take(dot - 1));
        copy_str(front)
    } else {
        copy_str(path)
    }
}

/// The hexadecimal digit of a number below sixteen, in upper case.
pub open spec fn hex_digit(value: int) -> Seq<char> {
    if value == 0 {
        "0"@
    } else if value == 1 {
        "1"@
    } else if value == 2 {
        "2"@
    } else if value == 3 {
        "3"@
    } else if value == 4 {
        "4"@
    } else if value == 5 {
        "5"@
    } else if value == 6 {
        "6"@
    } else if value == 7 {
        "7"@
    } else if value == 8 {
        "8"@
    } else if value == 9 {
        "9"@
    } else if value == 10 {
        "A"@
    } else if value == 11 {
        "B"@
    } else if value == 12 {
        "C"@
    } else if value == 13 {
        "D"@
    } else if value == 14 {
        "E"@
    } else {
        "F"@
    }
}

/// `out` with the first `count` bytes behind it, two hexadecimal digits each.
pub open spec fn with_hex(out: Seq<char>, bytes: Seq<u8>, count: int) -> Seq<char>
    decreases count,
{
    if count <= 0 {
        out
    } else {
        with_hex(out, bytes, count - 1) + hex_digit(bytes[count - 1] as int / 16) + hex_digit(
            bytes[count - 1] as int % 16,
        )
    }
}

fn push_hex_digit(out: &mut String, value: u8)
    requires
        value < 16,
    ensures
        final(out)@ == old(out)@ + hex_digit(value as int),
{
    let digit: &str = match value {
        0 => "0",
        1 => "1",
        2 => "2",
        3 => "3",
        4 => "4",
        5 => "5",
        6 => "6",
        7 => "7",
        8 => "8",
        9 => "9",
        10 => "A",
        11 => "B",
        12 => "C",
        13 => "D",
        14 => "E",
        _ => "F",
    };
    push_str(out, digit);
}

/// Appends bytes as hexadecimal digits.
pub fn push_hex(out: &mut String, bytes: &[u8])
    ensures
        final(out)@ == with_hex(old(out)@, bytes@, bytes@.len() as int),
{
    let ghost before = out@;
    let mut i: usize = 0;
    while i < bytes.len()
        invariant
            i <= bytes@.len(),
            out@ == with_hex(before, bytes@, i as int),
        decreases bytes@.len() - i,
    {
        push_hex_digit(out, bytes[i] / 16);
        push_hex_digit(out, bytes[i] % 16);
        i += 1;
    }
}

/// The number that decimal digits stand for.
pub open spec fn decimal_value(digits: Seq<char>) -> int
    decreases digits.len(),
{
    if digits.len() == 0 {
        0
    } else {
        10 * decimal_value(digits.drop_last()) + (digits.last() as int - '0' as int)
    }
}

proof fn lemma_decimal(value: nat)
    ensures
        decimal(value).len() > 0,
        decimal_value(decimal(value)) == value,
        forall|i: int| 0 <= i < decimal(value).len() ==> '0' <= #[trigger] decimal(value)[i] <= '9',
        value > 0 ==> decimal(value)[0] != '0',
        value < 10 ==> decimal(value).len() == 1,
    decreases value,
{
    if value < 10 {
        assert(decimal(value).drop_last() =~= Seq::<char>::empty());
        assert(decimal_value(Seq::<char>::empty()) == 0);
    } else {
        lemma_decimal(value / 10);
        let digits = decimal(value / 10);
        assert(decimal(value).drop_last() =~= digits);
        assert(decimal(value)[0] == digits[0]);
        assert forall|i: int| 0 <= i < decimal(value).len() implies '0' <= #[trigger] decimal(
            value,
        )[i] <= '9' by {
            if i < digits.len() {
                assert(decimal(value)[i] == digits[i]);
            }
        }
    }
}

/// The digits that are appended stand for the number, and no zero stands before them.
pub proof fn law_digits_stand_for_the_number(text: &mut String, value: u64)
    requires
        call_ensures(push_decimal, (text, value), ()),
    ensures
        ({
            let digits = final(text)@.skip(old(text)@.len() as int);
            &&& final(text)@.len() > old(text)@.len()
            &&& final(text)@.take(old(text)@.len() as int) == old(text)@
            &&& decimal_value(digits) == value
            &&& forall|i: int| 0 <= i < digits.len() ==> '0' <= #[trigger] digits[i] <= '9'
            &&& digits.len() > 1 ==> digits[0] != '0'
        }),
{
    lemma_decimal(value as nat);
    assert(final(text)@.take(old(text)@.len() as int) =~= old(text)@);
    assert(final(text)@.skip(old(text)@.len() as int) =~= decimal(value as nat));
}

/// The number that a hexadecimal digit stands for.
pub open spec fn hex_value(letter: char) -> int {
    if '0' <= letter <= '9' {
        letter as int - '0' as int
    } else {
        letter as int - 'A' as int + 10
    }
}

proof fn lemma_hex_digit(value: int)
    requires
        0 <= value < 16,
    ensures
        hex_digit(value).len() == 1,
        hex_value(hex_digit(value)[0]) == value,
        '0' <= hex_digit(value)[0] <= '9' || 'A' <= hex_digit(value)[0] <= 'F',
{
    reveal_strlit("0");
    reveal_strlit("1");
    reveal_strlit("2");
    reveal_strlit("3");
    reveal_strlit("4");
    reveal_strlit("5");
    reveal_strlit("6");
    reveal_strlit("7");
    reveal_strlit("8");
    reveal_strlit("9");
    reveal_strlit("A");
    reveal_strlit("B");
    reveal_strlit("C");
    reveal_strlit("D");
    reveal_strlit("E");
    reveal_strlit("F");
}

proof fn lemma_hex(out: Seq<char>, bytes: Seq<u8>, count: int, at: int)
    requires
        0 <= count <= bytes.len(),
    ensures
        with_hex(out, bytes, count).len() == out.len() + 2 * count,
        with_hex(out, bytes, count).take(out.len() as int) == out,
        0 <= at < count ==> ({
            let high = with_hex(out, bytes, count)[out.len() + 2 * at];
            let low = with_hex(out, bytes, count)[out.len() + 2 * at + 1];
            &&& hex_value(high) * 16 + hex_value(low) == bytes[at]
            &&& '0' <= high <= '9' || 'A' <= high <= 'F'
            &&& '0' <= low <= '9' || 'A' <= low <= 'F'
        }),
    decreases count,
{
    if count > 0 {
        lemma_hex(out, bytes, count - 1, at);
        lemma_hex_digit(bytes[count - 1] as int / 16);
        lemma_hex_digit(bytes[count - 1] as int % 16);
        let before = with_hex(out, bytes, count - 1);
        assert(with_hex(out, bytes, count).take(out.len() as int) =~= before.take(out.len() as int));
    } else {
        assert(out.take(out.len() as int) =~= out);
    }
}

/// Every byte is written as two digits, sixteens first.
pub proof fn law_bytes_are_two_digits(out: &mut String, bytes: &[u8], at: int)
    requires
        call_ensures(push_hex, (out, bytes), ()),
    ensures
        final(out)@.len() == old(out)@.len() + 2 * bytes@.len(),
        final(out)@.take(old(out)@.len() as int) == old(out)@,
        0 <= at < bytes@.len() ==> hex_value(final(out)@[old(out)@.len() + 2 * at]) * 16 + hex_value(
            final(out)@[old(out)@.len() + 2 * at + 1],
        ) == bytes@[at],
{
    lemma_hex(old(out)@, bytes@, bytes@.len() as int, at);
}

/// Texts are the same where they are as long and no character differs.
pub proof fn law_same_texts_have_the_same_characters(left: &str, right: &str, same: bool)
    requires
        call_ensures(is_same, (left, right), same),
    ensures
        same <==> left@.len() == right@.len() && forall|i: int|
            0 <= i < left@.len() ==> left@[i] == right@[i],
{
    if left@.len() == right@.len() && (forall|i: int|
        0 <= i < left@.len() ==> left@[i] == right@[i]) {
        assert(left@ =~= right@);
    }
}

/// What is joined begins with the directory and ends with the name, and a slash stands before the name unless
/// there is no directory.
pub proof fn law_joined_paths_have_one_slash(directory: &str, name: &str, path: String)
    requires
        call_ensures(join_path, (directory, name), path),
    ensures
        path@.len() >= directory@.len() + name@.len(),
        path@.take(directory@.len() as int) == directory@,
        path@.skip(path@.len() - name@.len()) == name@,
        directory@.len() > 0 ==> path@[path@.len() - name@.len() - 1] == '/',
        directory@.len() == 0 ==> path@ == name@,
        directory@.len() > 0 && directory@.last() == '/' ==> path@ == directory@ + name@,
        path@.len() <= directory@.len() + 1 + name@.len(),
{
    reveal_strlit("/");
    assert(path@.take(directory@.len() as int) =~= directory@);
    assert(path@.skip(path@.len() - name@.len()) =~= name@);
    if directory@.len() == 0 {
        assert(path@ =~= name@);
    }
}

proof fn lemma_last_path_separator(text: Seq<char>, end: int)
    ensures
        match last_path_separator(text, end) {
            Some(index) => 0 <= index < end && is_path_separator(text, index) && forall|i: int|
                index < i < end ==> !#[trigger] is_path_separator(text, i),
            None => forall|i: int| i < end ==> !#[trigger] is_path_separator(text, i),
        },
    decreases end,
{
    if end > 0 && !is_path_separator(text, end - 1) {
        lemma_last_path_separator(text, end - 1);
    }
}

/// A path is split where two colons stand, and not before they stand for the last time.
pub proof fn law_paths_are_split_at_the_last_colons(
    text: &str,
    halves: Option<(String, String)>,
    at: int,
)
    requires
        call_ensures(split_path, (text,), halves),
    ensures
        halves is None ==> !is_path_separator(text@, at),
        halves matches Some((front, back)) ==> {
            &&& front@ + "::"@ + back@ == text@
            &&& at > front@.len() ==> !is_path_separator(text@, at)
        },
{
    reveal_strlit("::");
    lemma_last_path_separator(text@, text@.len() as int);
    if let Some((front, back)) = halves {
        let index = last_path_separator(text@, text@.len() as int)->0;
        assert(halves.deep_view() == Some((front@, back@)));
        assert(front@ == text@.take(index));
        assert(back@ == text@.skip(index + 2));
        assert(front@ + "::"@ + back@ =~= text@);
    }
}

proof fn lemma_behind_last(text: Seq<char>, mark: char, end: int)
    requires
        0 <= end <= text.len(),
    ensures
        0 <= behind_last(text, mark, end) <= end,
        behind_last(text, mark, end) > 0 ==> text[behind_last(text, mark, end) - 1] == mark,
        forall|i: int| behind_last(text, mark, end) <= i < end ==> #[trigger] text[i] != mark,
    decreases end,
{
    if end > 0 && text[end - 1] != mark {
        lemma_behind_last(text, mark, end - 1);
    }
}

/// What is stripped is the last dot of the name and what stands behind it. A name that has no dot, or only the
/// one that it begins with, stays.
pub proof fn law_extensions_are_stripped(path: &str, stripped: String, at: int)
    requires
        call_ensures(strip_extension, (path,), stripped),
    ensures
        stripped@.len() <= path@.len(),
        stripped@ == path@.take(stripped@.len() as int),
        stripped@.len() < path@.len() ==> {
            &&& path@[stripped@.len() as int] == '.'
            &&& stripped@.len() < at < path@.len() ==> path@[at] != '.' && path@[at] != '/'
            &&& stripped@.len() > 0 && stripped@.last() != '/'
        },
        stripped@.len() == path@.len() && 0 < at < path@.len() && path@[at] == '.' && path@[at - 1] != '/'
            ==> exists|slash: int| at < slash < path@.len() && #[trigger] path@[slash] == '/'
            || exists|dot: int| at < dot < path@.len() && #[trigger] path@[dot] == '.',
{
    let dot = behind_last(path@, '.', path@.len() as int);
    let slash = behind_last(path@, '/', path@.len() as int);
    lemma_behind_last(path@, '.', path@.len() as int);
    lemma_behind_last(path@, '/', path@.len() as int);
    assert(path@.take(path@.len() as int) =~= path@);
    if stripped@.len() == path@.len() && 0 < at < path@.len() && path@[at] == '.' && path@[at - 1]
        != '/' {
        if dot == at + 1 {
            assert(slash > at);
            assert(path@[slash - 1] == '/');
        } else {
            assert(path@[dot - 1] == '.');
        }
    }
}

/// A raw identifier without its mark has the mark before it; another one stays.
pub proof fn law_marks_of_raw_identifiers_are_left_out(text: &mut String, name: &str, raw: bool)
    requires
        call_ensures(push_fragment, (text, name), ()),
        call_ensures(is_raw_identifier, (name,), raw),
    ensures
        ({
            let appended = final(text)@.skip(old(text)@.len() as int);
            &&& final(text)@.take(old(text)@.len() as int) == old(text)@
            &&& raw ==> "r#"@ + appended == name@
            &&& !raw ==> appended == name@
            &&& raw <==> exists|rest: Seq<char>| #[trigger] ("r#"@ + rest) == name@
        }),
{
    reveal_strlit("r#");
    let appended = final(text)@.skip(old(text)@.len() as int);
    assert(final(text)@.take(old(text)@.len() as int) =~= old(text)@);
    assert(appended =~= fragment(name@));
    if raw {
        assert("r#"@ + appended =~= name@);
    }
    assert forall|rest: Seq<char>| #[trigger] ("r#"@ + rest) == name@ implies raw by {
        assert(name@[0] == 'r' && name@[1] == '#');
    }
}

/// A part is found exactly where the text is something, the part, and something.
pub proof fn law_parts_are_found(
    text: &str,
    part: &str,
    found: bool,
    before: Seq<char>,
    after: Seq<char>,
)
    requires
        call_ensures(contains, (text, part), found),
    ensures
        text@ == before + part@ + after ==> found,
        found ==> exists|front: Seq<char>, back: Seq<char>| text@ == #[trigger] (front + part@ + back),
{
    if text@ == before + part@ + after {
        let index = before.len() as int;
        assert(text@.subrange(index, index + part@.len()) =~= part@);
        assert(stands_at(text@, part@, index));
    }
    if found {
        let index = choose|index: int| stands_at(text@, part@, index);
        let front = text@.take(index);
        let back = text@.skip(index + part@.len());
        assert(text@ =~= front + part@ + back);
    }
}

proof fn lemma_tight_shift(text: Seq<char>, rest: Seq<char>, from: int, at: int)
    requires
        0 <= from <= text.len(),
        0 <= at,
        text.skip(from) == rest,
    ensures
        with_tight_paths(text, from + at) == with_tight_paths(rest, at),
    decreases rest.len() - at,
{
    if at < rest.len() {
        assert(text.skip(from + at) =~= rest.skip(at));
        assert(text[from + at] == rest[at]);
        if at + 4 <= rest.len() {
            lemma_tight_shift(text, rest, from, at + 4);
        }
        lemma_tight_shift(text, rest, from, at + 1);
    }
}

/// Two colons between spaces lose the spaces; every other character stays where it is.
pub proof fn law_spaced_colons_are_drawn_together(
    text: &str,
    rest: &str,
    tight: String,
    tight_rest: String,
    first: char,
)
    requires
        call_ensures(tighten_paths, (text,), tight),
        call_ensures(tighten_paths, (rest,), tight_rest),
    ensures
        text@ == " :: "@ + rest@ ==> tight@ == "::"@ + tight_rest@,
        text@ == seq![first] + rest@ && !(text@.len() >= 4 && text@.take(4) == " :: "@) ==> tight@
            == seq![first] + tight_rest@,
        text@.len() == 0 ==> tight@.len() == 0,
{
    reveal_strlit(" :: ");
    reveal_strlit("::");
    assert(text@.skip(0) =~= text@);
    if text@ == " :: "@ + rest@ {
        assert(text@.skip(4) =~= rest@);
        lemma_tight_shift(text@, rest@, 4, 0);
    }
    if text@ == seq![first] + rest@ && !(text@.len() >= 4 && text@.take(4) == " :: "@) {
        if starts_with_spaced_colons(text@) {
            assert(text@.take(4) =~= " :: "@);
        }
        assert(text@.skip(1) =~= rest@);
        lemma_tight_shift(text@, rest@, 1, 0);
    }
}

proof fn lemma_comes_before(left: Seq<char>, right: Seq<char>, common: Seq<char>)
    ensures
        comes_before(common + left, common + right) == comes_before(left, right),
    decreases common.len(),
{
    if common.len() == 0 {
        assert(common + left =~= left);
        assert(common + right =~= right);
    } else {
        lemma_comes_before(left, right, common.skip(1));
        assert((common + left).skip(1) =~= common.skip(1) + left);
        assert((common + right).skip(1) =~= common.skip(1) + right);
    }
}

/// Texts are ordered by the first character in which they differ, and a text comes before what continues it.
pub proof fn law_texts_are_ordered_by_their_first_difference(
    left: &str,
    right: &str,
    before: bool,
    common: Seq<char>,
    left_rest: Seq<char>,
    right_rest: Seq<char>,
)
    requires
        call_ensures(precedes, (left, right), before),
        left@ == common + left_rest,
        right@ == common + right_rest,
    ensures
        left_rest.len() > 0 && right_rest.len() > 0 && left_rest[0] != right_rest[0] ==> (before
            <==> left_rest[0] < right_rest[0]),
        left_rest.len() == 0 ==> (before <==> right_rest.len() > 0),
        right_rest.len() == 0 ==> !before,
{
    lemma_comes_before(left_rest, right_rest, common);
}

/// What is appended stands behind what was there.
pub proof fn law_appended_text_stands_behind(text: &mut String, suffix: &str, copied: String)
    requires
        call_ensures(push_str, (text, suffix), ()),
        call_ensures(copy_str, (suffix,), copied),
    ensures
        final(text)@.take(old(text)@.len() as int) == old(text)@,
        final(text)@.skip(old(text)@.len() as int) == copied@,
        copied@ == suffix@,
{
    assert(final(text)@.take(old(text)@.len() as int) =~= old(text)@);
    assert(final(text)@.skip(old(text)@.len() as int) =~= suffix@);
}

pub proof fn lemma_part_of_sum(before: Seq<char>, part: Seq<char>, after: Seq<char>)
    ensures
        is_part(before + part + after, part),
{
    let index = before.len() as int;
    assert((before + part + after).subrange(index, index + part.len()) =~= part);
    assert(stands_at(before + part + after, part, index));
}

pub proof fn lemma_part_of_part(text: Seq<char>, part: Seq<char>, before: Seq<char>, after: Seq<char>)
    requires
        is_part(text, part),
    ensures
        is_part(before + text + after, part),
{
    let index = choose|index: int| stands_at(text, part, index);
    let whole = before + text + after;
    let place = before.len() + index;
    assert(whole.subrange(place, place + part.len()) =~= text.subrange(index, index + part.len()));
    assert(stands_at(whole, part, place));
}

pub proof fn lemma_sum(first: Seq<char>, second: Seq<char>, third: Seq<char>)
    ensures
        first + (second + third) == (first + second) + third,
{
    assert(first + (second + third) =~= (first + second) + third);
}

/// Different numbers have different digits.
pub proof fn law_digits_tell_numbers_apart(left: nat, right: nat)
    ensures
        decimal(left) == decimal(right) <==> left == right,
{
    lemma_decimal(left);
    lemma_decimal(right);
}

/// The text begins with `front`.
pub open spec fn begins_with(text: Seq<char>, front: Seq<char>) -> bool {
    front.len() <= text.len() && forall|i: int| 0 <= i < front.len() ==> #[trigger] text[i] == front[i]
}

pub proof fn lemma_part_is_kept(whole: Seq<char>, front: Seq<char>, part: Seq<char>)
    requires
        begins_with(whole, front),
        is_part(front, part),
    ensures
        is_part(whole, part),
{
    let nothing = Seq::<char>::empty();
    let rest = whole.skip(front.len() as int);
    assert(whole =~= nothing + front + rest);
    lemma_part_of_part(front, part, nothing, rest);
}

pub proof fn lemma_begins_with_part(before: Seq<char>, part: Seq<char>, whole: Seq<char>)
    requires
        begins_with(whole, before + part),
    ensures
        is_part(whole, part),
        begins_with(whole, before),
{
    let nothing = Seq::<char>::empty();
    lemma_part_of_sum(before, part, nothing);
    assert(before + part + nothing =~= before + part);
    lemma_part_is_kept(whole, before + part, part);
    assert forall|i: int| 0 <= i < before.len() implies #[trigger] whole[i] == before[i] by {
        assert((before + part)[i] == before[i]);
    }
}

} // verus!
