//! Numbers in text: reading and writing decimals, and building messages.

use vstd::prelude::*;
use vstd::string::*;

verus! {

pub open spec fn is_digit(byte: u8) -> bool {
    48 <= byte <= 57
}

/// A byte string of decimal digits alone.
pub open spec fn is_digits(text: Seq<u8>) -> bool {
    forall|i: int| 0 <= i < text.len() ==> is_digit(#[trigger] text[i])
}

/// The number that decimal digits spell.
pub open spec fn dec_value(digits: Seq<u8>) -> nat
    decreases digits.len(),
{
    if digits.len() == 0 {
        0
    } else {
        (10 * dec_value(digits.drop_last()) + (digits.last() - 48)) as nat
    }
}

/// The first position at or behind `from` that holds the byte, or the length where none does.
pub open spec fn find_from(text: Seq<u8>, from: int, byte: u8) -> int
    decreases text.len() - from,
{
    if 0 <= from < text.len() && text[from] != byte {
        find_from(text, from + 1, byte)
    } else {
        from
    }
}

pub proof fn lemma_find_from(text: Seq<u8>, from: int, at: int, byte: u8)
    requires
        0 <= from <= at <= text.len(),
        forall|j: int| from <= j < at ==> text[j] != byte,
        at == text.len() || text[at] == byte,
    ensures
        find_from(text, from, byte) == at,
    decreases at - from,
{
    if from < at {
        lemma_find_from(text, from + 1, at, byte);
    }
}

/// Looks for a byte.
pub fn find_byte(text: &[u8], from: usize, byte: u8) -> (at: usize)
    requires
        from <= text@.len(),
    ensures
        at == find_from(text@, from as int, byte),
        from <= at <= text@.len(),
        forall|j: int| from <= j < at ==> text@[j] != byte,
        at < text@.len() ==> text@[at as int] == byte,
{
    let mut at: usize = from;
    while at < text.len() && text[at] != byte
        invariant
            from <= at <= text@.len(),
            forall|j: int| from <= j < at ==> text@[j] != byte,
        decreases text@.len() - at,
    {
        at += 1;
    }
    proof {
        lemma_find_from(text@, from as int, at as int, byte);
    }
    at
}

/// More digits never spell a smaller number.
proof fn lemma_dec_grows(digits: Seq<u8>, upto: int)
    requires
        is_digits(digits),
        0 <= upto <= digits.len(),
    ensures
        dec_value(digits.subrange(0, upto)) <= dec_value(digits),
    decreases digits.len() - upto,
{
    if upto < digits.len() {
        lemma_dec_grows(digits, upto + 1);
        let longer = digits.subrange(0, upto + 1);
        assert(longer.drop_last() =~= digits.subrange(0, upto));
        assert(is_digit(digits[upto]));
        assert(longer.last() == digits[upto]);
    } else {
        assert(digits.subrange(0, upto) =~= digits);
    }
}

/// Reads decimal digits as a number no greater than a limit; `None` where there is no digit,
/// another byte, or a greater number.
pub fn read_decimal(digits: &[u8], limit: u64) -> (number: Option<u64>)
    ensures
        match number {
            Some(value) => digits@.len() > 0 && is_digits(digits@) && value == dec_value(digits@)
                && value <= limit,
            None => digits@.len() == 0 || !is_digits(digits@) || dec_value(digits@) > limit,
        },
{
    if digits.len() == 0 {
        return None;
    }
    let mut value: u64 = 0;
    let mut i: usize = 0;
    assert(digits@.subrange(0, 0) =~= Seq::<u8>::empty());
    let mut exceeded = false;
    while i < digits.len()
        invariant
            i <= digits@.len(),
            forall|j: int| 0 <= j < i ==> is_digit(#[trigger] digits@[j]),
            !exceeded ==> value <= limit && value == dec_value(digits@.subrange(0, i as int)),
            exceeded ==> dec_value(digits@.subrange(0, i as int)) > limit,
        decreases digits@.len() - i,
    {
        let digit: u8 = digits[i];
        if digit < 48 || digit > 57 {
            assert(!is_digit(digits@[i as int]));
            return None;
        }
        proof {
            let longer = digits@.subrange(0, i + 1);
            assert(longer.drop_last() =~= digits@.subrange(0, i as int));
            assert(longer.last() == digits@[i as int]);
        }
        if !exceeded {
            let unit: u64 = (digit - 48) as u64;
            if unit > limit || value > (limit - unit) / 10 {
                exceeded = true;
            } else {
                value = value * 10 + unit;
            }
        }
        i += 1;
    }
    assert(digits@.subrange(0, i as int) =~= digits@);
    if exceeded {
        None
    } else {
        Some(value)
    }
}

/// The character of a decimal digit.
pub open spec fn digit_char(digit: nat) -> char {
    (48 + digit) as u8 as char
}

/// A number in decimal digits.
pub open spec fn decimal_text(number: nat) -> Seq<char>
    decreases number,
{
    if number < 10 {
        seq![digit_char(number)]
    } else {
        decimal_text(number / 10).push(digit_char(number % 10))
    }
}

fn digit_str(digit: u64) -> (text: &'static str)
    requires
        digit < 10,
    ensures
        text@ == seq![digit_char(digit as nat)],
{
    proof {
        reveal_strlit("0");
        reveal_strlit("1");
        reveal_strlit("2");
        reveal_strlit("3");
        reveal_strlit("4");
        reveal_strlit("5");
        reveal_strlit("6");
        reveal_strlit("7");
        reveal_strlit("8");
        reveal_strlit("9");
    }
    let text: &'static str = if digit == 0 {
        "0"
    } else if digit == 1 {
        "1"
    } else if digit == 2 {
        "2"
    } else if digit == 3 {
        "3"
    } else if digit == 4 {
        "4"
    } else if digit == 5 {
        "5"
    } else if digit == 6 {
        "6"
    } else if digit == 7 {
        "7"
    } else if digit == 8 {
        "8"
    } else {
        "9"
    };
    assert(text@ =~= seq![digit_char(digit as nat)]);
    text
}

/// Writes a number in decimal digits.
pub fn decimal(number: u64) -> (text: String)
    ensures
        text@ == decimal_text(number as nat),
    decreases number,
{
    if number < 10 {
        digit_str(number).to_owned()
    } else {
        let mut text = decimal(number / 10);
        text.append(digit_str(number % 10));
        assert(text@ =~= decimal_text(number as nat));
        text
    }
}

/// A number in decimal, with a hyphen before one that is negative.
pub open spec fn signed_text(number: int) -> Seq<char> {
    if number < 0 {
        "-"@ + decimal_text((-number) as nat)
    } else {
        decimal_text(number as nat)
    }
}

/// Writes a number in decimal.
pub fn signed_decimal(number: i32) -> (text: String)
    ensures
        text@ == signed_text(number as int),
{
    if number < 0 {
        join("-", decimal((-(number as i64)) as u64).as_str())
    } else {
        decimal(number as u64)
    }
}

/// The view of a text that may be missing.
pub open spec fn text_of(text: Option<String>) -> Option<Seq<char>> {
    match text {
        Some(present) => Some(present@),
        None => None,
    }
}

/// The views of texts.
pub open spec fn strings(texts: Seq<String>) -> Seq<Seq<char>> {
    texts.map_values(|text: String| text@)
}

/// Texts with a separator between them.
pub open spec fn joined_by(texts: Seq<Seq<char>>, separator: Seq<char>) -> Seq<char>
    decreases texts.len(),
{
    if texts.len() == 0 {
        Seq::empty()
    } else if texts.len() == 1 {
        texts[0]
    } else {
        joined_by(texts.drop_last(), separator) + separator + texts.last()
    }
}

/// Joins texts with a separator between them.
pub fn join_texts(texts: &Vec<String>, separator: &str) -> (text: String)
    ensures
        text@ == joined_by(strings(texts@), separator@),
{
    let ghost views = strings(texts@);
    if texts.len() == 0 {
        return String::new();
    }
    let mut text = texts[0].as_str().to_owned();
    let mut i: usize = 1;
    assert(views.subrange(0, 1) =~= seq![views[0]]);
    while i < texts.len()
        invariant
            1 <= i <= texts@.len(),
            views == strings(texts@),
            text@ == joined_by(views.subrange(0, i as int), separator@),
        decreases texts@.len() - i,
    {
        proof {
            let longer = views.subrange(0, i + 1);
            assert(longer.drop_last() =~= views.subrange(0, i as int));
            assert(longer.last() == texts@[i as int]@);
        }
        text.append(separator);
        text.append(texts[i].as_str());
        i += 1;
    }
    assert(views.subrange(0, i as int) =~= views);
    text
}

/// Joins two texts.
pub fn join(left: &str, right: &str) -> (text: String)
    ensures
        text@ == left@ + right@,
{
    let mut text = left.to_owned();
    text.append(right);
    text
}

/// Joins three texts.
pub fn join3(first: &str, second: &str, third: &str) -> (text: String)
    ensures
        text@ == first@ + second@ + third@,
{
    let mut text = first.to_owned();
    text.append(second);
    text.append(third);
    text
}

/// Whether two texts are the same.
pub fn same_text(left: &str, right: &str) -> (same: bool)
    ensures
        same == (left@ == right@),
{
    left.to_owned() == right.to_owned()
}

/// A copy of a text that may be missing.
pub fn copy_text(text: &Option<String>) -> (copy: Option<String>)
    ensures
        text_of(copy) == text_of(*text),
{
    match text {
        Some(present) => Some(present.as_str().to_owned()),
        None => None,
    }
}

/// Whether a character is a letter or a number in Unicode, which is left open here.
pub uninterp spec fn alphanumeric(character: char) -> bool;

/// Calls `char::is_alphanumeric`.  The contract says only that the answer is determined by the
/// character.
#[verifier::external_body]
fn is_alphanumeric(character: char) -> (found: bool)
    ensures
        found == alphanumeric(character),
{
    character.is_alphanumeric()
}

/// A text in quotation marks, with what cannot stand in it escaped; how is left open here.
pub uninterp spec fn quoted_text(text: Seq<char>) -> Seq<char>;

/// Formats a `str` for debugging.  The contract says only that the result is determined by the
/// text.
#[verifier::external_body]
pub(crate) fn quote(text: &str) -> (quoted: String)
    ensures
        quoted@ == quoted_text(text@),
{
    format!("{:?}", text)
}

/// Whether a text stands at a position of another.
pub open spec fn stands_at(text: Seq<char>, part: Seq<char>, at: int) -> bool {
    0 <= at && at + part.len() <= text.len() && text.subrange(at, at + part.len()) == part
}

/// Whether a text occurs in another.
pub open spec fn occurs_in(text: Seq<char>, part: Seq<char>) -> bool {
    exists|at: int| stands_at(text, part, at)
}

/// Looks for a text in another.
pub fn contains_text(text: &str, part: &str) -> (found: bool)
    ensures
        found == occurs_in(text@, part@),
{
    let all = chars_of(text);
    let wanted = chars_of(part);
    if wanted.len() > all.len() {
        return false;
    }
    let last: usize = all.len() - wanted.len();
    let ghost most: int = all.len() as int;
    let mut at: usize = 0;
    while at <= last
        invariant
            all@ == text@,
            wanted@ == part@,
            last == all@.len() - wanted@.len(),
            all@.len() == most <= usize::MAX,
            at <= last + 1,
            forall|i: int| 0 <= i < at ==> !stands_at(text@, part@, i),
        decreases last + 1 - at,
    {
        let mut same: usize = 0;
        while same < wanted.len() && all[at + same] == wanted[same]
            invariant
                all@ == text@,
                wanted@ == part@,
                last == all@.len() - wanted@.len(),
                all@.len() == most <= usize::MAX,
                at <= last,
                same <= wanted@.len(),
                forall|i: int| 0 <= i < same ==> text@[at + i] == part@[i],
            decreases wanted@.len() - same,
        {
            same += 1;
        }
        if same == wanted.len() {
            assert(text@.subrange(at as int, at + part@.len()) =~= part@);
            assert(stands_at(text@, part@, at as int));
            return true;
        }
        proof {
            if stands_at(text@, part@, at as int) {
                assert(text@.subrange(at as int, at + part@.len())[same as int] == part@[same as int]);
            }
        }
        if at == last {
            assert forall|i: int| !stands_at(text@, part@, i) by {}
            return false;
        }
        at += 1;
    }
    false
}

/// Whether a character separates words: it is neither a letter, nor a number, nor an underscore.
pub open spec fn separates(character: char) -> bool {
    !alphanumeric(character) && character != '_'
}

/// The first position from `from` on at which a word ends.
pub open spec fn word_end(text: Seq<char>, from: int) -> int
    decreases text.len() - from,
{
    if 0 <= from < text.len() && !separates(text[from]) {
        word_end(text, from + 1)
    } else {
        from
    }
}

/// Whether one of the words from `from` on is the given one.
pub open spec fn has_word(text: Seq<char>, word: Seq<char>, from: int) -> bool
    decreases text.len() - from,
{
    if 0 <= from <= text.len() {
        let end = word_end(text, from);
        if from <= end <= text.len() && text.subrange(from, end) == word {
            true
        } else if from <= end < text.len() {
            has_word(text, word, end + 1)
        } else {
            false
        }
    } else {
        false
    }
}

/// Looks for a word in a text.
pub fn find_word(text: &str, word: &str) -> (found: bool)
    ensures
        found == has_word(text@, word@, 0),
{
    let characters = chars_of(text);
    let mut from: usize = 0;
    loop
        invariant
            characters@ == text@,
            from <= text@.len(),
            has_word(text@, word@, 0) == has_word(text@, word@, from as int),
        decreases text@.len() - from,
    {
        let mut end: usize = from;
        loop
            invariant_except_break
                characters@ == text@,
                from <= end <= text@.len(),
                word_end(text@, from as int) == word_end(text@, end as int),
            ensures
                from <= end <= text@.len(),
                word_end(text@, from as int) == end,
            decreases text@.len() - end,
        {
            if end >= characters.len() {
                break;
            }
            let letter: char = characters[end];
            if !is_alphanumeric(letter) && letter != '_' {
                break;
            }
            end += 1;
        }
        if same_text(text.substring_char(from, end), word) {
            return true;
        }
        if end >= characters.len() {
            return false;
        }
        from = end + 1;
    }
}

/// Whether a character has the Unicode property White_Space.
pub open spec fn white_space(character: char) -> bool {
    let code = character as u32;
    ||| 0x9 <= code <= 0xd
    ||| code == 0x20
    ||| code == 0x85
    ||| code == 0xa0
    ||| code == 0x1680
    ||| 0x2000 <= code <= 0x200a
    ||| code == 0x2028
    ||| code == 0x2029
    ||| code == 0x202f
    ||| code == 0x205f
    ||| code == 0x3000
}

fn is_white_space(character: char) -> (white: bool)
    ensures
        white == white_space(character),
{
    let code: u32 = character as u32;
    (0x9 <= code && code <= 0xd) || code == 0x20 || code == 0x85 || code == 0xa0 || code == 0x1680
        || (0x2000 <= code && code <= 0x200a) || code == 0x2028 || code == 0x2029 || code == 0x202f
        || code == 0x205f || code == 0x3000
}

/// Bytes read as UTF-8, with replacement characters where they are not; which ones is left open
/// here.
pub uninterp spec fn lossy_text(bytes: Seq<u8>) -> Seq<char>;

/// Calls `String::from_utf8_lossy`.  The contract says that the text is determined by the bytes,
/// and that valid UTF-8 is read as it stands.
#[verifier::external_body]
pub(crate) fn from_utf8_lossy(bytes: &[u8]) -> (text: String)
    ensures
        text@ == lossy_text(bytes@),
        vstd::utf8::valid_utf8(bytes@) ==> text@ == vstd::utf8::decode_utf8(bytes@),
{
    String::from_utf8_lossy(bytes).into_owned()
}

/// The characters of a text.
pub fn chars_of(text: &str) -> (characters: Vec<char>)
    ensures
        characters@ == text@,
{
    let count: usize = text.unicode_len();
    let mut characters: Vec<char> = Vec::new();
    let mut rest = text.chars();
    let mut i: usize = 0;
    while i < count
        invariant
            i <= count,
            count == text@.len(),
            characters@ == text@.subrange(0, i as int),
            vstd::std_specs::iter::IteratorSpec::remaining(&rest) == text@.subrange(
                i as int,
                text@.len() as int,
            ),
        decreases count - i,
    {
        broadcast use vstd::string::group_string_axioms;

        match rest.next() {
            Some(character) => {
                characters.push(character);
            },
            None => {},
        }
        i += 1;
        assert(text@.subrange(i - 1, text@.len() as int).drop_first() =~= text@.subrange(
            i as int,
            text@.len() as int,
        ));
        assert(characters@ =~= text@.subrange(0, i as int));
    }
    assert(text@.subrange(0, i as int) =~= text@);
    characters
}

/// The first position at or behind `from` that is white space or not, as asked for; the length
/// where there is none.
pub open spec fn next_white(text: Seq<char>, from: int, white: bool) -> int
    decreases text.len() - from,
{
    if 0 <= from < text.len() && white_space(text[from]) != white {
        next_white(text, from + 1, white)
    } else {
        from
    }
}

/// The position behind the last character before `upto` that is not white space; zero where there
/// is none.
pub open spec fn last_black(text: Seq<char>, upto: int) -> int
    decreases upto,
{
    if 0 < upto <= text.len() && white_space(text[upto - 1]) {
        last_black(text, upto - 1)
    } else {
        upto
    }
}

/// A text without the white space at its ends.
pub open spec fn trim_of(text: Seq<char>) -> Seq<char> {
    let start = next_white(text, 0, false);
    let end = last_black(text, text.len() as int);
    if start < end {
        text.subrange(start, end)
    } else {
        Seq::empty()
    }
}

fn find_white(characters: &Vec<char>, from: usize, upto: usize, white: bool) -> (at: usize)
    requires
        from <= upto <= characters@.len(),
    ensures
        at == next_white(characters@.subrange(0, upto as int), from as int, white),
        from <= at <= upto,
{
    let ghost text = characters@.subrange(0, upto as int);
    let mut at: usize = from;
    while at < upto && is_white_space(characters[at]) != white
        invariant
            from <= at <= upto <= characters@.len(),
            text == characters@.subrange(0, upto as int),
            next_white(text, from as int, white) == next_white(text, at as int, white),
        decreases upto - at,
    {
        assert(text[at as int] == characters@[at as int]);
        at += 1;
    }
    proof {
        if at < upto {
            assert(text[at as int] == characters@[at as int]);
        }
    }
    at
}

/// A copy without the white space at its ends.
pub fn trim(text: &str) -> (trimmed: String)
    ensures
        trimmed@ == trim_of(text@),
{
    let characters = chars_of(text);
    let count: usize = characters.len();
    assert(characters@.subrange(0, count as int) =~= text@);
    let start: usize = find_white(&characters, 0, count, false);
    let mut end: usize = count;
    while end > 0 && is_white_space(characters[end - 1])
        invariant
            end <= count,
            count == characters@.len(),
            characters@ == text@,
            last_black(text@, text@.len() as int) == last_black(text@, end as int),
        decreases end,
    {
        end -= 1;
    }
    if start < end {
        text.substring_char(start, end).to_owned()
    } else {
        String::new()
    }
}

/// The second of the words that white space separates.
pub open spec fn second_word(text: Seq<char>) -> Option<Seq<char>> {
    let first = next_white(text, 0, false);
    let behind = next_white(text, first, true);
    let start = next_white(text, behind, false);
    let end = next_white(text, start, true);
    if start < text.len() {
        Some(text.subrange(start, end))
    } else {
        None
    }
}

/// Looks for the second word of a text.
pub fn find_second_word(text: &str) -> (word: Option<String>)
    ensures
        text_of(word) == second_word(text@),
{
    let characters = chars_of(text);
    let count: usize = characters.len();
    assert(characters@.subrange(0, count as int) =~= text@);
    let first: usize = find_white(&characters, 0, count, false);
    let behind: usize = find_white(&characters, first, count, true);
    let start: usize = find_white(&characters, behind, count, false);
    if start >= count {
        return None;
    }
    let end: usize = find_white(&characters, start, count, true);
    Some(text.substring_char(start, end).to_owned())
}

/// The first position of a character, or the length where it does not occur.
pub open spec fn find_char(text: Seq<char>, from: int, wanted: char) -> int
    decreases text.len() - from,
{
    if 0 <= from < text.len() && text[from] != wanted {
        find_char(text, from + 1, wanted)
    } else {
        from
    }
}

/// The first line of a text, without its line ending; `None` of an empty text.
pub open spec fn first_line(text: Seq<char>) -> Option<Seq<char>> {
    let end = find_char(text, 0, '\n');
    if text.len() == 0 {
        None
    } else if end < text.len() && end > 0 && text[end - 1] == '\r' {
        Some(text.subrange(0, end - 1))
    } else {
        Some(text.subrange(0, end))
    }
}

/// Copies the first line of a text.
pub fn copy_first_line(text: &str) -> (line: Option<String>)
    ensures
        text_of(line) == first_line(text@),
{
    let characters = chars_of(text);
    if characters.len() == 0 {
        return None;
    }
    let mut end: usize = 0;
    while end < characters.len() && characters[end] != '\n'
        invariant
            end <= characters@.len(),
            characters@ == text@,
            find_char(text@, 0, '\n') == find_char(text@, end as int, '\n'),
        decreases characters@.len() - end,
    {
        end += 1;
    }
    if end < characters.len() && end > 0 && characters[end - 1] == '\r' {
        return Some(text.substring_char(0, end - 1).to_owned());
    }
    Some(text.substring_char(0, end).to_owned())
}

/// Whether an empty line, with both ends of line written as carriage return and line feed, begins
/// at a position.
pub open spec fn blank_line_at(text: Seq<char>, at: int) -> bool {
    &&& 0 <= at && at + 4 <= text.len()
    &&& text[at] == '\r' && text[at + 1] == '\n' && text[at + 2] == '\r' && text[at + 3] == '\n'
}

/// The first empty line at or behind `from`, or the length where there is none.
pub open spec fn find_blank_line(text: Seq<char>, from: int) -> int
    decreases text.len() - from,
{
    if 0 <= from < text.len() {
        if blank_line_at(text, from) {
            from
        } else {
            find_blank_line(text, from + 1)
        }
    } else {
        text.len() as int
    }
}

/// What stands behind the first empty line of a text; nothing where there is none.
pub open spec fn after_blank_line(text: Seq<char>) -> Seq<char> {
    let at = find_blank_line(text, 0);
    if at < text.len() {
        text.subrange(at + 4, text.len() as int)
    } else {
        Seq::empty()
    }
}

/// Copies what stands behind the first empty line.
pub fn copy_after_blank_line(text: &str) -> (rest: String)
    ensures
        rest@ == after_blank_line(text@),
{
    let characters = chars_of(text);
    let count: usize = characters.len();
    let mut at: usize = 0;
    while at < count
        invariant
            at <= count,
            count == characters@.len(),
            characters@ == text@,
            find_blank_line(text@, 0) == find_blank_line(text@, at as int),
        decreases count - at,
    {
        if count - at >= 4 && characters[at] == '\r' && characters[at + 1] == '\n'
            && characters[at + 2] == '\r' && characters[at + 3] == '\n' {
            return text.substring_char(at + 4, count).to_owned();
        }
        at += 1;
    }
    String::new()
}

/// A number of at most 65535 in decimal digits, which a plus sign may precede.
pub open spec fn u16_of(text: Seq<u8>) -> Option<nat> {
    let digits = if text.len() > 0 && text[0] == 43 {
        text.subrange(1, text.len() as int)
    } else {
        text
    };
    if digits.len() > 0 && is_digits(digits) && dec_value(digits) <= 65535 {
        Some(dec_value(digits))
    } else {
        None
    }
}

/// Reads a number of at most 65535.
pub fn read_u16(text: &str) -> (number: Option<u16>)
    ensures
        match number {
            Some(value) => u16_of(text.spec_bytes()) == Some(value as nat),
            None => u16_of(text.spec_bytes()) is None,
        },
{
    let bytes: &[u8] = text.as_bytes();
    let digits: &[u8] = if bytes.len() > 0 && bytes[0] == 43 {
        vstd::slice::slice_subrange(bytes, 1, bytes.len())
    } else {
        bytes
    };
    match read_decimal(digits, 65535) {
        Some(value) => Some(value as u16),
        None => None,
    }
}

/// Whether a text comes before another or is the same, character by character.
pub open spec fn text_le(left: Seq<char>, right: Seq<char>) -> bool
    decreases left.len(),
{
    if left.len() == 0 {
        true
    } else if right.len() == 0 {
        false
    } else if left[0] != right[0] {
        left[0] < right[0]
    } else {
        text_le(left.drop_first(), right.drop_first())
    }
}

pub proof fn lemma_text_le_total(left: Seq<char>, right: Seq<char>)
    ensures
        text_le(left, right) || text_le(right, left),
    decreases left.len(),
{
    if left.len() > 0 && right.len() > 0 && left[0] == right[0] {
        lemma_text_le_total(left.drop_first(), right.drop_first());
    }
}

pub proof fn lemma_text_le_transitive(first: Seq<char>, second: Seq<char>, third: Seq<char>)
    requires
        text_le(first, second),
        text_le(second, third),
    ensures
        text_le(first, third),
    decreases first.len(),
{
    if first.len() > 0 && second.len() > 0 && third.len() > 0 && first[0] == second[0] && second[0]
        == third[0] {
        lemma_text_le_transitive(first.drop_first(), second.drop_first(), third.drop_first());
    }
}

pub proof fn lemma_text_le_antisymmetric(left: Seq<char>, right: Seq<char>)
    requires
        text_le(left, right),
        text_le(right, left),
    ensures
        left == right,
    decreases left.len(),
{
    if left.len() > 0 && right.len() > 0 {
        lemma_text_le_antisymmetric(left.drop_first(), right.drop_first());
        assert(left =~= seq![left[0]] + left.drop_first());
        assert(right =~= seq![right[0]] + right.drop_first());
    } else {
        assert(left =~= right);
    }
}

/// Compares two texts.
pub fn not_after(left: &str, right: &str) -> (before: bool)
    ensures
        before == text_le(left@, right@),
{
    let own = chars_of(left);
    let other = chars_of(right);
    let mut i: usize = 0;
    assert(left@.subrange(0, left@.len() as int) =~= left@);
    assert(right@.subrange(0, right@.len() as int) =~= right@);
    loop
        invariant
            own@ == left@,
            other@ == right@,
            i <= own@.len(),
            i <= other@.len(),
            text_le(left@, right@) == text_le(
                left@.subrange(i as int, left@.len() as int),
                right@.subrange(i as int, right@.len() as int),
            ),
        decreases own@.len() - i,
    {
        if i == own.len() {
            return true;
        }
        if i == other.len() {
            return false;
        }
        if own[i] != other[i] {
            return own[i] < other[i];
        }
        assert(left@.subrange(i as int, left@.len() as int).drop_first() =~= left@.subrange(
            i + 1,
            left@.len() as int,
        ));
        assert(right@.subrange(i as int, right@.len() as int).drop_first() =~= right@.subrange(
            i + 1,
            right@.len() as int,
        ));
        i += 1;
    }
}

/// The order of texts as a relation.
pub open spec fn text_order() -> spec_fn(Seq<char>, Seq<char>) -> bool {
    |left: Seq<char>, right: Seq<char>| text_le(left, right)
}

/// Any two texts are ordered, and in one way only.
pub proof fn lemma_text_order()
    ensures
        vstd::relations::total_ordering(text_order()),
{
    let order = text_order();
    assert forall|text: Seq<char>| #[trigger] order(text, text) by {
        lemma_text_le_total(text, text);
    }
    assert forall|left: Seq<char>, right: Seq<char>| #[trigger]
        order(left, right) && #[trigger] order(right, left) implies left == right by {
        lemma_text_le_antisymmetric(left, right);
    }
    assert forall|first: Seq<char>, second: Seq<char>, third: Seq<char>| #[trigger]
        order(first, second) && #[trigger] order(second, third) implies order(first, third) by {
        lemma_text_le_transitive(first, second, third);
    }
    assert forall|left: Seq<char>, right: Seq<char>| #[trigger]
        order(left, right) || #[trigger] order(right, left) by {
        lemma_text_le_total(left, right);
    }
}

/// Inserting an element anywhere adds it to what a sequence holds.
pub proof fn lemma_insert_multiset<A>(elements: Seq<A>, at: int, element: A)
    requires
        0 <= at <= elements.len(),
    ensures
        elements.insert(at, element).to_multiset() == elements.to_multiset().insert(element),
{
    let left = elements.subrange(0, at);
    let right = elements.subrange(at, elements.len() as int);
    assert(elements =~= left + right);
    assert(elements.insert(at, element) =~= left.push(element) + right);
    vstd::seq_lib::lemma_multiset_commutative(left, right);
    vstd::seq_lib::lemma_multiset_commutative(left.push(element), right);
    left.to_multiset_ensures();
    assert(left.push(element).to_multiset() =~= left.to_multiset().insert(element));
    assert(left.to_multiset().insert(element).add(right.to_multiset())
        =~= left.to_multiset().add(right.to_multiset()).insert(element));
}

fn insert_text(texts: &mut Vec<String>, text: String)
    requires
        vstd::relations::sorted_by(strings(old(texts)@), text_order()),
    ensures
        vstd::relations::sorted_by(strings(final(texts)@), text_order()),
        strings(final(texts)@).to_multiset() == strings(old(texts)@).to_multiset().insert(text@),
{
    let ghost order = text_order();
    let ghost before = strings(texts@);
    let ghost given = text@;
    let mut place: usize = texts.len();
    while place > 0 && !not_after(texts[place - 1].as_str(), text.as_str())
        invariant
            place <= texts@.len(),
            strings(texts@) == before,
            text@ == given,
            order == text_order(),
            forall|i: int| place <= i < before.len() ==> order(given, #[trigger] before[i]),
        decreases place,
    {
        proof {
            assert(before[place - 1] == texts@[place - 1]@);
            lemma_text_le_total(before[place - 1], given);
        }
        place -= 1;
    }
    proof {
        if place > 0 {
            assert(before[place - 1] == texts@[place - 1]@);
        }
    }
    texts.insert(place, text);
    proof {
        let after = before.insert(place as int, given);
        assert(strings(texts@) =~= after);
        lemma_insert_multiset(before, place as int, given);
        assert forall|i: int, j: int| 0 <= i < j < after.len() implies #[trigger] order(
            after[i],
            after[j],
        ) by {
            if i < place && j == place {
                if i < place - 1 {
                    assert(order(before[i], before[place - 1]));
                    lemma_text_le_transitive(before[i], before[place - 1], given);
                }
            } else if i < place && j > place {
                assert(order(before[i], before[j - 1]));
            } else if i > place {
                assert(order(before[i - 1], before[j - 1]));
            } else if i < place {
                assert(order(before[i], before[j]));
            }
        }
    }
}

/// Puts texts in order.
pub fn sort_texts(texts: Vec<String>) -> (sorted: Vec<String>)
    ensures
        strings(sorted@) == strings(texts@).sort_by(text_order()),
{
    let ghost given = strings(texts@);
    let mut rest = texts;
    let mut sorted: Vec<String> = Vec::new();
    proof {
        strings(sorted@).to_multiset_ensures();
        given.to_multiset_ensures();
        assert(strings(sorted@) =~= Seq::empty());
        assert(strings(sorted@).to_multiset().add(strings(rest@).to_multiset())
            =~= given.to_multiset());
    }
    while rest.len() > 0
        invariant
            vstd::relations::sorted_by(strings(sorted@), text_order()),
            strings(sorted@).to_multiset().add(strings(rest@).to_multiset())
                == given.to_multiset(),
        decreases rest@.len(),
    {
        let ghost before = strings(rest@);
        let ghost sorted_before = strings(sorted@);
        match rest.pop() {
            Some(text) => {
                let ghost popped = text@;
                proof {
                    assert(strings(rest@) =~= before.drop_last());
                    assert(before =~= before.drop_last().push(popped));
                    before.drop_last().to_multiset_ensures();
                }
                insert_text(&mut sorted, text);
                assert(sorted_before.to_multiset().insert(popped).add(
                    strings(rest@).to_multiset(),
                ) =~= sorted_before.to_multiset().add(
                    strings(rest@).to_multiset().insert(popped),
                ));
            },
            None => {},
        }
    }
    proof {
        strings(rest@).to_multiset_ensures();
        assert(strings(rest@) =~= Seq::empty());
        assert(strings(rest@).to_multiset() =~= vstd::multiset::Multiset::empty());
        assert(strings(sorted@).to_multiset().add(strings(rest@).to_multiset()) =~= strings(
            sorted@,
        ).to_multiset());
        lemma_text_order();
        given.lemma_sort_by_ensures(text_order());
        vstd::seq_lib::lemma_sorted_unique(
            strings(sorted@),
            given.sort_by(text_order()),
            text_order(),
        );
    }
    sorted
}

} // verus!
