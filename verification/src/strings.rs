//! Characters, words and replacement in short strings such as paths and the
//! lines that discovery commands print.

use crate::text::bytes_eq;
use vstd::prelude::*;
use vstd::string::StringExecFns;
use vstd::string::StrSliceExecFns;

verus! {

/// The decimal digit `digit` as a character.
pub open spec fn digit_char(digit: nat) -> char {
    if digit == 0 {
        '0'
    } else if digit == 1 {
        '1'
    } else if digit == 2 {
        '2'
    } else if digit == 3 {
        '3'
    } else if digit == 4 {
        '4'
    } else if digit == 5 {
        '5'
    } else if digit == 6 {
        '6'
    } else if digit == 7 {
        '7'
    } else if digit == 8 {
        '8'
    } else {
        '9'
    }
}

/// `value` written in decimal digits, without leading zeros.
pub open spec fn decimal_chars(value: nat) -> Seq<char>
    decreases value,
{
    if value < 10 {
        seq![digit_char(value)]
    } else {
        decimal_chars(value / 10).push(digit_char(value % 10))
    }
}

/// Whether `c` separates words: a character with the Unicode property
/// `White_Space`.
pub open spec fn is_whitespace(c: char) -> bool {
    let code = c as u32;
    ||| 0x09 <= code <= 0x0d
    ||| code == 0x20
    ||| code == 0x85
    ||| code == 0xa0
    ||| code == 0x1680
    ||| 0x2000 <= code <= 0x200a
    ||| code == 0x2028
    ||| code == 0x2029
    ||| code == 0x202f
    ||| code == 0x205f
    ||| code == 0x3000
}

/// The index of the first whitespace at or after `from`, or the length of
/// `line` where there is none.
pub open spec fn word_end(line: Seq<char>, from: int) -> int
    decreases line.len() - from,
{
    if 0 <= from < line.len() && !is_whitespace(line[from]) {
        word_end(line, from + 1)
    } else {
        from
    }
}

/// The words of `line` from index `from` on.
pub open spec fn words_from(line: Seq<char>, from: int) -> Seq<Seq<char>>
    decreases line.len() - from,
{
    if 0 <= from < line.len() {
        if is_whitespace(line[from]) {
            words_from(line, from + 1)
        } else {
            proof {
                lemma_word_end(line, from);
            }
            seq![line.subrange(from, word_end(line, from))] + words_from(
                line,
                word_end(line, from),
            )
        }
    } else {
        Seq::empty()
    }
}

/// The words of `line`: its longest runs of characters that are no
/// whitespace, in order.
pub open spec fn words(line: Seq<char>) -> Seq<Seq<char>> {
    words_from(line, 0)
}

/// The index of the first character of `text` at or after `from` that is no
/// whitespace, or the length of `text`.
pub open spec fn trim_start_index(text: Seq<char>, from: int) -> int
    decreases text.len() - from,
{
    if 0 <= from < text.len() && is_whitespace(text[from]) {
        trim_start_index(text, from + 1)
    } else {
        from
    }
}

/// One past the index of the last character of `text` before `to` that is no
/// whitespace, or zero.
pub open spec fn trim_end_index(text: Seq<char>, to: int) -> int
    decreases to,
{
    if 0 < to <= text.len() && is_whitespace(text[to - 1]) {
        trim_end_index(text, to - 1)
    } else {
        to
    }
}

/// `text` without the whitespace at its two ends.
pub open spec fn trimmed(text: Seq<char>) -> Seq<char> {
    let end = trim_end_index(text, text.len() as int);
    let start = trim_start_index(text, 0);
    if start < end {
        text.subrange(start, end)
    } else {
        Seq::empty()
    }
}

/// The texts that the strings of `items` hold.
pub open spec fn texts(items: Seq<String>) -> Seq<Seq<char>> {
    Seq::new(items.len(), |i: int| items[i]@)
}

/// Whether `pattern` stands in `text` at index `at`.
pub open spec fn occurs_at(text: Seq<char>, pattern: Seq<char>, at: int) -> bool {
    0 <= at && at + pattern.len() <= text.len() && text.subrange(at, at + pattern.len())
        == pattern
}

/// `text` from index `from` on, with every occurrence of `pattern` replaced
/// by `with`. Occurrences are taken from the left and do not overlap. An
/// empty `pattern` occurs nowhere.
pub open spec fn replaced_from(
    text: Seq<char>,
    pattern: Seq<char>,
    with: Seq<char>,
    from: int,
) -> Seq<char>
    decreases text.len() - from,
{
    if 0 <= from < text.len() {
        if pattern.len() > 0 && occurs_at(text, pattern, from) {
            with + replaced_from(text, pattern, with, from + pattern.len())
        } else {
            seq![text[from]] + replaced_from(text, pattern, with, from + 1)
        }
    } else {
        Seq::empty()
    }
}

/// `text` with every occurrence of `pattern` replaced by `with`.
pub open spec fn replaced(text: Seq<char>, pattern: Seq<char>, with: Seq<char>) -> Seq<char> {
    replaced_from(text, pattern, with, 0)
}

/// A word ends at or after its start, holds no whitespace, and ends right
/// before one unless it ends the line.
pub proof fn lemma_word_end(line: Seq<char>, from: int)
    requires
        0 <= from <= line.len(),
    ensures
        from <= word_end(line, from) <= line.len(),
        from < line.len() && !is_whitespace(line[from]) ==> from < word_end(line, from),
        forall|i: int| from <= i < word_end(line, from) ==> !is_whitespace(line[i]),
        word_end(line, from) < line.len() ==> is_whitespace(line[word_end(line, from)]),
    decreases line.len() - from,
{
    if from < line.len() && !is_whitespace(line[from]) {
        lemma_word_end(line, from + 1);
    }
}

/// The characters of `text`.
pub fn chars_of(text: &str) -> (chars: Vec<char>)
    ensures
        chars@ == text@,
{
    let mut chars: Vec<char> = Vec::new();
    for c in it: text.chars()
        invariant
            chars@ == text@.take(it.index() as int),
            it.seq() == text@,
    {
        chars.push(c);
        assert(chars@ =~= text@.take(it.index() + 1));
    }
    assert(chars@ =~= text@);
    chars
}

/// Whether the two hold the same characters.
pub fn str_eq(left: &str, right: &str) -> (same: bool)
    ensures
        same == (left@ == right@),
{
    let same: bool = bytes_eq(left.as_bytes(), right.as_bytes());
    proof {
        vstd::utf8::encode_utf8_decode_utf8(left@);
        vstd::utf8::encode_utf8_decode_utf8(right@);
    }
    same
}

/// Whether `c` separates words.
pub fn is_white(c: char) -> (white: bool)
    ensures
        white == is_whitespace(c),
{
    let code: u32 = c as u32;
    (0x09 <= code && code <= 0x0d) || code == 0x20 || code == 0x85 || code == 0xa0 || code
        == 0x1680 || (0x2000 <= code && code <= 0x200a) || code == 0x2028 || code == 0x2029
        || code == 0x202f || code == 0x205f || code == 0x3000
}

/// The decimal digit `digit` as a string.
fn digit_str(digit: u64) -> (text: &'static str)
    requires
        digit < 10,
    ensures
        text@ == seq![digit_char(digit as nat)],
{
    proof {
        reveal_strlit("0");
        reveal_strlit("1");
        reveal_strlit("2");
        reveal_strlit("3");
        reveal_strlit("4");
        reveal_strlit("5");
        reveal_strlit("6");
        reveal_strlit("7");
        reveal_strlit("8");
        reveal_strlit("9");
    }
    let text: &'static str = if digit == 0 {
        "0"
    } else if digit == 1 {
        "1"
    } else if digit == 2 {
        "2"
    } else if digit == 3 {
        "3"
    } else if digit == 4 {
        "4"
    } else if digit == 5 {
        "5"
    } else if digit == 6 {
        "6"
    } else if digit == 7 {
        "7"
    } else if digit == 8 {
        "8"
    } else {
        "9"
    };
    assert(text@ =~= seq![digit_char(digit as nat)]);
    text
}

/// `value` written in decimal digits.
pub fn format_u64(value: u64) -> (text: String)
    ensures
        text@ == decimal_chars(value as nat),
    decreases value,
{
    if value < 10 {
        String::from_str(digit_str(value))
    } else {
        let mut text: String = format_u64(value / 10);
        text.append(digit_str(value % 10));
        assert(text@ =~= decimal_chars(value as nat));
        text
    }
}

/// The words of `line`.
pub fn split_words(line: &str) -> (result: Vec<String>)
    ensures
        texts(result@) == words(line@),
{
    let chars: Vec<char> = chars_of(line);
    let mut result: Vec<String> = Vec::new();
    let mut start: usize = 0;
    assert(texts(result@) =~= Seq::<Seq<char>>::empty());
    while start < chars.len()
        invariant
            chars@ == line@,
            start <= chars@.len(),
            words(line@) == texts(result@) + words_from(line@, start as int),
        decreases chars@.len() - start,
    {
        if is_white(chars[start]) {
            start += 1;
        } else {
            let mut end: usize = start + 1;
            while end < chars.len() && !is_white(chars[end])
                invariant
                    chars@ == line@,
                    start < end <= chars@.len(),
                    word_end(line@, end as int) == word_end(line@, start as int),
                decreases chars@.len() - end,
            {
                end += 1;
            }
            let word: String = String::from_str(line.substring_char(start, end));
            let ghost before = texts(result@);
            let ghost found = word@;
            result.push(word);
            proof {
                assert(texts(result@) =~= before.push(found));
                assert(before + (seq![found] + words_from(line@, end as int)) =~= before.push(
                    found,
                ) + words_from(line@, end as int));
            }
            start = end;
        }
    }
    proof {
        assert(words_from(line@, start as int) =~= Seq::<Seq<char>>::empty());
        assert(texts(result@) + Seq::<Seq<char>>::empty() =~= texts(result@));
    }
    result
}

/// `text` without the whitespace at its two ends.
pub fn trim(text: &str) -> (result: String)
    ensures
        result@ == trimmed(text@),
{
    let chars: Vec<char> = chars_of(text);
    let mut end: usize = chars.len();
    while end > 0 && is_white(chars[end - 1])
        invariant
            chars@ == text@,
            end <= chars@.len(),
            trim_end_index(text@, end as int) == trim_end_index(text@, text@.len() as int),
        decreases end,
    {
        end -= 1;
    }
    let mut start: usize = 0;
    while start < chars.len() && is_white(chars[start])
        invariant
            chars@ == text@,
            start <= chars@.len(),
            trim_start_index(text@, start as int) == trim_start_index(text@, 0),
        decreases chars@.len() - start,
    {
        start += 1;
    }
    if start < end {
        String::from_str(text.substring_char(start, end))
    } else {
        String::new()
    }
}

/// Whether `pattern` stands in `text` at index `at`.
fn matches_at(text: &Vec<char>, pattern: &Vec<char>, at: usize) -> (found: bool)
    ensures
        found == occurs_at(text@, pattern@, at as int),
{
    if pattern.len() > text.len() || at > text.len() - pattern.len() {
        return false;
    }
    let length: usize = text.len();
    let mut i: usize = 0;
    while i < pattern.len()
        invariant
            i <= pattern@.len(),
            length == text@.len(),
            at + pattern@.len() <= text@.len(),
            forall|k: int| 0 <= k < i ==> text@[at + k] == pattern@[k],
        decreases pattern@.len() - i,
    {
        if text[at + i] != pattern[i] {
            assert(text@.subrange(at as int, at + pattern@.len())[i as int] != pattern@[i as int]);
            return false;
        }
        i += 1;
    }
    assert(text@.subrange(at as int, at + pattern@.len()) =~= pattern@);
    true
}

/// Whether `text` begins with `prefix`.
pub fn starts_with(text: &str, prefix: &str) -> (found: bool)
    ensures
        found == occurs_at(text@, prefix@, 0),
{
    let chars: Vec<char> = chars_of(text);
    let wanted: Vec<char> = chars_of(prefix);
    matches_at(&chars, &wanted, 0)
}

/// `text` with every occurrence of `pattern` replaced by `with`.
pub fn replace(text: &str, pattern: &str, with: &str) -> (result: String)
    ensures
        result@ == replaced(text@, pattern@, with@),
{
    let chars: Vec<char> = chars_of(text);
    let wanted: Vec<char> = chars_of(pattern);
    let mut result: String = String::new();
    let mut at: usize = 0;
    while at < chars.len()
        invariant
            chars@ == text@,
            wanted@ == pattern@,
            at <= chars@.len(),
            replaced(text@, pattern@, with@) == result@ + replaced_from(
                text@,
                pattern@,
                with@,
                at as int,
            ),
        decreases chars@.len() - at,
    {
        let ghost before = result@;
        let ghost tail = replaced_from(text@, pattern@, with@, at as int);
        if wanted.len() > 0 && matches_at(&chars, &wanted, at) {
            result.append(with);
            at += wanted.len();
            proof {
                assert(before + (with@ + replaced_from(text@, pattern@, with@, at as int))
                    =~= result@ + replaced_from(text@, pattern@, with@, at as int));
            }
        } else {
            result.append(text.substring_char(at, at + 1));
            proof {
                assert(text@.subrange(at as int, at + 1) =~= seq![text@[at as int]]);
            }
            at += 1;
            proof {
                assert(before + (seq![text@[at - 1]] + replaced_from(
                    text@,
                    pattern@,
                    with@,
                    at as int,
                )) =~= result@ + replaced_from(text@, pattern@, with@, at as int));
            }
        }
    }
    proof {
        assert(replaced_from(text@, pattern@, with@, at as int) =~= Seq::<char>::empty());
        assert(result@ + Seq::<char>::empty() =~= result@);
    }
    result
}

} // verus!
