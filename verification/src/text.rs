//! Lines, whitespace-separated fields and unsigned decimal numbers in the
//! bytes of a counter file.

use vstd::prelude::*;
use vstd::slice::{slice_subrange, slice_to_vec};

verus! {

/// Line feed: ends a line.
pub const LINE_FEED: u8 = 0x0a;

/// Carriage return: dropped where it stands right before a line feed.
pub const CARRIAGE_RETURN: u8 = 0x0d;

/// Plus sign: may stand before the digits of a number.
pub const PLUS: u8 = 0x2b;

/// Digit zero.
pub const ZERO: u8 = 0x30;

/// Digit nine.
pub const NINE: u8 = 0x39;

/// Whether `byte` separates fields: a space, a tab, a line feed, a vertical
/// tab, a form feed or a carriage return.
pub open spec fn is_space(byte: u8) -> bool {
    byte == 0x20 || (0x09 <= byte && byte <= 0x0d)
}

/// Whether `byte` is a decimal digit.
pub open spec fn is_digit(byte: u8) -> bool {
    ZERO <= byte && byte <= NINE
}

/// The index of the first line feed at or after `from`, or the length of
/// `text` where there is none.
pub open spec fn line_end(text: Seq<u8>, from: int) -> int
    decreases text.len() - from,
{
    if 0 <= from < text.len() && text[from] != LINE_FEED {
        line_end(text, from + 1)
    } else {
        from
    }
}

/// The index of the first separator at or after `from`, or the length of
/// `line` where there is none.
pub open spec fn field_end(line: Seq<u8>, from: int) -> int
    decreases line.len() - from,
{
    if 0 <= from < line.len() && !is_space(line[from]) {
        field_end(line, from + 1)
    } else {
        from
    }
}

/// The line that starts at `from`: the bytes up to the next line feed, without
/// a carriage return that stands right before that line feed.
pub open spec fn line_at(text: Seq<u8>, from: int) -> Seq<u8> {
    let end = line_end(text, from);
    if end < text.len() && from < end && text[end - 1] == CARRIAGE_RETURN {
        text.subrange(from, end - 1)
    } else {
        text.subrange(from, end)
    }
}

/// The lines of `text` from index `from` on.
pub open spec fn lines_from(text: Seq<u8>, from: int) -> Seq<Seq<u8>>
    decreases text.len() + 1 - from,
{
    if 0 <= from < text.len() {
        proof {
            lemma_line_end(text, from);
        }
        seq![line_at(text, from)] + lines_from(text, line_end(text, from) + 1)
    } else {
        Seq::empty()
    }
}

/// The lines of `text`. A line ends at a line feed or at the end of the text;
/// a line feed at the very end starts no further line.
pub open spec fn lines(text: Seq<u8>) -> Seq<Seq<u8>> {
    lines_from(text, 0)
}

/// The fields of `line` from index `from` on.
pub open spec fn fields_from(line: Seq<u8>, from: int) -> Seq<Seq<u8>>
    decreases line.len() - from,
{
    if 0 <= from < line.len() {
        if is_space(line[from]) {
            fields_from(line, from + 1)
        } else {
            proof {
                lemma_field_end(line, from);
            }
            seq![line.subrange(from, field_end(line, from))] + fields_from(
                line,
                field_end(line, from),
            )
        }
    } else {
        Seq::empty()
    }
}

/// The fields of `line`: its longest runs of bytes that are no separators, in
/// order.
pub open spec fn fields(line: Seq<u8>) -> Seq<Seq<u8>> {
    fields_from(line, 0)
}

/// Whether every byte of `digits` is a decimal digit.
pub open spec fn all_digits(digits: Seq<u8>) -> bool {
    forall|i: int| 0 <= i < digits.len() ==> is_digit(#[trigger] digits[i])
}

/// The number that the decimal digits `digits` write.
pub open spec fn digits_value(digits: Seq<u8>) -> nat
    decreases digits.len(),
{
    if digits.len() == 0 {
        0
    } else {
        digits_value(digits.drop_last()) * 10 + (digits.last() - ZERO) as nat
    }
}

/// The digits of `token`: all of it, but for one leading plus sign.
pub open spec fn digits_of(token: Seq<u8>) -> Seq<u8> {
    if token.len() > 0 && token[0] == PLUS {
        token.drop_first()
    } else {
        token
    }
}

/// The number that `token` writes: one or more decimal digits, after at most
/// one plus sign, whose value fits 64 bits. Anything else is no number.
pub open spec fn decimal(token: Seq<u8>) -> Option<u64> {
    let digits = digits_of(token);
    if digits.len() > 0 && all_digits(digits) && digits_value(digits) <= u64::MAX {
        Some(digits_value(digits) as u64)
    } else {
        None
    }
}

/// Whether `text` begins with `prefix`.
pub open spec fn has_prefix(text: Seq<u8>, prefix: Seq<u8>) -> bool {
    prefix.len() <= text.len() && text.subrange(0, prefix.len() as int) == prefix
}

/// `token` without the run of `byte` at its end.
pub open spec fn trimmed_end(token: Seq<u8>, byte: u8) -> Seq<u8>
    decreases token.len(),
{
    if token.len() > 0 && token.last() == byte {
        trimmed_end(token.drop_last(), byte)
    } else {
        token
    }
}

/// The byte sequences that the vectors of `items` hold.
pub open spec fn views(items: Seq<Vec<u8>>) -> Seq<Seq<u8>> {
    Seq::new(items.len(), |i: int| items[i]@)
}

/// A line ends at or after its start, holds no line feed, and ends right
/// before one unless it ends the text.
pub proof fn lemma_line_end(text: Seq<u8>, from: int)
    requires
        0 <= from <= text.len(),
    ensures
        from <= line_end(text, from) <= text.len(),
        forall|i: int| from <= i < line_end(text, from) ==> text[i] != LINE_FEED,
        line_end(text, from) < text.len() ==> text[line_end(text, from)] == LINE_FEED,
    decreases text.len() - from,
{
    if from < text.len() && text[from] != LINE_FEED {
        lemma_line_end(text, from + 1);
    }
}

/// A field ends at or after its start, holds no separator, and ends right
/// before one unless it ends the line.
pub proof fn lemma_field_end(line: Seq<u8>, from: int)
    requires
        0 <= from <= line.len(),
    ensures
        from <= field_end(line, from) <= line.len(),
        from < line.len() && !is_space(line[from]) ==> from < field_end(line, from),
        forall|i: int| from <= i < field_end(line, from) ==> !is_space(line[i]),
        field_end(line, from) < line.len() ==> is_space(line[field_end(line, from)]),
    decreases line.len() - from,
{
    if from < line.len() && !is_space(line[from]) {
        lemma_field_end(line, from + 1);
    }
}

/// Whether `field` is a field: not empty, and without a separator.
pub open spec fn is_field(field: Seq<u8>) -> bool {
    field.len() > 0 && forall|i: int| 0 <= i < field.len() ==> !is_space(#[trigger] field[i])
}

/// Whether `line` is free of line feeds.
pub open spec fn is_one_line(line: Seq<u8>) -> bool {
    forall|i: int| 0 <= i < line.len() ==> #[trigger] line[i] != LINE_FEED
}

/// Every field of a line is a field.
pub proof fn lemma_fields_are_fields(line: Seq<u8>, from: int)
    requires
        0 <= from <= line.len(),
    ensures
        forall|k: int|
            0 <= k < fields_from(line, from).len() ==> is_field(
                #[trigger] fields_from(line, from)[k],
            ),
    decreases line.len() - from,
{
    if from < line.len() {
        if is_space(line[from]) {
            lemma_fields_are_fields(line, from + 1);
            assert(fields_from(line, from) == fields_from(line, from + 1));
        } else {
            let end = field_end(line, from);
            lemma_field_end(line, from);
            lemma_fields_are_fields(line, end);
            let first = line.subrange(from, end);
            let others = fields_from(line, end);
            assert(is_field(first));
            assert forall|k: int| 0 <= k < fields_from(line, from).len() implies is_field(
                #[trigger] fields_from(line, from)[k],
            ) by {
                if k > 0 {
                    assert(fields_from(line, from)[k] == others[k - 1]);
                }
            }
        }
    }
}

/// No line of a text holds a line feed.
pub proof fn lemma_lines_are_lines(text: Seq<u8>, from: int)
    requires
        0 <= from <= text.len(),
    ensures
        forall|k: int|
            0 <= k < lines_from(text, from).len() ==> is_one_line(
                #[trigger] lines_from(text, from)[k],
            ),
    decreases text.len() - from,
{
    if from < text.len() {
        let end = line_end(text, from);
        lemma_line_end(text, from);
        if end < text.len() {
            lemma_lines_are_lines(text, end + 1);
        }
        let first = line_at(text, from);
        let others = lines_from(text, end + 1);
        assert(is_one_line(first));
        assert forall|k: int| 0 <= k < lines_from(text, from).len() implies is_one_line(
            #[trigger] lines_from(text, from)[k],
        ) by {
            if k > 0 {
                assert(lines_from(text, from)[k] == others[k - 1]);
            }
        }
    }
}

/// The digits read so far never write more than all of them do.
pub proof fn lemma_digits_value_prefix(digits: Seq<u8>, count: int)
    requires
        0 <= count <= digits.len(),
    ensures
        digits_value(digits.take(count)) <= digits_value(digits),
    decreases digits.len(),
{
    if count == digits.len() {
        assert(digits.take(count) =~= digits);
    } else {
        lemma_digits_value_prefix(digits.drop_last(), count);
        assert(digits.drop_last().take(count) =~= digits.take(count));
    }
}

/// Whether the two hold the same bytes.
pub fn bytes_eq(left: &[u8], right: &[u8]) -> (same: bool)
    ensures
        same == (left@ == right@),
{
    if left.len() != right.len() {
        return false;
    }
    let mut i: usize = 0;
    while i < left.len()
        invariant
            left@.len() == right@.len(),
            i <= left@.len(),
            forall|k: int| 0 <= k < i ==> left@[k] == right@[k],
        decreases left@.len() - i,
    {
        if left[i] != right[i] {
            return false;
        }
        i += 1;
    }
    assert(left@ =~= right@);
    true
}

/// Whether `text` begins with `prefix`.
pub fn starts_with(text: &[u8], prefix: &[u8]) -> (found: bool)
    ensures
        found == has_prefix(text@, prefix@),
{
    if prefix.len() > text.len() {
        return false;
    }
    bytes_eq(slice_subrange(text, 0, prefix.len()), prefix)
}

/// `token` without the run of `byte` at its end.
pub fn trim_end_matches(token: &[u8], byte: u8) -> (kept: &[u8])
    ensures
        kept@ == trimmed_end(token@, byte),
{
    let mut end: usize = token.len();
    assert(token@.subrange(0, end as int) =~= token@);
    while end > 0 && token[end - 1] == byte
        invariant
            end <= token@.len(),
            trimmed_end(token@, byte) == trimmed_end(token@.subrange(0, end as int), byte),
        decreases end,
    {
        proof {
            let whole = token@.subrange(0, end as int);
            assert(whole.drop_last() =~= token@.subrange(0, end - 1));
        }
        end -= 1;
    }
    slice_subrange(token, 0, end)
}

/// The number that `token` writes, if it writes one.
pub fn parse_u64(token: &[u8]) -> (number: Option<u64>)
    ensures
        number == decimal(token@),
{
    let length: usize = token.len();
    let first: usize = if length > 0 && token[0] == PLUS {
        1
    } else {
        0
    };
    if first == length {
        return None;
    }
    let ghost digits = digits_of(token@);
    assert(digits =~= token@.subrange(first as int, length as int));
    let mut value: u64 = 0;
    let mut i: usize = first;
    while i < length
        invariant
            first <= i <= length,
            length == token@.len(),
            digits == digits_of(token@),
            digits == token@.subrange(first as int, length as int),
            all_digits(digits.take(i - first)),
            value == digits_value(digits.take(i - first)),
        decreases length - i,
    {
        let byte: u8 = token[i];
        if byte < ZERO || byte > NINE {
            assert(!is_digit(digits[i - first]));
            return None;
        }
        let digit: u64 = (byte - ZERO) as u64;
        proof {
            let seen = digits.take(i - first + 1);
            assert(seen.drop_last() =~= digits.take(i - first));
            assert(seen.last() == byte);
            assert(digits_value(seen) == value * 10 + digit);
            assert(all_digits(seen)) by {
                assert forall|k: int| 0 <= k < seen.len() implies is_digit(#[trigger] seen[k]) by {
                    if k < i - first {
                        assert(seen[k] == digits.take(i - first)[k]);
                    }
                }
            }
            lemma_digits_value_prefix(digits, i - first + 1);
        }
        if value > (u64::MAX - digit) / 10 {
            return None;
        }
        value = value * 10 + digit;
        i += 1;
    }
    assert(digits.take(length - first) =~= digits);
    Some(value)
}

/// The lines of `text`.
pub fn split_lines(text: &[u8]) -> (result: Vec<Vec<u8>>)
    ensures
        views(result@) == lines(text@),
{
    let mut result: Vec<Vec<u8>> = Vec::new();
    let mut start: usize = 0;
    assert(views(result@) =~= Seq::<Seq<u8>>::empty());
    while start < text.len()
        invariant
            start <= text@.len(),
            lines(text@) == views(result@) + lines_from(text@, start as int),
        decreases text@.len() - start,
    {
        let mut end: usize = start;
        while end < text.len() && text[end] != LINE_FEED
            invariant
                start <= end <= text@.len(),
                line_end(text@, end as int) == line_end(text@, start as int),
            decreases text@.len() - end,
        {
            end += 1;
        }
        let terminated: bool = end < text.len();
        let stop: usize = if terminated && start < end && text[end - 1] == CARRIAGE_RETURN {
            end - 1
        } else {
            end
        };
        let line: Vec<u8> = slice_to_vec(slice_subrange(text, start, stop));
        let ghost before = views(result@);
        result.push(line);
        proof {
            assert(line@ == line_at(text@, start as int));
            assert(views(result@) =~= before.push(line@));
            assert(before + (seq![line@] + lines_from(text@, end + 1)) =~= before.push(line@)
                + lines_from(text@, end + 1));
        }
        if terminated {
            start = end + 1;
        } else {
            start = end;
        }
    }
    assert(lines_from(text@, start as int) =~= Seq::<Seq<u8>>::empty());
    assert(views(result@) + Seq::<Seq<u8>>::empty() =~= views(result@));
    result
}

/// The fields of `line`.
pub fn split_fields(line: &[u8]) -> (result: Vec<Vec<u8>>)
    ensures
        views(result@) == fields(line@),
{
    let mut result: Vec<Vec<u8>> = Vec::new();
    let mut start: usize = 0;
    assert(views(result@) =~= Seq::<Seq<u8>>::empty());
    while start < line.len()
        invariant
            start <= line@.len(),
            fields(line@) == views(result@) + fields_from(line@, start as int),
        decreases line@.len() - start,
    {
        let byte: u8 = line[start];
        if byte == 0x20 || (0x09 <= byte && byte <= 0x0d) {
            start += 1;
        } else {
            let mut end: usize = start + 1;
            while end < line.len() && !(line[end] == 0x20 || (0x09 <= line[end] && line[end]
                <= 0x0d))
                invariant
                    start < end <= line@.len(),
                    field_end(line@, end as int) == field_end(line@, start as int),
                decreases line@.len() - end,
            {
                end += 1;
            }
            let field: Vec<u8> = slice_to_vec(slice_subrange(line, start, end));
            let ghost before = views(result@);
            result.push(field);
            proof {
                assert(views(result@) =~= before.push(field@));
                assert(before + (seq![field@] + fields_from(line@, end as int)) =~= before.push(
                    field@,
                ) + fields_from(line@, end as int));
            }
            start = end;
        }
    }
    assert(fields_from(line@, start as int) =~= Seq::<Seq<u8>>::empty());
    assert(views(result@) + Seq::<Seq<u8>>::empty() =~= views(result@));
    result
}

} // verus!
