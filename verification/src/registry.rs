//! A small registry from names to values that keeps the order in which the
//! names came in.

use crate::strings::{decimal_chars, format_u64, str_eq};
use crate::text::{all_digits, decimal, digits_of, digits_value, is_digit, parse_u64};
use vstd::prelude::*;
use vstd::utf8::{encode_utf8, is_ascii_chars, is_ascii_chars_encode_utf8};

verus! {

/// What discovery found under a name: a count or a text.
#[derive(Debug)]
pub enum Value {
    U64(u64),
    String(String),
}

/// A found value as plain values.
pub enum ValueView {
    U64(u64),
    String(Seq<char>),
}

/// What a registry holds, as plain values: names with what is found under
/// them, in the order in which the names came in.
pub type Entries = Seq<(Seq<char>, ValueView)>;

impl View for Value {
    type V = ValueView;

    open spec fn view(&self) -> ValueView {
        match self {
            Value::U64(number) => ValueView::U64(*number),
            Value::String(text) => ValueView::String(text@),
        }
    }
}

impl ValueView {
    /// The value as text: a count in decimal digits, a text as it is.
    pub open spec fn text(self) -> Seq<char> {
        match self {
            ValueView::U64(number) => decimal_chars(number as nat),
            ValueView::String(text) => text,
        }
    }

    /// The value as a count: a count as it is, a text if it writes an
    /// unsigned decimal number that fits 64 bits.
    pub open spec fn number(self) -> Option<u64> {
        match self {
            ValueView::U64(number) => Some(number),
            ValueView::String(text) => decimal(encode_utf8(text)),
        }
    }
}

impl Clone for Value {
    fn clone(&self) -> (copy: Value)
        ensures
            copy@ == self@,
    {
        match self {
            Value::U64(number) => Value::U64(*number),
            Value::String(text) => Value::String(text.clone()),
        }
    }
}

impl Value {
    /// The value as a count, if it is one.
    pub fn to_u64(&self) -> (number: Option<u64>)
        ensures
            number == self@.number(),
    {
        match self {
            Value::U64(number) => Some(*number),
            Value::String(text) => parse_u64(text.as_str().as_bytes()),
        }
    }

    /// The value as text.
    pub fn to_string(&self) -> (text: String)
        ensures
            text@ == self@.text(),
    {
        match self {
            Value::U64(number) => format_u64(*number),
            Value::String(text) => text.clone(),
        }
    }
}

/// The characters `chars` as bytes, one for one.
pub open spec fn narrowed(chars: Seq<char>) -> Seq<u8> {
    Seq::new(chars.len(), |i: int| chars[i] as u8)
}

/// A number in decimal is one digit or more, all of them plain digits, and
/// the digits write the number.
pub proof fn lemma_decimal_chars(value: nat)
    ensures
        decimal_chars(value).len() >= 1,
        is_ascii_chars(decimal_chars(value)),
        all_digits(narrowed(decimal_chars(value))),
        digits_value(narrowed(decimal_chars(value))) == value,
    decreases value,
{
    let chars = decimal_chars(value);
    if value < 10 {
        assert(narrowed(chars).drop_last() =~= Seq::<u8>::empty());
        assert(digits_value(narrowed(chars).drop_last()) == 0);
    } else {
        lemma_decimal_chars(value / 10);
        let front = decimal_chars(value / 10);
        assert(narrowed(chars).drop_last() =~= narrowed(front));
        assert forall|i: int| 0 <= i < chars.len() implies '\0' <= #[trigger] chars[i]
            <= '\u{7f}' by {
            if i < front.len() {
                assert(chars[i] == front[i]);
            }
        }
        assert forall|i: int| 0 <= i < chars.len() implies is_digit(
            #[trigger] narrowed(chars)[i],
        ) by {
            if i < front.len() {
                assert(narrowed(chars)[i] == narrowed(front)[i]);
            }
        }
    }
}

/// A count that is written as text reads back as the same count.
pub proof fn lemma_text_reads_back(number: u64)
    ensures
        ValueView::String(ValueView::U64(number).text()).number() == Some(number),
{
    let chars = decimal_chars(number as nat);
    lemma_decimal_chars(number as nat);
    is_ascii_chars_encode_utf8(chars);
    assert(encode_utf8(chars) =~= narrowed(chars));
    assert(is_digit(narrowed(chars)[0]));
    assert(digits_of(narrowed(chars)) == narrowed(chars));
}

/// The index of the first entry of `list` at or after `from` whose name is
/// `key`, or the length of `list` where there is none.
pub open spec fn find_from<V>(list: Seq<(Seq<char>, V)>, key: Seq<char>, from: int) -> int
    decreases list.len() - from,
{
    if 0 <= from < list.len() && list[from].0 != key {
        find_from(list, key, from + 1)
    } else {
        from
    }
}

/// The index of the first entry of `list` whose name is `key`, or the length
/// of `list`.
pub open spec fn find<V>(list: Seq<(Seq<char>, V)>, key: Seq<char>) -> int {
    find_from(list, key, 0)
}

/// What `list` holds under `key`.
pub open spec fn lookup<V>(list: Seq<(Seq<char>, V)>, key: Seq<char>) -> Option<V> {
    if find(list, key) < list.len() {
        Some(list[find(list, key)].1)
    } else {
        None
    }
}

/// `list` with `value` under `key`: in the place of what was there under that
/// name, or at the end where the name is new.
pub open spec fn upserted<V>(list: Seq<(Seq<char>, V)>, key: Seq<char>, value: V) -> Seq<
    (Seq<char>, V),
> {
    if find(list, key) < list.len() {
        list.update(find(list, key), (key, value))
    } else {
        list.push((key, value))
    }
}

/// Whether no two entries of `list` share a name.
pub open spec fn distinct_keys<V>(list: Seq<(Seq<char>, V)>) -> bool {
    forall|i: int, j: int|
        0 <= i < j < list.len() ==> (#[trigger] list[i]).0 != (#[trigger] list[j]).0
}

/// Those entries of `list` whose mark in `marks` is set, in order. An entry
/// without a mark is dropped.
pub open spec fn kept<V>(list: Seq<(Seq<char>, V)>, marks: Seq<bool>) -> Seq<(Seq<char>, V)>
    decreases list.len(),
{
    if list.len() == 0 {
        list
    } else if list.len() <= marks.len() && marks[list.len() - 1] {
        kept(list.drop_last(), marks).push(list.last())
    } else {
        kept(list.drop_last(), marks)
    }
}

/// The first entry with a name is found at or after the start of the
/// search; no entry before it has the name, and it has the name unless the
/// list ended first.
pub proof fn lemma_find_from<V>(list: Seq<(Seq<char>, V)>, key: Seq<char>, from: int)
    requires
        0 <= from <= list.len(),
    ensures
        from <= find_from(list, key, from) <= list.len(),
        forall|i: int| from <= i < find_from(list, key, from) ==> (#[trigger] list[i]).0 != key,
        find_from(list, key, from) < list.len() ==> list[find_from(list, key, from)].0 == key,
    decreases list.len() - from,
{
    if from < list.len() && list[from].0 != key {
        lemma_find_from(list, key, from + 1);
    }
}

/// Putting a value under a name keeps the names distinct, and the value is
/// what is then found under the name, while every other name holds what it
/// held.
pub proof fn lemma_upserted<V>(
    list: Seq<(Seq<char>, V)>,
    key: Seq<char>,
    value: V,
    other: Seq<char>,
)
    requires
        distinct_keys(list),
    ensures
        distinct_keys(upserted(list, key, value)),
        lookup(upserted(list, key, value), key) == Some(value),
        other != key ==> lookup(upserted(list, key, value), other) == lookup(list, other),
{
    let after = upserted(list, key, value);
    let place = find(list, key);
    lemma_find_from(list, key, 0);
    lemma_find_from(after, key, 0);
    lemma_find_from(list, other, 0);
    lemma_find_from(after, other, 0);
    assert(after[place].0 == key);
    if find(after, key) < place {
        assert(list[find(after, key)].0 != key);
    }
    if other != key {
        let before_at = find(list, other);
        let after_at = find(after, other);
        if before_at < list.len() {
            assert(after[before_at] == list[before_at]);
            if after_at < before_at {
                assert(list[after_at].0 != other);
            }
        } else if after_at < after.len() {
            if after_at < list.len() {
                assert(list[after_at].0 != other);
            }
        }
    }
    assert forall|i: int, j: int| 0 <= i < j < after.len() implies (#[trigger] after[i]).0 != (
    #[trigger] after[j]).0 by {
        if j < list.len() {
            assert(list[i].0 != list[j].0);
        } else {
            assert(list[i].0 != key);
        }
    }
}

/// Keeping some entries of a list without a name twice leaves a list without
/// a name twice, and a name that the list lacks is not among those kept.
pub proof fn lemma_kept_distinct<V>(list: Seq<(Seq<char>, V)>, marks: Seq<bool>, key: Seq<char>)
    ensures
        kept(list, marks).len() <= list.len(),
        (forall|i: int| 0 <= i < list.len() ==> (#[trigger] list[i]).0 != key) ==> (forall|k: int|
            0 <= k < kept(list, marks).len() ==> (#[trigger] kept(list, marks)[k]).0 != key),
        distinct_keys(list) ==> distinct_keys(kept(list, marks)),
    decreases list.len(),
{
    if list.len() > 0 {
        let front = list.drop_last();
        lemma_kept_distinct(front, marks, key);
        lemma_kept_distinct(front, marks, list.last().0);
        assert forall|i: int| 0 <= i < front.len() implies (#[trigger] front[i]).0
            == list[i].0 by {}
        if distinct_keys(list) {
            assert forall|i: int, j: int| 0 <= i < j < front.len() implies (#[trigger] front[i]).0
                != (#[trigger] front[j]).0 by {
                assert(list[i].0 != list[j].0);
            }
            assert forall|i: int| 0 <= i < front.len() implies (#[trigger] front[i]).0
                != list.last().0 by {
                assert(list[i].0 != list[list.len() - 1].0);
            }
        }
    }
}

/// What discovery found, name by name. A new registry holds no name twice,
/// and neither `insert` nor the selection of entries changes that.
#[derive(Debug)]
pub struct Detected {
    entries: Vec<(String, Value)>,
}

impl View for Detected {
    type V = Entries;

    closed spec fn view(&self) -> Entries {
        Seq::new(self.entries@.len(), |i: int| (self.entries@[i].0@, self.entries@[i].1@))
    }
}

impl Detected {
    /// A registry that holds nothing.
    pub fn new() -> (detected: Detected)
        ensures
            detected@ == Entries::empty(),
            distinct_keys(detected@),
    {
        let detected: Detected = Detected { entries: Vec::new() };
        assert(detected@ =~= Entries::empty());
        detected
    }

    /// The number of names.
    pub fn len(&self) -> (count: usize)
        ensures
            count == self@.len(),
    {
        self.entries.len()
    }

    /// The index of the entry under `key`, or the number of names where there
    /// is none.
    pub fn position(&self, key: &str) -> (index: usize)
        ensures
            index == find(self@, key@),
    {
        let mut i: usize = 0;
        while i < self.entries.len()
            invariant
                i <= self.entries@.len(),
                find(self@, key@) == find_from(self@, key@, i as int),
            decreases self.entries@.len() - i,
        {
            if str_eq(self.entries[i].0.as_str(), key) {
                return i;
            }
            i += 1;
        }
        i
    }

    /// The name at `index`.
    pub fn key_at(&self, index: usize) -> (key: &String)
        requires
            index < self@.len(),
        ensures
            key@ == self@[index as int].0,
    {
        &self.entries[index].0
    }

    /// The value at `index`.
    pub fn value_at(&self, index: usize) -> (value: &Value)
        requires
            index < self@.len(),
        ensures
            value@ == self@[index as int].1,
    {
        &self.entries[index].1
    }

    /// What is held under `key`.
    pub fn get(&self, key: &str) -> (value: Option<&Value>)
        ensures
            match value {
                Some(found) => lookup(self@, key@) == Some(found@),
                None => lookup(self@, key@) is None,
            },
    {
        let index: usize = self.position(key);
        if index < self.entries.len() {
            Some(&self.entries[index].1)
        } else {
            None
        }
    }

    /// Puts `value` under `key` at the end, whatever is held already.
    pub(crate) fn push(&mut self, key: String, value: Value)
        ensures
            final(self)@ == old(self)@.push((key@, value@)),
    {
        let ghost before = self@;
        self.entries.push((key, value));
        assert(self@ =~= before.push((key@, value@)));
    }

    /// Puts `value` under `key`, in the place of what was there under that
    /// name or at the end where the name is new.
    pub fn insert(&mut self, key: String, value: Value)
        ensures
            final(self)@ == upserted(old(self)@, key@, value@),
            distinct_keys(old(self)@) ==> distinct_keys(final(self)@),
    {
        proof {
            if distinct_keys(self@) {
                lemma_upserted(self@, key@, value@, key@);
            }
        }
        let index: usize = self.position(key.as_str());
        let ghost before = self@;
        if index < self.entries.len() {
            self.entries[index] = (key, value);
        } else {
            self.entries.push((key, value));
        }
        assert(self@ =~= upserted(before, key@, value@));
    }
}

} // verus!
