//! What the tray decides before it touches a widget: where an icon lies in
//! the atlas, how a menu falls into sections, and which cached widgets a menu
//! no longer needs.

use crate::error::SensorError;
use crate::pattern::{regex_compiles, regex_is_match, regex_search};
use crate::strings::{occurs_at, starts_with, str_eq, texts};
use vstd::prelude::*;

verus! {

/// Side of an icon in pixels.
pub const ICON_SIZE: u32 = 16;

/// Icons in one row of the atlas.
pub const ICONS_PER_ROW: u32 = 4;

/// Icons that the atlas holds.
pub const ICON_CAPACITY: u32 = 16;

/// A rectangle of the icon atlas.
#[derive(Clone, Copy, Debug, PartialEq, Eq, Structural)]
pub struct IconRect {
    pub left: u32,
    pub bottom: u32,
    pub width: u32,
    pub height: u32,
}

/// The cell of the atlas that belongs to the icon `id`, if the atlas has
/// one: cells are counted row by row from the bottom left.
pub fn icon_rect(id: u32) -> (rect: Option<IconRect>)
    ensures
        id < ICON_CAPACITY ==> rect == Some(
            IconRect {
                left: (id % ICONS_PER_ROW * ICON_SIZE) as u32,
                bottom: (id / ICONS_PER_ROW * ICON_SIZE) as u32,
                width: ICON_SIZE,
                height: ICON_SIZE,
            },
        ),
        id >= ICON_CAPACITY ==> rect is None,
{
    if id >= ICON_CAPACITY {
        None
    } else {
        Some(
            IconRect {
                left: id % ICONS_PER_ROW * ICON_SIZE,
                bottom: id / ICONS_PER_ROW * ICON_SIZE,
                width: ICON_SIZE,
                height: ICON_SIZE,
            },
        )
    }
}

/// The sections of a menu whose items are separators where `separators`
/// says so: the indices of the items, cut before every separator, so that a
/// separator opens the section that follows it. The first section is what
/// stands before the first separator, and may be empty.
pub open spec fn sections_of(separators: Seq<bool>) -> Seq<Seq<int>>
    decreases separators.len(),
{
    if separators.len() == 0 {
        seq![Seq::<int>::empty()]
    } else {
        let before = sections_of(separators.drop_last());
        let index = separators.len() - 1;
        if separators.last() {
            before.push(seq![index])
        } else {
            before.update(before.len() - 1, before.last().push(index))
        }
    }
}

/// There is always a first section.
pub proof fn lemma_sections_not_empty(separators: Seq<bool>)
    ensures
        sections_of(separators).len() >= 1,
    decreases separators.len(),
{
    if separators.len() > 0 {
        lemma_sections_not_empty(separators.drop_last());
    }
}

/// The indices that `section` holds.
pub open spec fn indices(section: Seq<usize>) -> Seq<int> {
    Seq::new(section.len(), |k: int| section[k] as int)
}

/// The indices that the vectors of `sections` hold.
pub open spec fn index_views(sections: Seq<Vec<usize>>) -> Seq<Seq<int>> {
    Seq::new(sections.len(), |i: int| indices(sections[i]@))
}

/// The sections of a menu, as the indices of its items.
pub fn to_sections(separators: &Vec<bool>) -> (sections: Vec<Vec<usize>>)
    ensures
        index_views(sections@) == sections_of(separators@),
{
    let mut sections: Vec<Vec<usize>> = Vec::new();
    let mut section: Vec<usize> = Vec::new();
    let ghost mut closed: Seq<Seq<int>> = Seq::empty();
    let mut i: usize = 0;
    assert(separators@.take(0) =~= Seq::<bool>::empty());
    assert(indices(section@) =~= Seq::<int>::empty());
    assert(closed.push(Seq::<int>::empty()) =~= seq![Seq::<int>::empty()]);
    assert(index_views(sections@) =~= closed);
    while i < separators.len()
        invariant
            i <= separators@.len(),
            index_views(sections@) == closed,
            sections_of(separators@.take(i as int)) == closed.push(indices(section@)),
        decreases separators@.len() - i,
    {
        let ghost open = indices(section@);
        proof {
            let next = separators@.take(i + 1);
            assert(next.drop_last() =~= separators@.take(i as int));
            assert(next.last() == separators@[i as int]);
        }
        if separators[i] {
            sections.push(section);
            section = Vec::new();
            proof {
                assert(index_views(sections@) =~= closed.push(open));
                closed = closed.push(open);
            }
            section.push(i);
            proof {
                assert(indices(section@) =~= seq![i as int]);
            }
        } else {
            section.push(i);
            proof {
                assert(indices(section@) =~= open.push(i as int));
                assert(closed.push(open).update(closed.len() as int, open.push(i as int))
                    =~= closed.push(open.push(i as int)));
            }
        }
        i += 1;
    }
    let ghost open = indices(section@);
    sections.push(section);
    proof {
        assert(separators@.take(i as int) =~= separators@);
        assert(index_views(sections@) =~= closed.push(open));
    }
    sections
}

/// Those of `keys`, in order, that begin with `prefix` and are none of
/// `touched`.
pub open spec fn unused_of(keys: Seq<Seq<char>>, prefix: Seq<char>, touched: Seq<Seq<char>>) -> Seq<
    Seq<char>,
>
    decreases keys.len(),
{
    if keys.len() == 0 {
        keys
    } else if occurs_at(keys.last(), prefix, 0) && !touched.contains(keys.last()) {
        unused_of(keys.drop_last(), prefix, touched).push(keys.last())
    } else {
        unused_of(keys.drop_last(), prefix, touched)
    }
}

/// Whether `key` is one of `touched`.
pub fn is_touched(key: &str, touched: &Vec<String>) -> (found: bool)
    ensures
        found == texts(touched@).contains(key@),
{
    let mut i: usize = 0;
    while i < touched.len()
        invariant
            i <= touched@.len(),
            forall|k: int| 0 <= k < i ==> texts(touched@)[k] != key@,
        decreases touched@.len() - i,
    {
        if str_eq(touched[i].as_str(), key) {
            assert(texts(touched@)[i as int] == key@);
            return true;
        }
        i += 1;
    }
    false
}

/// The cached widgets that a menu no longer needs: those of `keys` that
/// belong to the menu with the key prefix `prefix` and were not touched while
/// the menu was rebuilt.
pub fn unused_keys(keys: &Vec<String>, prefix: &str, touched: &Vec<String>) -> (unused: Vec<String>)
    ensures
        texts(unused@) == unused_of(texts(keys@), prefix@, texts(touched@)),
{
    let mut unused: Vec<String> = Vec::new();
    let mut i: usize = 0;
    assert(texts(keys@).take(0) =~= Seq::<Seq<char>>::empty());
    assert(texts(unused@) =~= Seq::<Seq<char>>::empty());
    while i < keys.len()
        invariant
            i <= keys@.len(),
            texts(unused@) == unused_of(
                texts(keys@).take(i as int),
                prefix@,
                texts(touched@),
            ),
        decreases keys@.len() - i,
    {
        proof {
            let next = texts(keys@).take(i + 1);
            assert(next.drop_last() =~= texts(keys@).take(i as int));
            assert(next.last() == keys@[i as int]@);
        }
        if starts_with(keys[i].as_str(), prefix) && !is_touched(keys[i].as_str(), touched) {
            let ghost before = texts(unused@);
            let key: String = keys[i].clone();
            unused.push(key);
            assert(texts(unused@) =~= before.push(keys@[i as int]@));
        }
        i += 1;
    }
    assert(texts(keys@).take(i as int) =~= texts(keys@));
    unused
}

/// The pattern of the key under which a submenu is cached.
pub open spec fn submenu_pattern() -> Seq<char> {
    "submenu/[^/]+$"@
}

/// Whether `key` is the key of a cached submenu.
pub fn is_submenu_key(key: &str) -> (result: Result<bool, SensorError>)
    ensures
        match result {
            Ok(found) => regex_compiles(submenu_pattern()) && found == regex_is_match(
                submenu_pattern(),
                key@,
            ),
            Err(error) => !regex_compiles(submenu_pattern()) && error == SensorError::BadPattern,
        },
{
    match regex_search("submenu/[^/]+$", key) {
        Some(found) => Ok(found),
        None => Err(SensorError::BadPattern),
    }
}

} // verus!
