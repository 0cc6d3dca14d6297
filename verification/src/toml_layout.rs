//! How a TOML document is written, beside what it holds: its comments, its white
//! space, the order of its entries and the form of its values.

use vstd::prelude::*;

verus! {

/// How an item is written.
#[verifier::ext_equal]
pub enum Layout {
    /// There is no item.
    Nothing,
    /// A plain value, with its form and the white space and comments around it.
    Value(Seq<char>),
    /// An array of values.
    List(ListLayout),
    /// An inline table.
    Inline(TableLayout),
    /// A table with its own header.
    Section(TableLayout),
    /// An array of tables.
    Sections(Seq<Layout>),
}

/// How an array of values is written.
#[verifier::ext_equal]
pub struct ListLayout {
    /// What is written around the values.
    pub frame: Seq<char>,
    pub values: Seq<Layout>,
}

/// How a table of either form is written.
#[verifier::ext_equal]
pub struct TableLayout {
    /// What is written around its header or its braces, and where a table with a
    /// header stands in the document.
    pub frame: Seq<char>,
    pub entries: Map<Seq<char>, EntryLayout>,
}

/// How an entry of a table is written.
#[verifier::ext_equal]
pub struct EntryLayout {
    /// The form of the key, with the white space and comments around it.
    pub key: Seq<char>,
    /// How many entries of the table stand before it.
    pub at: int,
    pub item: Layout,
}

/// How the item under a key is written.
pub open spec fn layout_at(table: TableLayout, key: Seq<char>) -> Layout {
    if table.entries.contains_key(key) {
        table.entries[key].item
    } else {
        Layout::Nothing
    }
}

/// How a table of either form is written.
pub open spec fn like_layout(item: Layout) -> Option<TableLayout> {
    match item {
        Layout::Inline(table) => Some(table),
        Layout::Section(table) => Some(table),
        _ => None,
    }
}

/// How the item under a key of a table of either form is written.
pub open spec fn layout_in(item: Layout, key: Seq<char>) -> Layout {
    match like_layout(item) {
        Some(table) => layout_at(table, key),
        None => Layout::Nothing,
    }
}

/// How the table under a key is written, where one with its own header stands
/// there.
pub open spec fn section_layout(table: TableLayout, key: Seq<char>) -> Option<TableLayout> {
    match layout_at(table, key) {
        Layout::Section(inner) => Some(inner),
        _ => None,
    }
}

/// How the tables under a key are written, where an array of tables stands
/// there.
pub open spec fn sections_layout(table: TableLayout, key: Seq<char>) -> Option<Seq<Layout>> {
    match layout_at(table, key) {
        Layout::Sections(inner) => Some(inner),
        _ => None,
    }
}

/// How the values under a key are written, where an array of values stands
/// there.
pub open spec fn list_layout(table: TableLayout, key: Seq<char>) -> Option<ListLayout> {
    match layout_at(table, key) {
        Layout::List(inner) => Some(inner),
        _ => None,
    }
}

/// A table with the item under one of its keys written otherwise.
pub open spec fn with_item_layout(table: TableLayout, key: Seq<char>, item: Layout) -> TableLayout {
    TableLayout {
        entries: table.entries.insert(key, EntryLayout { item, ..table.entries[key] }),
        ..table
    }
}

/// The keys that are `key`, where it is written at all.
pub open spec fn only(key: Seq<char>, written: bool) -> spec_fn(Seq<char>) -> bool {
    |other: Seq<char>| written && other == key
}

/// No key at all.
pub open spec fn no_key() -> spec_fn(Seq<char>) -> bool {
    |other: Seq<char>| false
}

/// Whether a table is written as before, but for the items under some keys: its
/// header, every key in its place, and every other item keep their form and
/// their comments.
pub open spec fn kept_but(
    from: TableLayout,
    to: TableLayout,
    written: spec_fn(Seq<char>) -> bool,
) -> bool {
    &&& to.frame == from.frame
    &&& forall|key: Seq<char>| #[trigger]
        from.entries.contains_key(key) ==> {
            &&& to.entries.contains_key(key)
            &&& to.entries[key].key == from.entries[key].key
            &&& to.entries[key].at == from.entries[key].at
            &&& !written(key) ==> to.entries[key].item == from.entries[key].item
        }
}

/// Whether one entry of a table stands before another.
pub open spec fn stands_before(table: TableLayout, first: Seq<char>, second: Seq<char>) -> bool {
    table.entries[first].at < table.entries[second].at
}

/// Whether a table is written as before, but for the items under some keys and
/// but for some keys that are taken out, or taken out and put in again: every
/// other entry keeps its form and its comments, and their order stays.
pub open spec fn edited(
    from: TableLayout,
    to: TableLayout,
    written: spec_fn(Seq<char>) -> bool,
    removed: spec_fn(Seq<char>) -> bool,
) -> bool {
    &&& to.frame == from.frame
    &&& forall|key: Seq<char>| #[trigger]
        from.entries.contains_key(key) && !removed(key) ==> {
            &&& to.entries.contains_key(key)
            &&& to.entries[key].key == from.entries[key].key
            &&& !written(key) ==> to.entries[key].item == from.entries[key].item
        }
    &&& forall|first: Seq<char>, second: Seq<char>|
        #![trigger from.entries.contains_key(first), from.entries.contains_key(second)]
        from.entries.contains_key(first) && from.entries.contains_key(second) && !removed(first)
            && !removed(second) ==> stands_before(to, first, second) == stands_before(
            from,
            first,
            second,
        )
}

/// Whether a table of either form is still one of that form, and written as
/// before, but for the items under some keys. Nothing is said of another item.
pub open spec fn item_kept_but(
    from: Layout,
    to: Layout,
    written: spec_fn(Seq<char>) -> bool,
) -> bool {
    match from {
        Layout::Inline(before) => to is Inline && kept_but(before, to->Inline_0, written),
        Layout::Section(before) => to is Section && kept_but(before, to->Section_0, written),
        _ => true,
    }
}

/// Whether a table of either form is still one of that form, and written as
/// before but for some of its entries. Nothing is said of another item.
pub open spec fn like_edited(
    from: Layout,
    to: Layout,
    written: spec_fn(Seq<char>) -> bool,
    removed: spec_fn(Seq<char>) -> bool,
) -> bool {
    match from {
        Layout::Inline(before) => to is Inline && edited(before, to->Inline_0, written, removed),
        Layout::Section(before) => to is Section && edited(before, to->Section_0, written, removed),
        _ => true,
    }
}

/// Whether a table of either form is still one of that form, and written as
/// before but for some of its entries; and any other item is written as before.
pub open spec fn item_edited(
    from: Layout,
    to: Layout,
    written: spec_fn(Seq<char>) -> bool,
    removed: spec_fn(Seq<char>) -> bool,
) -> bool {
    &&& like_edited(from, to, written, removed)
    &&& like_layout(from) is None ==> to == from
}

/// Whether the table under a key, where there is one of either form, is still one
/// of that form, and written as before, but for the items under some of its keys.
pub open spec fn inner_kept_but(
    from: TableLayout,
    to: TableLayout,
    key: Seq<char>,
    written: spec_fn(Seq<char>) -> bool,
) -> bool {
    item_kept_but(layout_at(from, key), layout_at(to, key), written)
}

/// Whether a table with its own header is still one, and written as before but
/// for some of its entries.
pub open spec fn section_edited(
    from: Layout,
    to: Layout,
    written: spec_fn(Seq<char>) -> bool,
    removed: spec_fn(Seq<char>) -> bool,
) -> bool {
    &&& from is Section
    &&& to is Section
    &&& edited(from->Section_0, to->Section_0, written, removed)
}

/// Whether the tables under a key, where there is an array of tables, are written
/// as before, with one more behind them.
pub open spec fn grown(from: TableLayout, to: TableLayout, key: Seq<char>) -> bool {
    sections_layout(from, key) is Some ==> sections_layout(to, key) is Some && one_more(
        sections_layout(from, key)->0,
        sections_layout(to, key)->0,
    )
}

/// Whether a table is written as before, but that the array of tables under a key
/// has one more table behind the others.
pub open spec fn adds_table(from: TableLayout, to: TableLayout, key: Seq<char>) -> bool {
    kept_but(from, to, only(key, true)) && grown(from, to, key)
}

/// Whether a sequence of items is written as before, with one more behind them.
pub open spec fn one_more(from: Seq<Layout>, to: Seq<Layout>) -> bool {
    to.len() == from.len() + 1 && to.drop_last() == from
}

/// Whether the element at a position of an array of tables is a table that is
/// written as before but for some of its entries, and every other element is
/// written as before.
pub open spec fn one_edited(
    from: Seq<Layout>,
    to: Seq<Layout>,
    position: int,
    written: spec_fn(Seq<char>) -> bool,
    removed: spec_fn(Seq<char>) -> bool,
) -> bool {
    &&& 0 <= position < from.len()
    &&& to == from.update(position, to[position])
    &&& section_edited(from[position], to[position], written, removed)
}

pub(crate) proof fn lemma_kept_is_edited(
    from: TableLayout,
    to: TableLayout,
    only_written: spec_fn(Seq<char>) -> bool,
    written: spec_fn(Seq<char>) -> bool,
    removed: spec_fn(Seq<char>) -> bool,
)
    requires
        kept_but(from, to, only_written),
        forall|key: Seq<char>| #[trigger] only_written(key) ==> written(key) || removed(key),
    ensures
        edited(from, to, written, removed),
{
}

pub(crate) proof fn lemma_edited_further(
    from: TableLayout,
    mid: TableLayout,
    to: TableLayout,
    written: spec_fn(Seq<char>) -> bool,
    removed: spec_fn(Seq<char>) -> bool,
    step_written: spec_fn(Seq<char>) -> bool,
    step_removed: spec_fn(Seq<char>) -> bool,
)
    requires
        edited(from, mid, written, removed),
        edited(mid, to, step_written, step_removed),
        forall|key: Seq<char>| #[trigger] step_written(key) ==> written(key) || removed(key),
        forall|key: Seq<char>| #[trigger] step_removed(key) ==> removed(key),
    ensures
        edited(from, to, written, removed),
{
    assert forall|key: Seq<char>| #[trigger]
        from.entries.contains_key(key) && !removed(key) implies to.entries.contains_key(key)
        && to.entries[key].key == from.entries[key].key && (!written(key)
        ==> to.entries[key].item == from.entries[key].item) by {
        assert(mid.entries.contains_key(key));
        assert(!step_removed(key));
        if !written(key) {
            assert(!step_written(key));
        }
    }
    assert forall|first: Seq<char>, second: Seq<char>|
        #![trigger from.entries.contains_key(first), from.entries.contains_key(second)]
        from.entries.contains_key(first) && from.entries.contains_key(second) && !removed(first)
            && !removed(second) implies stands_before(to, first, second) == stands_before(
        from,
        first,
        second,
    ) by {
        assert(mid.entries.contains_key(first) && mid.entries.contains_key(second));
        assert(!step_removed(first) && !step_removed(second));
    }
}

} // verus!
