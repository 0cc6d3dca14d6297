//! TOML documents: contracts for the parts of `toml_edit` that configuration
//! edits call, and the edits that every section shares.
//!
//! A document is seen as a map from keys to nodes. How it is written is a second
//! view, beside the first.

use crate::text::{text_eq, view_of, views};
use crate::toml_layout::{
    edited, item_kept_but, kept_but, layout_at, layout_in, like_layout, no_key, one_more, only,
    section_layout, sections_layout, with_item_layout, Layout, ListLayout, TableLayout,
};
use toml_edit::{Array, ArrayOfTables, DocumentMut, InlineTable, Item, Table};
use vstd::prelude::*;

verus! {

/// The entries of a table.
pub type Entries = Map<Seq<char>, TomlNode>;

/// What a TOML item holds.
#[verifier::ext_equal]
pub enum TomlNode {
    /// No item at all.
    Absent,
    Text(Seq<char>),
    Integer(int),
    Flag(bool),
    /// A float or a date-time, by its printed form.
    Other(Seq<char>),
    /// An array of values.
    List(Seq<TomlNode>),
    /// An inline table.
    Inline(Map<Seq<char>, TomlNode>),
    /// A table with its own header.
    Section(Map<Seq<char>, TomlNode>),
    /// An array of tables, by its elements.
    Sections(Seq<TomlNode>),
}

#[verifier::external_type_specification]
#[verifier::external_body]
pub struct ExItem(Item);

#[verifier::external_type_specification]
#[verifier::external_body]
pub struct ExTable(Table);

#[verifier::external_type_specification]
#[verifier::external_body]
pub struct ExArrayOfTables(ArrayOfTables);

#[verifier::external_type_specification]
#[verifier::external_body]
pub struct ExArray(Array);

#[verifier::external_type_specification]
#[verifier::external_body]
pub struct ExInlineTable(InlineTable);

#[verifier::external_type_specification]
#[verifier::external_body]
pub struct ExDocumentMut(DocumentMut);

/// What an item holds.
pub uninterp spec fn item_node(item: Item) -> TomlNode;

/// The keys of a table that hold an item, with what each holds.
pub uninterp spec fn table_entries(table: Table) -> Map<Seq<char>, TomlNode>;

/// The elements of an array of tables, in order. Each is a `Section`, unless the
/// array was changed item by item.
pub uninterp spec fn tables_of(tables: ArrayOfTables) -> Seq<TomlNode>;

/// The values of an array, in order.
pub uninterp spec fn array_nodes(array: Array) -> Seq<TomlNode>;

/// The entries of an inline table.
pub uninterp spec fn inline_entries(table: InlineTable) -> Map<Seq<char>, TomlNode>;

/// The entries of a document's root table.
pub uninterp spec fn document_entries(doc: DocumentMut) -> Map<Seq<char>, TomlNode>;

/// How an item is written.
pub uninterp spec fn item_layout(item: Item) -> Layout;

/// How a table is written.
pub uninterp spec fn table_layout(table: Table) -> TableLayout;

/// How the elements of an array of tables are written, in order.
pub uninterp spec fn tables_layout(tables: ArrayOfTables) -> Seq<Layout>;

/// How an array is written.
pub uninterp spec fn array_layout(array: Array) -> ListLayout;

/// How an inline table is written.
pub uninterp spec fn inline_layout(table: InlineTable) -> TableLayout;

/// How the root table of a document is written.
pub uninterp spec fn document_layout(doc: DocumentMut) -> TableLayout;

/// What is written behind the last entry of a document.
pub uninterp spec fn document_trailing(doc: DocumentMut) -> Seq<char>;

/// A document, by what it holds and how it is written.
#[verifier::ext_equal]
pub struct TomlText {
    pub entries: Map<Seq<char>, TomlNode>,
    pub layout: TableLayout,
    pub trailing: Seq<char>,
}

/// What a document holds and how it is written.
pub open spec fn toml_text(doc: DocumentMut) -> TomlText {
    TomlText {
        entries: document_entries(doc),
        layout: document_layout(doc),
        trailing: document_trailing(doc),
    }
}

/// What parsing a text as TOML gives, or `None` where it is not TOML.
pub uninterp spec fn parsed_toml(content: Seq<char>) -> Option<TomlText>;

/// The entries that parsing a text as TOML gives, or `None` where it is not
/// TOML.
pub open spec fn parsed_entries(content: Seq<char>) -> Option<Entries> {
    match parsed_toml(content) {
        Some(parsed) => Some(parsed.entries),
        None => None,
    }
}

/// Whether the root item of a document is a table.
pub uninterp spec fn root_is_table(doc: DocumentMut) -> bool;

/// The text that a document prints as.
pub uninterp spec fn printed(doc: DocumentMut) -> Seq<char>;

/// Whether `text` is the printed form of a document with these entries, that is
/// written as another one was, but for what an edit changes: `keeps` tells of the
/// two layouts.
pub open spec fn prints_edit(
    text: Seq<char>,
    before: TomlText,
    entries: Entries,
    keeps: spec_fn(TableLayout, TableLayout) -> bool,
) -> bool {
    exists|doc: DocumentMut| #[trigger]
        printed(doc) == text && document_entries(doc) == entries && document_trailing(doc)
            == before.trailing && keeps(before.layout, document_layout(doc))
}

pub open spec fn no_entries() -> Entries {
    Map::empty()
}

pub open spec fn no_nodes() -> Seq<TomlNode> {
    Seq::empty()
}

/// `toml_edit::Table::new`: a table without entries.
pub assume_specification[ Table::new ]() -> (fresh: Table)
    ensures
        table_entries(fresh) == no_entries(),
;

/// `toml_edit::Table::get`: the item under a key, if the key holds one.
pub assume_specification<'a>[ Table::get ](table: &'a Table, key: &str) -> (found: Option<&'a Item>)
    ensures
        found is Some <==> table_entries(*table).contains_key(key@),
        found is Some ==> item_node(*found->0) == table_entries(*table)[key@] && item_node(*found->0)
            !is Absent,
        layout_at(table_layout(*table), key@) == match found {
            Some(item) => item_layout(*item),
            None => Layout::Nothing,
        },
;

/// `toml_edit::Table::get_mut`: the item under a key, if the key holds one. What
/// is left in it is what the table then holds under that key. All else stays as
/// it is written.
pub assume_specification<'a>[ Table::get_mut ](
    table: &'a mut Table,
    key: &str,
) -> (found: Option<&'a mut Item>)
    ensures
        match found {
            Some(item) => table_entries(*old(table)).contains_key(key@) && item_node(*item)
                == table_entries(*old(table))[key@] && item_node(*item) !is Absent && (item_node(
                *final(item),
            ) !is Absent ==> table_entries(*final(table)) == table_entries(*old(table)).insert(
                key@,
                item_node(*final(item)),
            )),
            None => !table_entries(*old(table)).contains_key(key@) && table_entries(*final(table))
                == table_entries(*old(table)),
        },
        match found {
            Some(item) => table_layout(*old(table)).entries.contains_key(key@) && item_layout(*item)
                == table_layout(*old(table)).entries[key@].item && table_layout(*final(table))
                == with_item_layout(
                table_layout(*old(table)),
                key@,
                item_layout(*final(item)),
            ),
            None => table_layout(*final(table)) == table_layout(*old(table)),
        },
;

/// `toml_edit::Table::contains_key`: whether a key holds an item.
pub assume_specification[ Table::contains_key ](table: &Table, key: &str) -> (found: bool)
    ensures
        found == table_entries(*table).contains_key(key@),
        !found ==> layout_at(table_layout(*table), key@) is Nothing,
;

/// `toml_edit::Table::remove`: takes a key out of the table, if it is there. All
/// else stays as it is written, in its order.
pub assume_specification[ Table::remove ](table: &mut Table, key: &str) -> (taken: Option<Item>)
    ensures
        table_entries(*final(table)) == table_entries(*old(table)).remove(key@),
        edited(table_layout(*old(table)), table_layout(*final(table)), no_key(), only(key@, true)),
        !table_layout(*final(table)).entries.contains_key(key@),
;

/// `toml_edit::Table::set_implicit`: whether the header is printed where the
/// table has no values of its own. The entries stay.
pub assume_specification[ Table::set_implicit ](table: &mut Table, implicit: bool)
    ensures
        table_entries(*final(table)) == table_entries(*old(table)),
;

/// `toml_edit::Item::as_str`: the text of a string.
pub assume_specification[ Item::as_str ](item: &Item) -> (text: Option<&str>)
    ensures
        match text {
            Some(value) => item_node(*item) == TomlNode::Text(value@),
            None => item_node(*item) !is Text,
        },
;

/// `toml_edit::Item::as_bool`: the value of a boolean.
pub assume_specification[ Item::as_bool ](item: &Item) -> (flag: Option<bool>)
    ensures
        match flag {
            Some(value) => item_node(*item) == TomlNode::Flag(value),
            None => item_node(*item) !is Flag,
        },
;

/// `toml_edit::Item::as_integer`: the value of an integer.
pub assume_specification[ Item::as_integer ](item: &Item) -> (number: Option<i64>)
    ensures
        match number {
            Some(value) => item_node(*item) == TomlNode::Integer(value as int),
            None => item_node(*item) !is Integer,
        },
;

/// `toml_edit::Item::as_table`: the table, where the item is one with a header
/// of its own.
pub assume_specification[ Item::as_table ](item: &Item) -> (found: Option<&Table>)
    ensures
        match found {
            Some(table) => item_node(*item) == TomlNode::Section(table_entries(*table))
                && item_layout(*item) == Layout::Section(table_layout(*table)),
            None => item_node(*item) !is Section && item_layout(*item) !is Section,
        },
;

/// `toml_edit::Item::as_table_mut`: the same, for changing it. What is left in
/// the table is what the item then holds.
pub assume_specification[ Item::as_table_mut ](item: &mut Item) -> (found: Option<&mut Table>)
    ensures
        match found {
            Some(table) => item_node(*old(item)) == TomlNode::Section(table_entries(*table))
                && item_node(*final(item)) == TomlNode::Section(table_entries(*final(table))),
            None => item_node(*old(item)) !is Section && item_node(*final(item)) == item_node(
                *old(item),
            ),
        },
        match found {
            Some(table) => item_layout(*old(item)) == Layout::Section(table_layout(*table))
                && item_layout(*final(item)) == Layout::Section(table_layout(*final(table))),
            None => item_layout(*final(item)) == item_layout(*old(item)),
        },
;

/// `toml_edit::Item::as_array_of_tables`: the tables, where the item is an array
/// of tables.
pub assume_specification[ Item::as_array_of_tables ](item: &Item) -> (found: Option<&ArrayOfTables>)
    ensures
        match found {
            Some(tables) => item_node(*item) == TomlNode::Sections(tables_of(*tables))
                && item_layout(*item) == Layout::Sections(tables_layout(*tables)),
            None => item_node(*item) !is Sections && item_layout(*item) !is Sections,
        },
;

/// `toml_edit::Item::as_array_of_tables_mut`: the same, for changing it. What is
/// left in the array is what the item then holds.
pub assume_specification[ Item::as_array_of_tables_mut ](item: &mut Item) -> (found: Option<
    &mut ArrayOfTables,
>)
    ensures
        match found {
            Some(tables) => item_node(*old(item)) == TomlNode::Sections(tables_of(*tables))
                && item_node(*final(item)) == TomlNode::Sections(tables_of(*final(tables))),
            None => item_node(*old(item)) !is Sections && item_node(*final(item)) == item_node(
                *old(item),
            ),
        },
        match found {
            Some(tables) => item_layout(*old(item)) == Layout::Sections(tables_layout(*tables))
                && item_layout(*final(item)) == Layout::Sections(tables_layout(*final(tables))),
            None => item_layout(*final(item)) == item_layout(*old(item)),
        },
;

/// `toml_edit::Item::as_array`: the array, where the item is one of values.
pub assume_specification[ Item::as_array ](item: &Item) -> (found: Option<&Array>)
    ensures
        match found {
            Some(array) => item_node(*item) == TomlNode::List(array_nodes(*array)) && item_layout(
                *item,
            ) == Layout::List(array_layout(*array)),
            None => item_node(*item) !is List && item_layout(*item) !is List,
        },
;

/// `toml_edit::Item::as_array_mut`: the same, for changing it. What is left in the
/// array is what the item then holds.
pub assume_specification[ Item::as_array_mut ](item: &mut Item) -> (found: Option<&mut Array>)
    ensures
        match found {
            Some(array) => item_node(*old(item)) == TomlNode::List(array_nodes(*array))
                && item_node(*final(item)) == TomlNode::List(array_nodes(*final(array))),
            None => item_node(*old(item)) !is List && item_node(*final(item)) == item_node(
                *old(item),
            ),
        },
        match found {
            Some(array) => item_layout(*old(item)) == Layout::List(array_layout(*array))
                && item_layout(*final(item)) == Layout::List(array_layout(*final(array))),
            None => item_layout(*old(item)) !is List && item_layout(*final(item)) == item_layout(
                *old(item),
            ),
        },
;

/// `toml_edit::Item::as_inline_table_mut`: the inline table, where the item is
/// one, for changing it. What is left in the table is what the item then holds.
pub assume_specification[ Item::as_inline_table_mut ](item: &mut Item) -> (found: Option<
    &mut InlineTable,
>)
    ensures
        match found {
            Some(table) => item_node(*old(item)) == TomlNode::Inline(inline_entries(*table))
                && item_node(*final(item)) == TomlNode::Inline(inline_entries(*final(table))),
            None => item_node(*old(item)) !is Inline && item_node(*final(item)) == item_node(
                *old(item),
            ),
        },
        match found {
            Some(table) => item_layout(*old(item)) == Layout::Inline(inline_layout(*table))
                && item_layout(*final(item)) == Layout::Inline(inline_layout(*final(table))),
            None => item_layout(*final(item)) == item_layout(*old(item)),
        },
;

/// `toml_edit::Item::is_table_like`: whether the item is a table or an inline
/// table.
pub assume_specification[ Item::is_table_like ](item: &Item) -> (result: bool)
    ensures
        result == table_like(item_node(*item)),
        result == (like_layout(item_layout(*item)) is Some),
;

/// `toml_edit::ArrayOfTables::new`: an array without tables.
pub assume_specification[ ArrayOfTables::new ]() -> (fresh: ArrayOfTables)
    ensures
        tables_of(fresh) == no_nodes(),
;

/// `toml_edit::ArrayOfTables::len`: the number of elements.
pub assume_specification[ ArrayOfTables::len ](tables: &ArrayOfTables) -> (count: usize)
    ensures
        count == tables_of(*tables).len(),
        count == tables_layout(*tables).len(),
;

/// `toml_edit::ArrayOfTables::get`: the table at an index, where the element
/// there is a table.
pub assume_specification[ ArrayOfTables::get ](tables: &ArrayOfTables, index: usize) -> (found: Option<
    &Table,
>)
    ensures
        match found {
            Some(table) => index < tables_of(*tables).len() && tables_of(*tables)[index as int]
                == TomlNode::Section(table_entries(*table)),
            None => index >= tables_of(*tables).len() || tables_of(*tables)[index as int]
                !is Section,
        },
;

/// `toml_edit::ArrayOfTables::get_mut`: the same, for changing it. What is left
/// in the table is what the array then holds at that index.
pub assume_specification[ ArrayOfTables::get_mut ](
    tables: &mut ArrayOfTables,
    index: usize,
) -> (found: Option<&mut Table>)
    ensures
        match found {
            Some(table) => index < tables_of(*old(tables)).len() && tables_of(
                *old(tables),
            )[index as int] == TomlNode::Section(table_entries(*table)) && tables_of(*final(tables))
                == tables_of(*old(tables)).update(
                index as int,
                TomlNode::Section(table_entries(*final(table))),
            ),
            None => (index >= tables_of(*old(tables)).len() || tables_of(*old(tables))[index as int]
                !is Section) && tables_of(*final(tables)) == tables_of(*old(tables)),
        },
        match found {
            Some(table) => index < tables_layout(*old(tables)).len() && tables_layout(
                *old(tables),
            )[index as int] == Layout::Section(table_layout(*table)) && tables_layout(
                *final(tables),
            ) == tables_layout(*old(tables)).update(
                index as int,
                Layout::Section(table_layout(*final(table))),
            ),
            None => tables_layout(*final(tables)) == tables_layout(*old(tables)),
        },
;

/// `toml_edit::ArrayOfTables::push`: appends a table.
pub assume_specification[ ArrayOfTables::push ](tables: &mut ArrayOfTables, table: Table)
    ensures
        tables_of(*final(tables)) == tables_of(*old(tables)).push(
            TomlNode::Section(table_entries(table)),
        ),
        tables_layout(*final(tables)) == tables_layout(*old(tables)).push(
            Layout::Section(table_layout(table)),
        ),
;

/// `toml_edit::ArrayOfTables::remove`: takes the element at an index out. It
/// panics where there is none.
pub assume_specification[ ArrayOfTables::remove ](tables: &mut ArrayOfTables, index: usize)
    requires
        index < tables_of(*old(tables)).len(),
    ensures
        tables_of(*final(tables)) == tables_of(*old(tables)).remove(index as int),
        tables_layout(*final(tables)) == tables_layout(*old(tables)).remove(index as int),
;

/// `toml_edit::Array::new`: an array without values.
pub assume_specification[ Array::new ]() -> (fresh: Array)
    ensures
        array_nodes(fresh) == no_nodes(),
;

/// `toml_edit::Array::len`: the number of values.
pub assume_specification[ Array::len ](array: &Array) -> (count: usize)
    ensures
        count == array_nodes(*array).len(),
        count == array_layout(*array).values.len(),
;

/// `toml_edit::Table::into_inline_table`: an inline table with the same values.
/// Tables among the entries would be turned into values; nothing is said of
/// those.
pub assume_specification[ Table::into_inline_table ](table: Table) -> (inline: InlineTable)
    ensures
        holds_values(table_entries(table)) ==> inline_entries(inline) == table_entries(table),
;

/// `toml_edit::InlineTable::new`: an inline table without entries.
pub assume_specification[ InlineTable::new ]() -> (fresh: InlineTable)
    ensures
        inline_entries(fresh) == no_entries(),
;

/// `toml_edit::DocumentMut::as_table`: the root table. It panics where the root
/// is something else.
pub assume_specification[ DocumentMut::as_table ](doc: &DocumentMut) -> (root: &Table)
    requires
        root_is_table(*doc),
    ensures
        table_entries(*root) == document_entries(*doc),
;

/// `toml_edit::DocumentMut::as_table_mut`: the root table, for changing it. It
/// panics where the root is something else. The root is a table still when the
/// changes are made.
pub assume_specification[ DocumentMut::as_table_mut ](doc: &mut DocumentMut) -> (root: &mut Table)
    requires
        root_is_table(*old(doc)),
    ensures
        table_entries(*root) == document_entries(*old(doc)),
        document_entries(*final(doc)) == table_entries(*final(root)),
        root_is_table(*final(doc)),
        table_layout(*root) == document_layout(*old(doc)),
        document_layout(*final(doc)) == table_layout(*final(root)),
        document_trailing(*final(doc)) == document_trailing(*old(doc)),
;

/// Parses TOML: `<toml_edit::DocumentMut as FromStr>::from_str`. The result
/// depends on the text alone. The root of a parsed document is a table.
#[verifier::external_body]
pub(crate) fn parse_document(content: &str) -> (doc: Option<DocumentMut>)
    ensures
        match doc {
            Some(value) => parsed_toml(content@) == Some(toml_text(value)) && root_is_table(value),
            None => parsed_toml(content@) is None,
        },
{
    content.parse::<DocumentMut>().ok()
}

/// Prints a document: `<toml_edit::DocumentMut as Display>::fmt`, which panics
/// where the root is no table. Nothing is said here of the text but that the
/// document determines it.
#[verifier::external_body]
pub(crate) fn document_text(doc: &DocumentMut) -> (text: String)
    requires
        root_is_table(*doc),
    ensures
        text@ == printed(*doc),
{
    doc.to_string()
}

/// `toml_edit::Item::get` with a string key: the item under a key of a table or
/// an inline table.
#[verifier::external_body]
pub(crate) fn item_get<'a>(item: &'a Item, key: &str) -> (found: Option<&'a Item>)
    ensures
        match found {
            Some(inner) => table_like(item_node(*item)) && like_entries(
                item_node(*item),
            ).contains_key(key@) && item_node(*inner) == like_entries(item_node(*item))[key@]
                && item_node(*inner) !is Absent,
            None => !(table_like(item_node(*item)) && like_entries(
                item_node(*item),
            ).contains_key(key@)),
        },
        layout_in(item_layout(*item), key@) == match found {
            Some(inner) => item_layout(*inner),
            None => Layout::Nothing,
        },
{
    item.get(key)
}

/// `toml_edit::Item::get` with an index: the element of an array, or of an array
/// of tables, at that place.
#[verifier::external_body]
pub(crate) fn item_at<'a>(item: &'a Item, index: usize) -> (found: Option<&'a Item>)
    ensures
        match found {
            Some(inner) => index < elements(item_node(*item)).len() && item_node(*inner)
                == elements(item_node(*item))[index as int],
            None => index >= elements(item_node(*item)).len(),
        },
{
    item.get(index)
}

/// Assigns through `IndexMut` of `toml_edit::Table`: the key then holds the
/// item. A key that was there stays as it is written, and so does all else.
#[verifier::external_body]
pub(crate) fn set_item(table: &mut Table, key: &str, item: Item)
    requires
        item_node(item) !is Absent,
    ensures
        table_entries(*final(table)) == table_entries(*old(table)).insert(key@, item_node(item)),
        kept_but(table_layout(*old(table)), table_layout(*final(table)), only(key@, true)),
        layout_at(table_layout(*final(table)), key@) == item_layout(item),
{
    table[key] = item;
}

/// `IndexMut` of `toml_edit::Item`: the place of a key in a table or an inline
/// table. On an array or a plain value it panics. A key that held nothing is
/// there from then on, without an item, until one is put in its place. All else
/// stays as it is written.
#[verifier::external_body]
pub(crate) fn place_in_item<'a>(item: &'a mut Item, key: &str) -> (place: &'a mut Item)
    requires
        table_like(item_node(*old(item))),
    ensures
        item_node(*place) == if like_entries(item_node(*old(item))).contains_key(key@) {
            like_entries(item_node(*old(item)))[key@]
        } else {
            TomlNode::Absent
        },
        item_node(*final(place)) !is Absent ==> item_node(*final(item)) == with_like_entry(
            item_node(*old(item)),
            key@,
            item_node(*final(place)),
        ),
        item_layout(*place) == layout_in(item_layout(*old(item)), key@),
        item_kept_but(item_layout(*old(item)), item_layout(*final(item)), only(key@, true)),
        layout_in(item_layout(*final(item)), key@) == item_layout(*final(place)),
{
    &mut item[key]
}

/// `toml_edit::value` of a string.
#[verifier::external_body]
pub(crate) fn text_item(text: &str) -> (item: Item)
    ensures
        item_node(item) == TomlNode::Text(text@),
{
    toml_edit::value(text)
}

/// `toml_edit::value` of a boolean.
#[verifier::external_body]
pub(crate) fn flag_item(flag: bool) -> (item: Item)
    ensures
        item_node(item) == TomlNode::Flag(flag),
{
    toml_edit::value(flag)
}

/// `toml_edit::value` of an integer.
#[verifier::external_body]
pub(crate) fn integer_item(number: i64) -> (item: Item)
    ensures
        item_node(item) == TomlNode::Integer(number as int),
{
    toml_edit::value(number)
}

/// `toml_edit::value` of an array.
#[verifier::external_body]
pub(crate) fn array_item(array: Array) -> (item: Item)
    ensures
        item_node(item) == TomlNode::List(array_nodes(array)),
{
    toml_edit::value(array)
}

/// `toml_edit::value` of an inline table.
#[verifier::external_body]
pub(crate) fn inline_item(table: InlineTable) -> (item: Item)
    ensures
        item_node(item) == TomlNode::Inline(inline_entries(table)),
{
    toml_edit::value(table)
}

/// The variant `toml_edit::Item::Table`.
#[verifier::external_body]
pub(crate) fn table_item(table: Table) -> (item: Item)
    ensures
        item_node(item) == TomlNode::Section(table_entries(table)),
{
    Item::Table(table)
}

/// The variant `toml_edit::Item::ArrayOfTables`.
#[verifier::external_body]
pub(crate) fn tables_item(tables: ArrayOfTables) -> (item: Item)
    ensures
        item_node(item) == TomlNode::Sections(tables_of(tables)),
{
    Item::ArrayOfTables(tables)
}

/// `toml_edit::Array::push` of a string.
#[verifier::external_body]
pub(crate) fn push_text(array: &mut Array, text: &str)
    ensures
        array_nodes(*final(array)) == array_nodes(*old(array)).push(TomlNode::Text(text@)),
{
    array.push(text);
}

/// `toml_edit::Array::push` of an inline table. The values before it stay as they
/// are written.
#[verifier::external_body]
pub(crate) fn push_inline(array: &mut Array, table: InlineTable)
    ensures
        array_nodes(*final(array)) == array_nodes(*old(array)).push(
            TomlNode::Inline(inline_entries(table)),
        ),
        array_layout(*final(array)).frame == array_layout(*old(array)).frame,
        one_more(array_layout(*old(array)).values, array_layout(*final(array)).values),
{
    array.push(table);
}

/// `toml_edit::Array::remove`: takes the value at an index out. It panics where
/// there is none, or something other than a value. The other values stay as they
/// are written.
#[verifier::external_body]
pub(crate) fn remove_value(array: &mut Array, index: usize)
    requires
        index < array_nodes(*old(array)).len(),
        is_value(array_nodes(*old(array))[index as int]),
    ensures
        array_nodes(*final(array)) == array_nodes(*old(array)).remove(index as int),
        array_layout(*final(array)).frame == array_layout(*old(array)).frame,
        array_layout(*final(array)).values == array_layout(*old(array)).values.remove(index as int),
{
    let _value = array.remove(index);
}

/// `toml_edit::InlineTable::remove`: takes a key out of the table, if it is there.
/// All else stays as it is written, in its order.
#[verifier::external_body]
pub(crate) fn remove_inline(table: &mut InlineTable, key: &str)
    ensures
        inline_entries(*final(table)) == inline_entries(*old(table)).remove(key@),
        edited(inline_layout(*old(table)), inline_layout(*final(table)), no_key(), only(key@, true)),
        !inline_layout(*final(table)).entries.contains_key(key@),
{
    let _value = table.remove(key);
}

/// `toml_edit::InlineTable::insert` of a string.
#[verifier::external_body]
pub(crate) fn insert_text(table: &mut InlineTable, key: &str, text: &str)
    ensures
        inline_entries(*final(table)) == inline_entries(*old(table)).insert(
            key@,
            TomlNode::Text(text@),
        ),
{
    table.insert(key, text.into());
}

/// Whether a node is a table of either form.
pub open spec fn table_like(node: TomlNode) -> bool {
    node is Inline || node is Section
}

/// Whether a node is a value: an array or an inline table, or a plain one.
pub open spec fn is_value(node: TomlNode) -> bool {
    match node {
        TomlNode::Absent => false,
        TomlNode::Section(_) => false,
        TomlNode::Sections(_) => false,
        _ => true,
    }
}

/// Whether every entry is a value.
pub open spec fn holds_values(entries: Entries) -> bool {
    forall|key: Seq<char>| #[trigger] entries.contains_key(key) ==> is_value(entries[key])
}

/// The elements of an array of either form.
pub open spec fn elements(node: TomlNode) -> Seq<TomlNode> {
    match node {
        TomlNode::List(nodes) => nodes,
        TomlNode::Sections(nodes) => nodes,
        _ => Seq::empty(),
    }
}

/// The entries of a table of either form.
pub open spec fn like_entries(node: TomlNode) -> Entries {
    match node {
        TomlNode::Inline(entries) => entries,
        TomlNode::Section(entries) => entries,
        _ => Map::empty(),
    }
}

/// A table of either form with one entry set.
pub open spec fn with_like_entry(node: TomlNode, key: Seq<char>, value: TomlNode) -> TomlNode {
    match node {
        TomlNode::Inline(entries) => TomlNode::Inline(entries.insert(key, value)),
        TomlNode::Section(entries) => TomlNode::Section(entries.insert(key, value)),
        _ => node,
    }
}

/// The node under a key, `Absent` where there is none.
pub open spec fn node_at(entries: Entries, key: Seq<char>) -> TomlNode {
    if entries.contains_key(key) {
        entries[key]
    } else {
        TomlNode::Absent
    }
}

/// The node under a key of a table of either form.
pub open spec fn like_at(node: TomlNode, key: Seq<char>) -> TomlNode {
    node_at(like_entries(node), key)
}

pub open spec fn text_of_node(node: TomlNode) -> Option<Seq<char>> {
    match node {
        TomlNode::Text(text) => Some(text),
        _ => None,
    }
}

pub open spec fn flag_of_node(node: TomlNode) -> Option<bool> {
    match node {
        TomlNode::Flag(flag) => Some(flag),
        _ => None,
    }
}

pub open spec fn integer_of_node(node: TomlNode) -> Option<int> {
    match node {
        TomlNode::Integer(number) => Some(number),
        _ => None,
    }
}

/// The entries of a table with its own header; none where the node is something
/// else.
pub open spec fn section_entries(node: TomlNode) -> Entries {
    match node {
        TomlNode::Section(entries) => entries,
        _ => Map::empty(),
    }
}

/// The text under a key, if a string stands there.
pub open spec fn text_at(entries: Entries, key: Seq<char>) -> Option<Seq<char>> {
    text_of_node(node_at(entries, key))
}

/// The text under a key of an element of an array of tables.
pub open spec fn section_text(node: TomlNode, key: Seq<char>) -> Option<Seq<char>> {
    text_at(section_entries(node), key)
}

/// The boolean under a key, if one stands there.
pub open spec fn flag_at(entries: Entries, key: Seq<char>) -> Option<bool> {
    flag_of_node(node_at(entries, key))
}

/// The table under a key: a new one where the key is free, `None` where
/// something else stands there.
pub open spec fn child_table(entries: Entries, key: Seq<char>) -> Option<Entries> {
    if !entries.contains_key(key) {
        Some(Map::empty())
    } else if entries[key] is Section {
        Some(entries[key]->Section_0)
    } else {
        None
    }
}

/// The array of tables under a key: a new one where the key is free, `None`
/// where something else stands there.
pub open spec fn child_tables(entries: Entries, key: Seq<char>) -> Option<Seq<TomlNode>> {
    if !entries.contains_key(key) {
        Some(Seq::empty())
    } else if entries[key] is Sections {
        Some(entries[key]->Sections_0)
    } else {
        None
    }
}

pub open spec fn text_list(texts: Seq<Seq<char>>) -> TomlNode {
    TomlNode::List(texts.map_values(|text: Seq<char>| TomlNode::Text(text)))
}

/// Sets a text where one is given.
pub open spec fn with_text(entries: Entries, key: Seq<char>, text: Option<Seq<char>>) -> Entries {
    match text {
        Some(value) => entries.insert(key, TomlNode::Text(value)),
        None => entries,
    }
}

/// Sets a flag where one is given.
pub open spec fn with_flag(entries: Entries, key: Seq<char>, flag: Option<bool>) -> Entries {
    match flag {
        Some(value) => entries.insert(key, TomlNode::Flag(value)),
        None => entries,
    }
}

/// Sets an integer where one is given.
pub open spec fn with_integer(entries: Entries, key: Seq<char>, number: Option<int>) -> Entries {
    match number {
        Some(value) => entries.insert(key, TomlNode::Integer(value)),
        None => entries,
    }
}

/// Sets an item where one is given.
pub open spec fn with_node(entries: Entries, key: Seq<char>, node: Option<TomlNode>) -> Entries {
    match node {
        Some(value) => entries.insert(key, value),
        None => entries,
    }
}

/// Sets a list of texts, unless it is empty.
pub open spec fn with_texts(entries: Entries, key: Seq<char>, texts: Seq<Seq<char>>) -> Entries {
    if texts.len() == 0 {
        entries
    } else {
        entries.insert(key, text_list(texts))
    }
}

/// Sets a text where one is given, and clears the key otherwise.
pub open spec fn with_text_or_none(entries: Entries, key: Seq<char>, text: Option<Seq<char>>) -> Entries {
    match text {
        Some(value) => entries.insert(key, TomlNode::Text(value)),
        None => entries.remove(key),
    }
}

/// Sets a list of texts, and clears the key where the list is empty.
pub open spec fn with_texts_or_none(entries: Entries, key: Seq<char>, texts: Seq<Seq<char>>) -> Entries {
    if texts.len() == 0 {
        entries.remove(key)
    } else {
        entries.insert(key, text_list(texts))
    }
}

/// The position of the first table, from `from` on, whose `key` holds `text`.
pub open spec fn first_with_text(
    tables: Seq<TomlNode>,
    from: int,
    key: Seq<char>,
    text: Seq<char>,
) -> Option<int>
    decreases tables.len() - from,
{
    if from < 0 || from >= tables.len() {
        None
    } else if section_text(tables[from], key) == Some(text) {
        Some(from)
    } else {
        first_with_text(tables, from + 1, key, text)
    }
}

/// The tables whose `key` does not hold `text`, in order.
pub open spec fn without_text(tables: Seq<TomlNode>, key: Seq<char>, text: Seq<char>) -> Seq<
    TomlNode,
> {
    tables.filter(|table: TomlNode| section_text(table, key) != Some(text))
}

pub(crate) proof fn lemma_first_with_text(
    tables: Seq<TomlNode>,
    from: int,
    key: Seq<char>,
    text: Seq<char>,
)
    requires
        0 <= from,
    ensures
        match first_with_text(tables, from, key, text) {
            Some(i) => from <= i < tables.len() && tables[i] is Section && section_text(tables[i], key)
                == Some(text),
            None => forall|i: int|
                from <= i < tables.len() ==> section_text(#[trigger] tables[i], key) != Some(text),
        },
    decreases tables.len() - from,
{
    if from < tables.len() && section_text(tables[from], key) != Some(text) {
        lemma_first_with_text(tables, from + 1, key, text);
    }
}

/// Of the tables with a text under a key the first one is found, wherever it
/// stands.
pub proof fn law_first_table_is_found(
    tables: Seq<TomlNode>,
    from: int,
    at: int,
    key: Seq<char>,
    text: Seq<char>,
)
    requires
        0 <= from <= at < tables.len(),
        tables[at] matches TomlNode::Section(entries) && entries.contains_key(key) && entries[key]
            == TomlNode::Text(text),
        forall|i: int|
            from <= i < at ==> !((#[trigger] tables[i]) matches TomlNode::Section(entries)
                && entries.contains_key(key) && entries[key] == TomlNode::Text(text)),
    ensures
        first_with_text(tables, from, key, text) == Some(at),
    decreases at - from,
{
    if from < at {
        assert(!(tables[from] matches TomlNode::Section(entries) && entries.contains_key(key)
            && entries[key] == TomlNode::Text(text)));
        law_first_table_is_found(tables, from + 1, at, key, text);
    }
}

/// Of the inline tables with a text under a key the first one is found, wherever it
/// stands.
pub proof fn law_first_inline_table_is_found(
    nodes: Seq<TomlNode>,
    from: int,
    at: int,
    key: Seq<char>,
    text: Seq<char>,
)
    requires
        0 <= from <= at < nodes.len(),
        nodes[at] matches TomlNode::Inline(entries) && entries.contains_key(key) && entries[key]
            == TomlNode::Text(text),
        forall|i: int|
            from <= i < at ==> !((#[trigger] nodes[i]) matches TomlNode::Inline(entries)
                && entries.contains_key(key) && entries[key] == TomlNode::Text(text)),
    ensures
        first_inline(nodes, from, key, text) == Some(at),
    decreases at - from,
{
    if from < at {
        assert(!(nodes[from] matches TomlNode::Inline(entries) && entries.contains_key(key)
            && entries[key] == TomlNode::Text(text)));
        law_first_inline_table_is_found(nodes, from + 1, at, key, text);
    }
}

/// The text under a key of a table, if a string stands there.
pub(crate) fn get_text<'a>(table: &'a Table, key: &str) -> (text: Option<&'a str>)
    ensures
        match text {
            Some(value) => text_at(table_entries(*table), key@) == Some(value@),
            None => text_at(table_entries(*table), key@) is None,
        },
{
    match table.get(key) {
        Some(item) => item.as_str(),
        None => None,
    }
}

/// The boolean under a key of a table, if one stands there.
pub(crate) fn get_flag(table: &Table, key: &str) -> (flag: Option<bool>)
    ensures
        flag == flag_at(table_entries(*table), key@),
{
    match table.get(key) {
        Some(item) => item.as_bool(),
        None => None,
    }
}

/// Whether a key of a table holds this text.
pub(crate) fn has_text(table: &Table, key: &str, text: &str) -> (same: bool)
    ensures
        same == (text_at(table_entries(*table), key@) == Some(text@)),
{
    match get_text(table, key) {
        Some(value) => text_eq(value, text),
        None => false,
    }
}

pub(crate) fn set_text(table: &mut Table, key: &str, text: &str)
    ensures
        table_entries(*final(table)) == table_entries(*old(table)).insert(
            key@,
            TomlNode::Text(text@),
        ),
        kept_but(table_layout(*old(table)), table_layout(*final(table)), only(key@, true)),
{
    set_item(table, key, text_item(text));
}

pub(crate) fn set_flag(table: &mut Table, key: &str, flag: bool)
    ensures
        table_entries(*final(table)) == table_entries(*old(table)).insert(key@, TomlNode::Flag(flag)),
        kept_but(table_layout(*old(table)), table_layout(*final(table)), only(key@, true)),
{
    set_item(table, key, flag_item(flag));
}

/// Sets a text where one is given.
pub(crate) fn set_text_if(table: &mut Table, key: &str, text: &Option<String>)
    ensures
        table_entries(*final(table)) == with_text(table_entries(*old(table)), key@, view_of(*text)),
        kept_but(table_layout(*old(table)), table_layout(*final(table)), only(key@, text is Some)),
{
    match text {
        Some(value) => set_text(table, key, value.as_str()),
        None => {},
    }
}

/// Sets a flag where one is given.
pub(crate) fn set_flag_if(table: &mut Table, key: &str, flag: Option<bool>)
    ensures
        table_entries(*final(table)) == with_flag(table_entries(*old(table)), key@, flag),
        kept_but(table_layout(*old(table)), table_layout(*final(table)), only(key@, flag is Some)),
{
    match flag {
        Some(value) => set_flag(table, key, value),
        None => {},
    }
}

/// An array of strings.
pub(crate) fn texts_item(texts: &Vec<String>) -> (item: Item)
    ensures
        item_node(item) == text_list(views(texts@)),
{
    let mut array = Array::new();
    let mut i: usize = 0;
    let ghost nodes = views(texts@).map_values(|text: Seq<char>| TomlNode::Text(text));
    while i < texts.len()
        invariant
            i <= texts.len(),
            nodes == views(texts@).map_values(|text: Seq<char>| TomlNode::Text(text)),
            array_nodes(array) == nodes.take(i as int),
        decreases texts.len() - i,
    {
        assert(nodes.take(i + 1) =~= nodes.take(i as int).push(nodes[i as int]));
        push_text(&mut array, texts[i].as_str());
        i = i + 1;
    }
    assert(nodes.take(i as int) =~= nodes);
    array_item(array)
}

/// Sets a list of texts, unless it is empty.
pub(crate) fn set_texts_if(table: &mut Table, key: &str, texts: &Vec<String>)
    ensures
        table_entries(*final(table)) == with_texts(table_entries(*old(table)), key@, views(texts@)),
{
    if texts.len() > 0 {
        set_item(table, key, texts_item(texts));
    }
}

/// Sets a text where one is given, and clears the key otherwise.
pub(crate) fn set_text_or_remove(table: &mut Table, key: &str, text: &Option<String>)
    ensures
        table_entries(*final(table)) == with_text_or_none(
            table_entries(*old(table)),
            key@,
            view_of(*text),
        ),
        edited(
            table_layout(*old(table)),
            table_layout(*final(table)),
            only(key@, text is Some),
            only(key@, text is None),
        ),
{
    match text {
        Some(value) => set_text(table, key, value.as_str()),
        None => {
            let _taken = table.remove(key);
        },
    }
}

/// Sets a list of texts, and clears the key where the list is empty.
pub(crate) fn set_texts_or_remove(table: &mut Table, key: &str, texts: &Vec<String>)
    ensures
        table_entries(*final(table)) == with_texts_or_none(
            table_entries(*old(table)),
            key@,
            views(texts@),
        ),
        edited(
            table_layout(*old(table)),
            table_layout(*final(table)),
            only(key@, texts@.len() > 0),
            only(key@, texts@.len() == 0),
        ),
{
    if texts.len() > 0 {
        set_item(table, key, texts_item(texts));
    } else {
        let _taken = table.remove(key);
    }
}

/// The node under a key, or a new table where the key is free.
pub open spec fn section_or_new(entries: Entries, key: Seq<char>) -> TomlNode {
    if entries.contains_key(key) {
        entries[key]
    } else {
        TomlNode::Section(Map::empty())
    }
}

/// The node under a key of a table of either form, or a new table where the key
/// is free.
pub open spec fn like_section_or_new(node: TomlNode, key: Seq<char>) -> TomlNode {
    section_or_new(like_entries(node), key)
}

/// Sets an entry of a table of either form where a node is given.
pub open spec fn with_like_node(node: TomlNode, key: Seq<char>, value: Option<TomlNode>) -> TomlNode {
    match value {
        Some(inner) => with_like_entry(node, key, inner),
        None => node,
    }
}

pub open spec fn text_node(text: Option<Seq<char>>) -> Option<TomlNode> {
    match text {
        Some(value) => Some(TomlNode::Text(value)),
        None => None,
    }
}

pub open spec fn flag_node(flag: Option<bool>) -> Option<TomlNode> {
    match flag {
        Some(value) => Some(TomlNode::Flag(value)),
        None => None,
    }
}

pub open spec fn integer_node(number: Option<i64>) -> Option<TomlNode> {
    match number {
        Some(value) => Some(TomlNode::Integer(value as int)),
        None => None,
    }
}

/// Whether an item is written as the one that was there, where there was one.
pub open spec fn found_or_new(before: Layout, found: Layout) -> bool {
    before is Nothing || found == before
}

/// The item under a key, a new table where the key is free.
pub(crate) fn ensure_section<'a>(root: &'a mut Table, key: &str) -> (section: &'a mut Item)
    ensures
        item_node(*section) == section_or_new(table_entries(*old(root)), key@),
        item_node(*section) !is Absent,
        item_node(*final(section)) !is Absent ==> table_entries(*final(root)) == table_entries(
            *old(root),
        ).insert(key@, item_node(*final(section))),
        kept_but(table_layout(*old(root)), table_layout(*final(root)), only(key@, true)),
        layout_at(table_layout(*final(root)), key@) == item_layout(*final(section)),
        found_or_new(layout_at(table_layout(*old(root)), key@), item_layout(*section)),
{
    if root.get(key).is_none() {
        set_item(root, key, table_item(Table::new()));
    }
    let ghost mid = table_entries(*root);
    assert(forall|node: TomlNode| #[trigger]
        mid.insert(key@, node) =~= table_entries(*old(root)).insert(key@, node));
    match root.get_mut(key) {
        Some(item) => item,
        None => vstd::pervasive::unreached(),
    }
}

/// The item under a key of a table of either form, a new table where the key is
/// free.
pub(crate) fn ensure_like_section<'a>(item: &'a mut Item, key: &str) -> (section: &'a mut Item)
    requires
        table_like(item_node(*old(item))),
    ensures
        item_node(*section) == like_section_or_new(item_node(*old(item)), key@),
        item_node(*section) !is Absent,
        item_node(*final(section)) !is Absent ==> item_node(*final(item)) == with_like_entry(
            item_node(*old(item)),
            key@,
            item_node(*final(section)),
        ),
        item_kept_but(item_layout(*old(item)), item_layout(*final(item)), only(key@, true)),
        layout_in(item_layout(*final(item)), key@) == item_layout(*final(section)),
        found_or_new(layout_in(item_layout(*old(item)), key@), item_layout(*section)),
{
    if item_get(item, key).is_none() {
        set_like(item, key, table_item(Table::new()));
    }
    let ghost mid = like_entries(item_node(*item));
    assert(forall|node: TomlNode| #[trigger]
        mid.insert(key@, node) =~= like_entries(item_node(*old(item))).insert(key@, node));
    place_in_item(item, key)
}

/// Sets an entry of a table of either form.
pub(crate) fn set_like(item: &mut Item, key: &str, value: Item)
    requires
        table_like(item_node(*old(item))),
        item_node(value) !is Absent,
    ensures
        item_node(*final(item)) == with_like_entry(item_node(*old(item)), key@, item_node(value)),
        item_kept_but(item_layout(*old(item)), item_layout(*final(item)), only(key@, true)),
        layout_in(item_layout(*final(item)), key@) == item_layout(value),
{
    let place = place_in_item(item, key);
    *place = value;
}

pub(crate) fn set_like_text_if(item: &mut Item, key: &str, text: &Option<String>)
    requires
        text is Some ==> table_like(item_node(*old(item))),
    ensures
        item_node(*final(item)) == with_like_node(
            item_node(*old(item)),
            key@,
            text_node(view_of(*text)),
        ),
        item_kept_but(
            item_layout(*old(item)),
            item_layout(*final(item)),
            only(key@, text is Some),
        ),
{
    match text {
        Some(value) => set_like(item, key, text_item(value.as_str())),
        None => {},
    }
}

pub(crate) fn set_like_flag_if(item: &mut Item, key: &str, flag: Option<bool>)
    requires
        flag is Some ==> table_like(item_node(*old(item))),
    ensures
        item_node(*final(item)) == with_like_node(item_node(*old(item)), key@, flag_node(flag)),
        item_kept_but(
            item_layout(*old(item)),
            item_layout(*final(item)),
            only(key@, flag is Some),
        ),
{
    match flag {
        Some(value) => set_like(item, key, flag_item(value)),
        None => {},
    }
}

pub(crate) fn set_like_integer_if(item: &mut Item, key: &str, number: Option<i64>)
    requires
        number is Some ==> table_like(item_node(*old(item))),
    ensures
        item_node(*final(item)) == with_like_node(item_node(*old(item)), key@, integer_node(number)),
        item_kept_but(
            item_layout(*old(item)),
            item_layout(*final(item)),
            only(key@, number is Some),
        ),
{
    match number {
        Some(value) => set_like(item, key, integer_item(value)),
        None => {},
    }
}

/// The table under a key, made where the key is free.
pub(crate) fn ensure_child_table<'a>(parent: &'a mut Table, key: &str) -> (child: Option<
    &'a mut Table,
>)
    ensures
        match child {
            Some(table) => child_table(table_entries(*old(parent)), key@) == Some(
                table_entries(*table),
            ) && table_entries(*final(parent)) == table_entries(*old(parent)).insert(
                key@,
                TomlNode::Section(table_entries(*final(table))),
            ),
            None => child_table(table_entries(*old(parent)), key@) is None && table_entries(
                *final(parent),
            ) == table_entries(*old(parent)),
        },
        child is Some ==> {
            let from = table_layout(*old(parent));
            let to = table_layout(*final(parent));
            &&& kept_but(from, to, only(key@, true))
            &&& layout_at(to, key@) == Layout::Section(table_layout(*final(child->0)))
            &&& found_or_new(layout_at(from, key@), Layout::Section(table_layout(*child->0)))
        },
{
    if !parent.contains_key(key) {
        set_item(parent, key, table_item(Table::new()));
    }
    let ghost mid = table_entries(*parent);
    assert(forall|node: TomlNode| #[trigger]
        mid.insert(key@, node) =~= table_entries(*old(parent)).insert(key@, node));
    assert(mid.insert(key@, mid[key@]) =~= mid);
    match parent.get_mut(key) {
        Some(item) => item.as_table_mut(),
        None => None,
    }
}

/// The array of tables under a key, made where the key is free.
pub(crate) fn ensure_child_tables<'a>(parent: &'a mut Table, key: &str) -> (child: Option<
    &'a mut ArrayOfTables,
>)
    ensures
        match child {
            Some(tables) => child_tables(table_entries(*old(parent)), key@) == Some(
                tables_of(*tables),
            ) && table_entries(*final(parent)) == table_entries(*old(parent)).insert(
                key@,
                TomlNode::Sections(tables_of(*final(tables))),
            ),
            None => child_tables(table_entries(*old(parent)), key@) is None && table_entries(
                *final(parent),
            ) == table_entries(*old(parent)),
        },
        child is Some ==> {
            let from = table_layout(*old(parent));
            let to = table_layout(*final(parent));
            &&& kept_but(from, to, only(key@, true))
            &&& sections_layout(to, key@) == Some(tables_layout(*final(child->0)))
            &&& sections_layout(from, key@) is Some ==> sections_layout(from, key@) == Some(
                tables_layout(*child->0),
            )
        },
{
    if !parent.contains_key(key) {
        set_item(parent, key, tables_item(ArrayOfTables::new()));
    }
    let ghost mid = table_entries(*parent);
    assert(forall|node: TomlNode| #[trigger]
        mid.insert(key@, node) =~= table_entries(*old(parent)).insert(key@, node));
    assert(mid.insert(key@, mid[key@]) =~= mid);
    match parent.get_mut(key) {
        Some(item) => item.as_array_of_tables_mut(),
        None => None,
    }
}

/// The table under a key, where there is one.
pub(crate) fn child_table_mut<'a>(parent: &'a mut Table, key: &str) -> (child: Option<&'a mut Table>)
    ensures
        match child {
            Some(table) => node_at(table_entries(*old(parent)), key@) == TomlNode::Section(
                table_entries(*table),
            ) && table_entries(*final(parent)) == table_entries(*old(parent)).insert(
                key@,
                TomlNode::Section(table_entries(*final(table))),
            ),
            None => node_at(table_entries(*old(parent)), key@) !is Section && table_entries(
                *final(parent),
            ) == table_entries(*old(parent)),
        },
        child is Some ==> {
            let from = table_layout(*old(parent));
            let to = table_layout(*final(parent));
            &&& kept_but(from, to, only(key@, true))
            &&& section_layout(to, key@) == Some(table_layout(*final(child->0)))
            &&& section_layout(from, key@) == Some(table_layout(*child->0))
        },
{
    let ghost before = table_entries(*parent);
    assert(before.contains_key(key@) ==> before.insert(key@, before[key@]) =~= before);
    match parent.get_mut(key) {
        Some(item) => item.as_table_mut(),
        None => None,
    }
}

/// The array of tables under a key, where there is one.
pub(crate) fn child_tables_mut<'a>(parent: &'a mut Table, key: &str) -> (child: Option<
    &'a mut ArrayOfTables,
>)
    ensures
        match child {
            Some(tables) => node_at(table_entries(*old(parent)), key@) == TomlNode::Sections(
                tables_of(*tables),
            ) && table_entries(*final(parent)) == table_entries(*old(parent)).insert(
                key@,
                TomlNode::Sections(tables_of(*final(tables))),
            ),
            None => node_at(table_entries(*old(parent)), key@) !is Sections && table_entries(
                *final(parent),
            ) == table_entries(*old(parent)),
        },
        match child {
            Some(tables) => {
                let from = table_layout(*old(parent));
                let to = table_layout(*final(parent));
                &&& kept_but(from, to, only(key@, true))
                &&& sections_layout(to, key@) == Some(tables_layout(*final(tables)))
                &&& sections_layout(from, key@) == Some(tables_layout(*tables))
            },
            None => table_layout(*final(parent)) == table_layout(*old(parent)),
        },
{
    let ghost before = table_entries(*parent);
    assert(before.contains_key(key@) ==> before.insert(key@, before[key@]) =~= before);
    let ghost from = table_layout(*parent);
    assert(from.entries.contains_key(key@) ==> with_item_layout(
        from,
        key@,
        from.entries[key@].item,
    ).entries =~= from.entries);
    match parent.get_mut(key) {
        Some(item) => item.as_array_of_tables_mut(),
        None => None,
    }
}

/// The text under a key of an inline table.
pub open spec fn inline_text(node: TomlNode, key: Seq<char>) -> Option<Seq<char>> {
    match node {
        TomlNode::Inline(entries) => text_at(entries, key),
        _ => None,
    }
}

/// The position of the first inline table, from `from` on, whose `key` holds
/// `text`.
pub open spec fn first_inline(
    nodes: Seq<TomlNode>,
    from: int,
    key: Seq<char>,
    text: Seq<char>,
) -> Option<int>
    decreases nodes.len() - from,
{
    if from < 0 || from >= nodes.len() {
        None
    } else if inline_text(nodes[from], key) == Some(text) {
        Some(from)
    } else {
        first_inline(nodes, from + 1, key, text)
    }
}

/// The values that are no inline table whose `key` holds `text`, in order.
pub open spec fn without_inline(nodes: Seq<TomlNode>, key: Seq<char>, text: Seq<char>) -> Seq<
    TomlNode,
> {
    nodes.filter(|node: TomlNode| inline_text(node, key) != Some(text))
}

/// The tables with their own header whose `key` holds `text`.
pub open spec fn section_with(key: Seq<char>, text: Seq<char>) -> spec_fn(TomlNode) -> bool {
    |node: TomlNode| section_text(node, key) == Some(text)
}

/// The inline tables whose `key` holds `text`.
pub open spec fn inline_with(key: Seq<char>, text: Seq<char>) -> spec_fn(TomlNode) -> bool {
    |node: TomlNode| inline_text(node, key) == Some(text)
}

/// Of what belongs to each node of a sequence, that of the nodes that are not
/// taken out, in order.
pub open spec fn left_of<T>(
    nodes: Seq<TomlNode>,
    values: Seq<T>,
    taken: spec_fn(TomlNode) -> bool,
) -> Seq<T>
    decreases nodes.len(),
{
    if nodes.len() == 0 {
        Seq::empty()
    } else {
        let rest = left_of(nodes.drop_last(), values.drop_last(), taken);
        if taken(nodes.last()) {
            rest
        } else {
            rest.push(values.last())
        }
    }
}

proof fn lemma_left_without<T>(
    nodes: Seq<TomlNode>,
    values: Seq<T>,
    taken: spec_fn(TomlNode) -> bool,
    i: int,
)
    requires
        nodes.len() == values.len(),
        0 <= i < nodes.len(),
        taken(nodes[i]),
    ensures
        left_of(nodes.remove(i), values.remove(i), taken) == left_of(nodes, values, taken),
    decreases nodes.len(),
{
    if i == nodes.len() - 1 {
        assert(nodes.remove(i) =~= nodes.drop_last());
        assert(values.remove(i) =~= values.drop_last());
    } else {
        lemma_left_without(nodes.drop_last(), values.drop_last(), taken, i);
        assert(nodes.remove(i).drop_last() =~= nodes.drop_last().remove(i));
        assert(values.remove(i).drop_last() =~= values.drop_last().remove(i));
    }
}

proof fn lemma_all_left<T>(nodes: Seq<TomlNode>, values: Seq<T>, taken: spec_fn(TomlNode) -> bool)
    requires
        nodes.len() == values.len(),
        forall|i: int| 0 <= i < nodes.len() ==> !taken(#[trigger] nodes[i]),
    ensures
        left_of(nodes, values, taken) == values,
    decreases nodes.len(),
{
    if nodes.len() > 0 {
        lemma_all_left(nodes.drop_last(), values.drop_last(), taken);
        assert(values.drop_last().push(values.last()) =~= values);
    } else {
        assert(values =~= Seq::<T>::empty());
    }
}

proof fn lemma_left_is_filter(
    nodes: Seq<TomlNode>,
    taken: spec_fn(TomlNode) -> bool,
    keep: spec_fn(TomlNode) -> bool,
)
    requires
        forall|node: TomlNode| #[trigger] keep(node) == !taken(node),
    ensures
        left_of(nodes, nodes, taken) == nodes.filter(keep),
    decreases nodes.len(),
{
    reveal(Seq::filter);
    if nodes.len() > 0 {
        lemma_left_is_filter(nodes.drop_last(), taken, keep);
    }
}

/// The node of an optional item.
pub open spec fn optional_node(item: Option<&Item>) -> TomlNode {
    match item {
        Some(value) => item_node(*value),
        None => TomlNode::Absent,
    }
}

/// Whether an element of an array is an inline table whose `key` holds `text`.
fn is_inline_with(list: &Item, index: usize, key: &str, text: &str) -> (holds: bool)
    requires
        index < elements(item_node(*list)).len(),
    ensures
        holds == (inline_text(elements(item_node(*list))[index as int], key@) == Some(text@)),
{
    match item_at(list, index) {
        Some(element) => element.as_table().is_none() && match item_get(element, key) {
            Some(inner) => match inner.as_str() {
                Some(value) => text_eq(value, text),
                None => false,
            },
            None => false,
        },
        None => false,
    }
}

/// The length of an array of values: none where the item is something else.
fn list_length(item: &Item) -> (count: usize)
    ensures
        item_node(*item) is List ==> count == item_node(*item)->List_0.len() && item_layout(*item)
            is List && count == item_layout(*item)->List_0.values.len(),
        item_node(*item) !is List ==> count == 0,
{
    match item.as_array() {
        Some(array) => array.len(),
        None => 0,
    }
}

/// What taking the first inline table whose `key` holds `text` out of an array of
/// values leaves.
pub open spec fn without_first_inline(node: TomlNode, key: Seq<char>, text: Seq<char>) -> TomlNode {
    match node {
        TomlNode::List(nodes) => match first_inline(nodes, 0, key, text) {
            Some(i) => TomlNode::List(nodes.remove(i)),
            None => node,
        },
        _ => node,
    }
}

/// How an array of values is written without the value at a position, where one
/// is given; any other item is written as before.
pub open spec fn layout_without(layout: Layout, position: Option<int>) -> Layout {
    match (layout, position) {
        (Layout::List(list), Some(i)) => Layout::List(
            ListLayout { values: list.values.remove(i), ..list },
        ),
        _ => layout,
    }
}

/// Takes the first inline table whose `key` holds `text` out of an array of
/// values. Any other item is left alone.
pub(crate) fn remove_first_inline(item: &mut Item, key: &str, text: &str)
    ensures
        item_node(*final(item)) == without_first_inline(item_node(*old(item)), key@, text@),
        item_layout(*final(item)) == layout_without(
            item_layout(*old(item)),
            match item_node(*old(item)) {
                TomlNode::List(nodes) => first_inline(nodes, 0, key@, text@),
                _ => None,
            },
        ),
{
    let count: usize = list_length(item);
    let ghost nodes = elements(item_node(*item));
    let mut i: usize = 0;
    while i < count
        invariant
            i <= count,
            count > 0 ==> item_node(*item) == TomlNode::List(nodes) && count == nodes.len(),
            *item == *old(item),
            count > 0 ==> first_inline(nodes, 0, key@, text@) == first_inline(
                nodes,
                i as int,
                key@,
                text@,
            ),
        decreases count - i,
    {
        if is_inline_with(item, i, key, text) {
            match item.as_array_mut() {
                Some(array) => remove_value(array, i),
                None => {},
            }
            return;
        }
        i = i + 1;
    }
}

/// Takes every inline table whose `key` holds `text` out of an array of values.
/// Any other item is left alone.
pub(crate) fn remove_inlines(item: &mut Item, key: &str, text: &str)
    ensures
        match item_node(*old(item)) {
            TomlNode::List(nodes) => {
                &&& item_node(*final(item)) == TomlNode::List(without_inline(nodes, key@, text@))
                &&& item_layout(*old(item)) is List
                &&& item_layout(*final(item)) == Layout::List(
                    ListLayout {
                        values: left_of(
                            nodes,
                            item_layout(*old(item))->List_0.values,
                            inline_with(key@, text@),
                        ),
                        ..item_layout(*old(item))->List_0
                    },
                )
            },
            other => item_node(*final(item)) == other && item_layout(*final(item)) == item_layout(
                *old(item),
            ),
        },
{
    if item.as_array().is_none() {
        return;
    }
    let _length: usize = list_length(item);
    let ghost all = elements(item_node(*item));
    let ghost taken = inline_with(key@, text@);
    let ghost goal = left_of(all, all, taken);
    let ghost before = item_layout(*item)->List_0;
    let ghost goal_layout = left_of(all, before.values, taken);
    let mut i: usize = 0;
    while i < list_length(item)
        invariant
            taken == inline_with(key@, text@),
            item_node(*item) is List,
            item_layout(*item) is List,
            item_layout(*item)->List_0.frame == before.frame,
            item_layout(*item)->List_0.values.len() == item_node(*item)->List_0.len(),
            i <= item_node(*item)->List_0.len(),
            left_of(item_node(*item)->List_0, item_node(*item)->List_0, taken) == goal,
            left_of(item_node(*item)->List_0, item_layout(*item)->List_0.values, taken)
                == goal_layout,
            forall|k: int| 0 <= k < i ==> !taken(#[trigger] item_node(*item)->List_0[k]),
        decreases item_node(*item)->List_0.len() - i,
    {
        let ghost now = item_node(*item)->List_0;
        let ghost now_layout = item_layout(*item)->List_0.values;
        if is_inline_with(item, i, key, text) {
            proof {
                lemma_left_without(now, now, taken, i as int);
                lemma_left_without(now, now_layout, taken, i as int);
            }
            match item.as_array_mut() {
                Some(array) => remove_value(array, i),
                None => {},
            }
        } else {
            i = i + 1;
        }
    }
    proof {
        let now = item_node(*item)->List_0;
        lemma_all_left(now, now, taken);
        lemma_all_left(now, item_layout(*item)->List_0.values, taken);
        lemma_left_is_filter(all, taken, |node: TomlNode| inline_text(node, key@) != Some(text@));
    }
}

/// The position of the first table whose `key` holds `text`.
pub(crate) fn find_with_text(tables: &ArrayOfTables, key: &str, text: &str) -> (found: Option<usize>)
    ensures
        match found {
            Some(i) => first_with_text(tables_of(*tables), 0, key@, text@) == Some(i as int) && i
                < tables_of(*tables).len() && tables_of(*tables)[i as int] is Section,
            None => first_with_text(tables_of(*tables), 0, key@, text@) is None,
        },
{
    let count: usize = tables.len();
    let mut i: usize = 0;
    while i < count
        invariant
            i <= count,
            count == tables_of(*tables).len(),
            first_with_text(tables_of(*tables), 0, key@, text@) == first_with_text(
                tables_of(*tables),
                i as int,
                key@,
                text@,
            ),
        decreases count - i,
    {
        match tables.get(i) {
            Some(table) => {
                if has_text(table, key, text) {
                    return Some(i);
                }
            },
            None => {},
        }
        i = i + 1;
    }
    None
}

/// Takes out every table whose `key` holds `text`.
pub(crate) fn remove_with_text(tables: &mut ArrayOfTables, key: &str, text: &str)
    ensures
        tables_of(*final(tables)) == without_text(tables_of(*old(tables)), key@, text@),
        tables_layout(*final(tables)) == left_of(
            tables_of(*old(tables)),
            tables_layout(*old(tables)),
            section_with(key@, text@),
        ),
{
    let ghost all = tables_of(*tables);
    let ghost taken = section_with(key@, text@);
    let ghost goal = left_of(all, all, taken);
    let ghost goal_layout = left_of(all, tables_layout(*tables), taken);
    let mut count: usize = tables.len();
    let mut i: usize = 0;
    while i < count
        invariant
            taken == section_with(key@, text@),
            i <= count,
            count == tables_of(*tables).len(),
            count == tables_layout(*tables).len(),
            left_of(tables_of(*tables), tables_of(*tables), taken) == goal,
            left_of(tables_of(*tables), tables_layout(*tables), taken) == goal_layout,
            forall|k: int| 0 <= k < i ==> !taken(#[trigger] tables_of(*tables)[k]),
        decreases count - i,
    {
        let ghost now = tables_of(*tables);
        let matches = match tables.get(i) {
            Some(table) => has_text(table, key, text),
            None => false,
        };
        if matches {
            proof {
                lemma_left_without(now, now, taken, i as int);
                lemma_left_without(now, tables_layout(*tables), taken, i as int);
            }
            tables.remove(i);
            count = count - 1;
        } else {
            i = i + 1;
        }
    }
    proof {
        lemma_all_left(tables_of(*tables), tables_of(*tables), taken);
        lemma_all_left(tables_of(*tables), tables_layout(*tables), taken);
        lemma_left_is_filter(all, taken, |table: TomlNode| section_text(table, key@) != Some(text@));
    }
}

} // verus!
