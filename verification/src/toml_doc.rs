//! Editable TOML documents: what they hold, and the operations on them that the
//! library makes use of.
use crate::text;
use vstd::prelude::*;

verus! {

/// What a part of a document holds.
pub enum TomlTree {
    /// Nothing.
    Absent,
    Text(Seq<char>),
    Integer(i64),
    Flag(bool),
    /// A list of texts.
    Texts(Seq<Seq<char>>),
    /// A value of another kind.
    Other,
    /// A table that is written as a value.
    Inline(Map<Seq<char>, TomlTree>),
    /// A table with a header.
    Table(Map<Seq<char>, TomlTree>),
    /// An array of tables.
    Tables(Seq<Map<Seq<char>, TomlTree>>),
}

/// A document.
#[verifier::external_type_specification]
#[verifier::external_body]
pub struct ExDocumentMut(toml_edit::DocumentMut);

/// A part of a document.
#[verifier::external_type_specification]
#[verifier::external_body]
pub struct ExItem(toml_edit::Item);

/// A table.
#[verifier::external_type_specification]
#[verifier::external_body]
pub struct ExTable(toml_edit::Table);

/// An array of tables.
#[verifier::external_type_specification]
#[verifier::external_body]
pub struct ExArrayOfTables(toml_edit::ArrayOfTables);

/// What a document holds.
pub uninterp spec fn doc_tree(doc: toml_edit::DocumentMut) -> Map<Seq<char>, TomlTree>;

/// What a part of a document holds.
pub uninterp spec fn item_tree(item: toml_edit::Item) -> TomlTree;

/// What a table holds.
pub uninterp spec fn table_tree(table: toml_edit::Table) -> Map<Seq<char>, TomlTree>;

/// What an array of tables holds.
pub uninterp spec fn tables_tree(tables: toml_edit::ArrayOfTables) -> Seq<Map<Seq<char>, TomlTree>>;

/// What toml_edit reads from a text, where it is a document.
pub uninterp spec fn parsed_document(s: Seq<char>) -> Option<Map<Seq<char>, TomlTree>>;

/// The text of a document.
pub uninterp spec fn doc_text(doc: toml_edit::DocumentMut) -> Seq<char>;

/// Calls `DocumentMut::from_str`, which reads a document from its text or fails.
/// Which texts are documents, and what they hold, is not stated.
#[verifier::external_body]
pub(crate) fn parse_document(s: &str) -> (r: Option<toml_edit::DocumentMut>)
    ensures
        match r {
            Some(d) => parsed_document(s@) == Some(doc_tree(d)),
            None => parsed_document(s@) is None,
        },
{
    s.parse::<toml_edit::DocumentMut>().ok()
}

/// Calls `to_string` of a document, which writes it with its formatting and its
/// comments. What the text is for a given document is not stated.
#[verifier::external_body]
pub(crate) fn render_document(doc: &toml_edit::DocumentMut) -> (r: String)
    ensures
        r@ == doc_text(*doc),
{
    doc.to_string()
}

/// Calls `DocumentMut::as_table`: the root table of a document, which holds what
/// the document holds.
#[verifier::external_body]
pub(crate) fn root(doc: &toml_edit::DocumentMut) -> (r: &toml_edit::Table)
    ensures
        table_tree(*r) == doc_tree(*doc),
{
    doc.as_table()
}

/// Calls `DocumentMut::as_table_mut`: the root table of a document, to be
/// changed. The document holds what the table holds in the end.
#[verifier::external_body]
pub(crate) fn root_mut(doc: &mut toml_edit::DocumentMut) -> (r: &mut toml_edit::Table)
    ensures
        table_tree(*r) == doc_tree(*old(doc)),
        doc_tree(*final(doc)) == table_tree(*final(r)),
{
    doc.as_table_mut()
}

/// Calls `Table::get`: the part of a table under a key, which is none where the
/// table holds nothing there.
#[verifier::external_body]
pub(crate) fn table_get<'a>(table: &'a toml_edit::Table, key: &str) -> (r: Option<&'a toml_edit::Item>)
    ensures
        match r {
            Some(i) => table_tree(*table).contains_key(key@) && item_tree(*i) == table_tree(
                *table,
            )[key@] && !(item_tree(*i) is Absent),
            None => !table_tree(*table).contains_key(key@),
        },
{
    table.get(key)
}

/// A table that holds nothing.
pub open spec fn no_parts() -> Map<Seq<char>, TomlTree> {
    Map::empty()
}

/// A table after the part under a key came to hold something, or nothing.
pub open spec fn with_part(
    table: Map<Seq<char>, TomlTree>,
    key: Seq<char>,
    part: TomlTree,
) -> Map<Seq<char>, TomlTree> {
    if part is Absent {
        table.remove(key)
    } else {
        table.insert(key, part)
    }
}

/// Calls `Table::get_mut`: the part of a table under a key, to be changed. The
/// table holds what the part holds in the end, and is not changed where it holds
/// nothing under the key.
#[verifier::external_body]
pub(crate) fn table_get_mut<'a>(table: &'a mut toml_edit::Table, key: &str) -> (r: Option<
    &'a mut toml_edit::Item,
>)
    ensures
        match r {
            Some(i) => table_tree(*old(table)).contains_key(key@) && item_tree(*i) == table_tree(
                *old(table),
            )[key@] && !(item_tree(*i) is Absent) && table_tree(*final(table)) == with_part(
                table_tree(*old(table)),
                key@,
                item_tree(*final(i)),
            ),
            None => !table_tree(*old(table)).contains_key(key@) && table_tree(*final(table))
                == table_tree(*old(table)),
        },
{
    table.get_mut(key)
}

/// Assigns to `Table`'s index: puts a part under a key.
#[verifier::external_body]
pub(crate) fn table_set(table: &mut toml_edit::Table, key: &str, item: toml_edit::Item)
    ensures
        table_tree(*final(table)) == with_part(table_tree(*old(table)), key@, item_tree(item)),
{
    table[key] = item;
}

/// Calls `Table::remove`: removes what a table holds under a key.
#[verifier::external_body]
pub(crate) fn table_remove(table: &mut toml_edit::Table, key: &str)
    ensures
        table_tree(*final(table)) == table_tree(*old(table)).remove(key@),
{
    table.remove(key);
}

/// What a table-like part holds under a key.
pub open spec fn part_of(tree: TomlTree, key: Seq<char>) -> Option<TomlTree> {
    match tree {
        TomlTree::Table(m) => if m.contains_key(key) {
            Some(m[key])
        } else {
            None
        },
        TomlTree::Inline(m) => if m.contains_key(key) {
            Some(m[key])
        } else {
            None
        },
        _ => None,
    }
}

/// Calls `Item::get` with a key: the part of a table or inline table under the
/// key, which is none where it holds nothing there or is no table.
#[verifier::external_body]
pub(crate) fn item_get<'a>(item: &'a toml_edit::Item, key: &str) -> (r: Option<&'a toml_edit::Item>)
    ensures
        match r {
            Some(i) => part_of(item_tree(*item), key@) == Some(item_tree(*i)),
            None => part_of(item_tree(*item), key@) is None,
        },
{
    item.get(key)
}

/// A single value.
pub open spec fn is_value(tree: TomlTree) -> bool {
    tree is Text || tree is Integer || tree is Flag || tree is Texts || tree is Other
}

/// A table or inline table after a value was put under a key.
pub open spec fn with_value(tree: TomlTree, key: Seq<char>, value: TomlTree) -> TomlTree {
    match tree {
        TomlTree::Table(m) => TomlTree::Table(m.insert(key, value)),
        TomlTree::Inline(m) => TomlTree::Inline(m.insert(key, value)),
        _ => tree,
    }
}

/// Assigns to `Item`'s index: puts a value under a key of a table or inline
/// table. On a part of another kind the assignment would panic.
#[verifier::external_body]
pub(crate) fn item_set(item: &mut toml_edit::Item, key: &str, value: toml_edit::Item)
    requires
        item_tree(*old(item)) is Table || item_tree(*old(item)) is Inline,
        is_value(item_tree(value)),
    ensures
        item_tree(*final(item)) == with_value(item_tree(*old(item)), key@, item_tree(value)),
{
    item[key] = value;
}

/// Calls `Item::is_table_like`: whether a part is a table or inline table.
#[verifier::external_body]
pub(crate) fn is_table_like(item: &toml_edit::Item) -> (r: bool)
    ensures
        r == (item_tree(*item) is Table || item_tree(*item) is Inline),
{
    item.is_table_like()
}

/// Calls `Item::as_table_mut`: the table that a part is, to be changed.
#[verifier::external_body]
pub(crate) fn item_table_mut(item: &mut toml_edit::Item) -> (r: Option<&mut toml_edit::Table>)
    ensures
        match r {
            Some(t) => item_tree(*old(item)) == TomlTree::Table(table_tree(*t)) && item_tree(
                *final(item),
            ) == TomlTree::Table(table_tree(*final(t))),
            None => !(item_tree(*old(item)) is Table) && item_tree(*final(item)) == item_tree(
                *old(item),
            ),
        },
{
    item.as_table_mut()
}

/// Calls `Item::as_array_of_tables_mut`: the array of tables that a part is, to
/// be changed.
#[verifier::external_body]
pub(crate) fn item_tables_mut(item: &mut toml_edit::Item) -> (r: Option<
    &mut toml_edit::ArrayOfTables,
>)
    ensures
        match r {
            Some(a) => item_tree(*old(item)) == TomlTree::Tables(tables_tree(*a)) && item_tree(
                *final(item),
            ) == TomlTree::Tables(tables_tree(*final(a))),
            None => !(item_tree(*old(item)) is Tables) && item_tree(*final(item)) == item_tree(
                *old(item),
            ),
        },
{
    item.as_array_of_tables_mut()
}

/// The text that a part is.
pub open spec fn tree_text(tree: TomlTree) -> Option<Seq<char>> {
    match tree {
        TomlTree::Text(s) => Some(s),
        _ => None,
    }
}

/// Calls `Item::as_str`: the text that a part is.
#[verifier::external_body]
pub(crate) fn item_str(item: &toml_edit::Item) -> (r: Option<&str>)
    ensures
        match r {
            Some(s) => tree_text(item_tree(*item)) == Some(s@),
            None => tree_text(item_tree(*item)) is None,
        },
{
    item.as_str()
}

/// Calls `Item::as_bool`: the truth value that a part is.
#[verifier::external_body]
pub(crate) fn item_bool(item: &toml_edit::Item) -> (r: Option<bool>)
    ensures
        match r {
            Some(b) => item_tree(*item) == TomlTree::Flag(b),
            None => !(item_tree(*item) is Flag),
        },
{
    item.as_bool()
}

/// Calls `Item::as_integer`: the integer that a part is.
#[verifier::external_body]
pub(crate) fn item_integer(item: &toml_edit::Item) -> (r: Option<i64>)
    ensures
        match r {
            Some(n) => item_tree(*item) == TomlTree::Integer(n),
            None => !(item_tree(*item) is Integer),
        },
{
    item.as_integer()
}

/// Calls `ArrayOfTables::len`: the number of tables.
#[verifier::external_body]
pub(crate) fn tables_len(tables: &toml_edit::ArrayOfTables) -> (r: usize)
    ensures
        r == tables_tree(*tables).len(),
{
    tables.len()
}

/// Calls `ArrayOfTables::get`: the table at a position.
#[verifier::external_body]
pub(crate) fn tables_get(tables: &toml_edit::ArrayOfTables, i: usize) -> (r: Option<&toml_edit::Table>)
    ensures
        match r {
            Some(t) => i < tables_tree(*tables).len() && table_tree(*t) == tables_tree(
                *tables,
            )[i as int],
            None => i >= tables_tree(*tables).len(),
        },
{
    tables.get(i)
}

/// Calls `ArrayOfTables::get_mut`: the table at a position, to be changed.
#[verifier::external_body]
pub(crate) fn tables_get_mut(tables: &mut toml_edit::ArrayOfTables, i: usize) -> (r: Option<
    &mut toml_edit::Table,
>)
    ensures
        match r {
            Some(t) => i < tables_tree(*old(tables)).len() && table_tree(*t) == tables_tree(
                *old(tables),
            )[i as int] && tables_tree(*final(tables)) == tables_tree(*old(tables)).update(
                i as int,
                table_tree(*final(t)),
            ),
            None => i >= tables_tree(*old(tables)).len() && tables_tree(*final(tables))
                == tables_tree(*old(tables)),
        },
{
    tables.get_mut(i)
}

/// Calls `ArrayOfTables::push`: appends a table.
#[verifier::external_body]
pub(crate) fn tables_push(tables: &mut toml_edit::ArrayOfTables, table: toml_edit::Table)
    ensures
        tables_tree(*final(tables)) == tables_tree(*old(tables)).push(table_tree(table)),
{
    tables.push(table);
}

/// Calls `ArrayOfTables::remove`: removes the table at a position. Beyond the
/// end it would panic.
#[verifier::external_body]
pub(crate) fn tables_remove(tables: &mut toml_edit::ArrayOfTables, i: usize)
    requires
        i < tables_tree(*old(tables)).len(),
    ensures
        tables_tree(*final(tables)) == tables_tree(*old(tables)).remove(i as int),
{
    tables.remove(i);
}

/// Calls `Table::new`: a table that holds nothing.
#[verifier::external_body]
pub(crate) fn new_table() -> (r: toml_edit::Table)
    ensures
        table_tree(r) == no_parts(),
{
    toml_edit::Table::new()
}

/// Makes an `Item` of a table.
#[verifier::external_body]
pub(crate) fn table_item(table: toml_edit::Table) -> (r: toml_edit::Item)
    ensures
        item_tree(r) == TomlTree::Table(table_tree(table)),
{
    toml_edit::Item::Table(table)
}

/// Calls `ArrayOfTables::new`: an array without tables, as an `Item`.
#[verifier::external_body]
pub(crate) fn no_tables_item() -> (r: toml_edit::Item)
    ensures
        item_tree(r) == TomlTree::Tables(Seq::empty()),
{
    toml_edit::Item::ArrayOfTables(toml_edit::ArrayOfTables::new())
}

/// Calls `toml_edit::value` on a text.
#[verifier::external_body]
pub(crate) fn text_item(s: &str) -> (r: toml_edit::Item)
    ensures
        item_tree(r) == TomlTree::Text(s@),
{
    toml_edit::value(s)
}

/// Calls `toml_edit::value` on an integer.
#[verifier::external_body]
pub(crate) fn integer_item(n: i64) -> (r: toml_edit::Item)
    ensures
        item_tree(r) == TomlTree::Integer(n),
{
    toml_edit::value(n)
}

/// Calls `toml_edit::value` on a truth value.
#[verifier::external_body]
pub(crate) fn flag_item(b: bool) -> (r: toml_edit::Item)
    ensures
        item_tree(r) == TomlTree::Flag(b),
{
    toml_edit::value(b)
}

/// Calls `toml_edit::value` on an array of texts.
#[verifier::external_body]
pub(crate) fn texts_item(v: &Vec<String>) -> (r: toml_edit::Item)
    ensures
        item_tree(r) == TomlTree::Texts(text::texts(v@)),
{
    toml_edit::value(v.iter().map(|s| s.as_str()).collect::<toml_edit::Array>())
}

/// What toml_edit reads from a text, where it is a value.
pub uninterp spec fn parsed_value(s: Seq<char>) -> Option<TomlTree>;

/// Calls `Value::from_str`, which reads a single value from its text or fails.
/// Which texts are values, and what they hold, is not stated.
#[verifier::external_body]
pub(crate) fn value_item(s: &str) -> (r: Option<toml_edit::Item>)
    ensures
        match r {
            Some(i) => parsed_value(s@) == Some(item_tree(i)) && !(item_tree(i) is Absent),
            None => parsed_value(s@) is None,
        },
{
    s.parse::<toml_edit::Value>().ok().map(toml_edit::Item::Value)
}

/// The table under a key: a new one where there is nothing, and none where
/// there is something else.
pub open spec fn table_or_new(
    table: Map<Seq<char>, TomlTree>,
    key: Seq<char>,
) -> Option<Map<Seq<char>, TomlTree>> {
    if !table.contains_key(key) {
        Some(no_parts())
    } else {
        match table[key] {
            TomlTree::Table(t) => Some(t),
            _ => None,
        }
    }
}

/// The table under a key, to be changed, made where there is nothing.
pub(crate) fn subtable_mut<'a>(table: &'a mut toml_edit::Table, key: &str) -> (r: Option<
    &'a mut toml_edit::Table,
>)
    ensures
        match r {
            Some(t) => table_or_new(table_tree(*old(table)), key@) == Some(table_tree(*t))
                && table_tree(*final(table)) == table_tree(*old(table)).insert(
                key@,
                TomlTree::Table(table_tree(*final(t))),
            ),
            None => table_or_new(table_tree(*old(table)), key@) is None && table_tree(*final(table))
                == table_tree(*old(table)),
        },
{
    if table_get(table, key).is_none() {
        let t = new_table();
        table_set(table, key, table_item(t));
    }
    assert forall|part: TomlTree| #[trigger]
        table_tree(*table).insert(key@, part) == table_tree(*old(table)).insert(key@, part) by {
        assert(table_tree(*table).insert(key@, part) =~= table_tree(*old(table)).insert(key@, part));
    }
    assert(table_tree(*table).insert(key@, table_tree(*table)[key@]) =~= table_tree(*table));
    match table_get_mut(table, key) {
        Some(item) => item_table_mut(item),
        None => None,
    }
}

/// The text under a key of a table.
pub open spec fn text_at(table: Map<Seq<char>, TomlTree>, key: Seq<char>) -> Option<Seq<char>> {
    if table.contains_key(key) {
        tree_text(table[key])
    } else {
        None
    }
}

/// The text under a key of a table.
pub(crate) fn table_text<'a>(table: &'a toml_edit::Table, key: &str) -> (r: Option<&'a str>)
    ensures
        match r {
            Some(s) => text_at(table_tree(*table), key@) == Some(s@),
            None => text_at(table_tree(*table), key@) is None,
        },
{
    match table_get(table, key) {
        Some(item) => item_str(item),
        None => None,
    }
}

/// What a part holds two keys down.
pub open spec fn section(
    doc: Map<Seq<char>, TomlTree>,
    outer: Seq<char>,
    inner: Seq<char>,
) -> Option<TomlTree> {
    if doc.contains_key(outer) {
        part_of(doc[outer], inner)
    } else {
        None
    }
}

/// The part of a document two keys down.
pub(crate) fn find_section<'a>(
    doc: &'a toml_edit::DocumentMut,
    outer: &str,
    inner: &str,
) -> (r: Option<&'a toml_edit::Item>)
    ensures
        match r {
            Some(i) => section(doc_tree(*doc), outer@, inner@) == Some(
                item_tree(*i),
            ),
            None => section(doc_tree(*doc), outer@, inner@) is None,
        },
{
    match table_get(root(doc), outer) {
        Some(o) => item_get(o, inner),
        None => None,
    }
}

/// A part holds a text under a key that is not empty.
pub open spec fn has_text_at(part: TomlTree, key: Seq<char>) -> bool {
    match part_of(part, key) {
        Some(TomlTree::Text(s)) => s.len() > 0,
        _ => false,
    }
}

/// Whether a part holds a text under a key that is not empty.
pub(crate) fn holds_text_at(item: &toml_edit::Item, key: &str) -> (r: bool)
    ensures
        r == has_text_at(item_tree(*item), key@),
{
    match item_get(item, key) {
        Some(v) => match item_str(v) {
            Some(s) => !s.is_empty(),
            None => false,
        },
        None => false,
    }
}

/// A part is a table or an inline table, or is not there.
pub open spec fn takes_values(table: Map<Seq<char>, TomlTree>, key: Seq<char>) -> bool {
    table.contains_key(key) ==> table[key] is Table || table[key] is Inline
}

/// A document with a table under a key, which is made where there is nothing.
pub open spec fn ensured(table: Map<Seq<char>, TomlTree>, key: Seq<char>) -> Map<
    Seq<char>,
    TomlTree,
> {
    if table.contains_key(key) {
        table
    } else {
        table.insert(key, TomlTree::Table(no_parts()))
    }
}

/// A document with a value two keys down.
pub open spec fn with_in(
    table: Map<Seq<char>, TomlTree>,
    outer: Seq<char>,
    inner: Seq<char>,
    value: TomlTree,
) -> Map<Seq<char>, TomlTree> {
    let t = ensured(table, outer);
    t.insert(outer, with_value(t[outer], inner, value))
}

/// Makes a table under a key where there is nothing.
pub(crate) fn ensure_table(doc: &mut toml_edit::DocumentMut, key: &str)
    ensures
        doc_tree(*final(doc)) == ensured(doc_tree(*old(doc)), key@),
{
    let table = root_mut(doc);
    if table_get(table, key).is_none() {
        table_set(table, key, table_item(new_table()));
    }
}

/// Puts a value two keys down.
pub(crate) fn set_in(
    doc: &mut toml_edit::DocumentMut,
    outer: &str,
    inner: &str,
    value: toml_edit::Item,
)
    requires
        takes_values(doc_tree(*old(doc)), outer@),
        is_value(item_tree(value)),
    ensures
        doc_tree(*final(doc)) == with_in(
            doc_tree(*old(doc)),
            outer@,
            inner@,
            item_tree(value),
        ),
{
    ensure_table(doc, outer);
    if let Some(item) = table_get_mut(root_mut(doc), outer) {
        item_set(item, inner, value);
    }
}

/// Whether a part is a table or an inline table, or is not there.
pub(crate) fn can_take_values(doc: &toml_edit::DocumentMut, key: &str) -> (r: bool)
    ensures
        r == takes_values(doc_tree(*doc), key@),
{
    match table_get(root(doc), key) {
        Some(item) => is_table_like(item),
        None => true,
    }
}

/// Whether a text is the text of some document that holds the given parts.
pub open spec fn renders(text: Seq<char>, tree: Map<Seq<char>, TomlTree>) -> bool {
    exists|doc: toml_edit::DocumentMut| #[trigger] doc_text(doc) == text && doc_tree(doc) == tree
}

} // verus!
