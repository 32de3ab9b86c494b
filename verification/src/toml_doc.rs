//! TOML documents, read through `toml_edit`, described by a plain model of
//! what the manifest logic reads.

use vstd::prelude::*;

verus! {

#[verifier::external_type_specification]
#[verifier::external_body]
pub struct ExTomlItem(toml_edit::Item);

#[verifier::external_type_specification]
#[verifier::external_body]
pub struct ExTomlError(toml_edit::TomlError);

/// What a TOML item holds, as far as the manifest logic reads it: a string, a
/// boolean, an array of values, a table (standard or inline) with its entries
/// in document order, or something else (numbers, dates, arrays of tables).
pub enum TomlNode {
    Str(Seq<char>),
    Bool(bool),
    Array(Seq<TomlNode>),
    Table(Seq<(Seq<char>, TomlNode)>),
    Other,
}

/// What a `toml_edit::Item` holds: `Str` for a string value, `Bool` for a
/// boolean value, `Array` with the items of an array value, `Table` with the
/// entries that `TableLike::iter` yields for a table or inline table, and
/// `Other` for anything else.
pub uninterp spec fn toml_item(item: toml_edit::Item) -> TomlNode;

/// What parsing a text as a `toml_edit::DocumentMut` yields: the model of its
/// root item, or, when the text is not a TOML document, the message that
/// `Display` of the parse error shows.
pub uninterp spec fn toml_parse(text: Seq<char>) -> Result<TomlNode, Seq<char>>;

/// A successful parse into the given root.
pub open spec fn toml_parsed(root: TomlNode) -> Result<TomlNode, Seq<char>> {
    Ok(root)
}

/// A rejected text, with the parse error's message.
pub open spec fn toml_rejected(message: Seq<char>) -> Result<TomlNode, Seq<char>> {
    Err(message)
}

/// What `Display` of `toml_edit::TomlError` shows for an error: the
/// parser's description of what is wrong and where.
pub uninterp spec fn toml_error_message(error: toml_edit::TomlError) -> Seq<char>;

/// The entry stored under a key, the first one when several share it.
pub open spec fn entry_lookup(entries: Seq<(Seq<char>, TomlNode)>, key: Seq<char>) -> Option<
    TomlNode,
>
    decreases entries.len(),
{
    if entries.len() == 0 {
        None
    } else if entries[0].0 == key {
        Some(entries[0].1)
    } else {
        entry_lookup(entries.drop_first(), key)
    }
}

/// The item stored under a key of a table (`None` for anything else).
pub open spec fn node_get(n: TomlNode, key: Seq<char>) -> Option<TomlNode> {
    match n {
        TomlNode::Table(entries) => entry_lookup(entries, key),
        _ => None,
    }
}

/// The text of a string item.
pub open spec fn node_str(n: TomlNode) -> Option<Seq<char>> {
    match n {
        TomlNode::Str(s) => Some(s),
        _ => None,
    }
}

/// The value of a boolean item.
pub open spec fn node_bool(n: TomlNode) -> Option<bool> {
    match n {
        TomlNode::Bool(b) => Some(b),
        _ => None,
    }
}

/// The items of an array (empty for anything else).
pub open spec fn node_items(n: TomlNode) -> Seq<TomlNode> {
    match n {
        TomlNode::Array(s) => s,
        _ => Seq::empty(),
    }
}

/// The model of an optional item reference.
pub open spec fn opt_node(r: Option<&toml_edit::Item>) -> Option<TomlNode> {
    match r {
        Some(i) => Some(toml_item(*i)),
        None => None,
    }
}

/// The model of a list of table entries.
pub open spec fn entries_model(v: Seq<(&str, &toml_edit::Item)>) -> Seq<(Seq<char>, TomlNode)> {
    v.map_values(|p: (&str, &toml_edit::Item)| (p.0@, toml_item(*p.1)))
}

/// The texts of the string items among `items`, in order.
pub open spec fn strings_of(items: Seq<TomlNode>) -> Seq<Seq<char>>
    decreases items.len(),
{
    if items.len() == 0 {
        Seq::empty()
    } else {
        let rest = strings_of(items.drop_last());
        match items.last() {
            TomlNode::Str(s) => rest.push(s),
            _ => rest,
        }
    }
}

/// `Clone` of `toml_edit::Item`: the copy holds the same.
pub assume_specification[ <toml_edit::Item as std::clone::Clone>::clone ](item: &toml_edit::Item) -> (r: toml_edit::Item)
    ensures
        toml_item(r) == toml_item(*item),
;

/// Parses a text as a `toml_edit::DocumentMut` and hands out its root item,
/// which is always a table.
#[verifier::external_body]
pub(crate) fn parse_toml(text: &str) -> (r: Result<toml_edit::Item, toml_edit::TomlError>)
    ensures
        r is Ok <==> toml_parse(text@) is Ok,
        r matches Ok(root) ==> toml_parse(text@) == toml_parsed(toml_item(root)),
        r matches Err(e) ==> toml_parse(text@) == toml_rejected(toml_error_message(e)),
        r matches Ok(root) ==> toml_item(root) is Table,
{
    text.parse::<toml_edit::DocumentMut>().map(toml_edit::DocumentMut::into_item)
}

/// `Item::as_table_like` followed by `TableLike::get`: the item under a key of
/// a table or inline table.
#[verifier::external_body]
pub(crate) fn item_get<'a>(item: &'a toml_edit::Item, key: &str) -> (r: Option<&'a toml_edit::Item>)
    ensures
        opt_node(r) == node_get(toml_item(*item), key@),
{
    item.as_table_like().and_then(|table| table.get(key))
}

/// `Item::as_str`: the text of a string value.
#[verifier::external_body]
pub(crate) fn item_as_str<'a>(item: &'a toml_edit::Item) -> (r: Option<&'a str>)
    ensures
        crate::text::opt_str_text(r) == node_str(toml_item(*item)),
{
    item.as_str()
}

/// `Item::as_bool`: the value of a boolean value.
#[verifier::external_body]
pub(crate) fn item_as_bool(item: &toml_edit::Item) -> (r: Option<bool>)
    ensures
        r == node_bool(toml_item(*item)),
{
    item.as_bool()
}

/// `Item::as_array` followed by `Array::len`: the number of items of an array
/// value.
#[verifier::external_body]
pub(crate) fn item_array_len(item: &toml_edit::Item) -> (r: Option<usize>)
    ensures
        match toml_item(*item) {
            TomlNode::Array(s) => r == Some(s.len() as usize) && s.len() <= usize::MAX,
            _ => r is None,
        },
{
    match item.as_array() {
        Some(array) => Some(array.len()),
        None => None,
    }
}

/// `Item::get` with an index: the item at a position of an array value.
#[verifier::external_body]
pub(crate) fn item_array_get<'a>(item: &'a toml_edit::Item, index: usize) -> (r: Option<&'a toml_edit::Item>)
    requires
        toml_item(*item) is Array,
        node_items(toml_item(*item)).len() > index,
    ensures
        opt_node(r) == Some(node_items(toml_item(*item))[index as int]),
{
    item.get(index)
}

/// `Item::as_table_like` followed by `TableLike::iter`: the entries of a
/// table or inline table, in document order.
#[verifier::external_body]
pub(crate) fn item_table_entries<'a>(item: &'a toml_edit::Item) -> (r: Option<Vec<(&'a str, &'a toml_edit::Item)>>)
    ensures
        match toml_item(*item) {
            TomlNode::Table(entries) => r matches Some(v) && entries_model(v@) == entries,
            _ => r is None,
        },
{
    match item.as_table_like() {
        Some(table) => Some(table.iter().collect()),
        None => None,
    }
}

/// The texts of the string items of an array value, in order (empty for
/// anything else).
pub fn array_strings(item: &toml_edit::Item) -> (r: Vec<String>)
    ensures
        crate::identity::texts(r@) == match toml_item(*item) {
            TomlNode::Array(s) => strings_of(s),
            _ => Seq::empty(),
        },
{
    let mut out: Vec<String> = Vec::new();
    match item_array_len(item) {
        None => out,
        Some(n) => {
            let ghost s = node_items(toml_item(*item));
            for i in 0..n
                invariant
                    toml_item(*item) is Array,
                    s == node_items(toml_item(*item)),
                    n == s.len(),
                    crate::identity::texts(out@) == strings_of(s.take(i as int)),
            {
                let element = item_array_get(item, i).unwrap();
                proof {
                    assert(s.take(i + 1).drop_last() =~= s.take(i as int));
                }
                match item_as_str(element) {
                    Some(text) => {
                        out.push(String::from_str(text));
                        assert(crate::identity::texts(out@) =~= strings_of(s.take(i + 1)));
                    },
                    None => {
                        assert(crate::identity::texts(out@) =~= strings_of(s.take(i + 1)));
                    },
                }
            }
            proof {
                assert(s.take(n as int) =~= s);
            }
            out
        },
    }
}

} // verus!
