//! A parsed TOML document as plain values: what the template files of a
//! project declare, ready to be read by the rules below.
//!
//! The document itself is parsed by `toml_edit`; this model keeps the
//! parts a reader looks at.
use vstd::prelude::*;
use crate::text::str_eq;

verus! {

/// A TOML item.
#[derive(Debug)]
pub enum TomlItem {
    /// A string value.
    Str(String),
    /// A boolean value.
    Bool(bool),
    /// An integer value.
    Int(i64),
    /// A floating-point value, as `f64`'s `Display` writes it.
    Float(String),
    /// An array value; its elements are values.
    Array(Vec<TomlItem>),
    /// Any other value: a date-time or an inline table.
    OtherValue,
    /// A table (not an inline one), its entries in order.
    Table(Vec<(String, TomlItem)>),
    /// An array of tables.
    TableArray(Vec<Vec<(String, TomlItem)>>),
}

/// The item stored under `key` among `es`, the first if several are.
pub open spec fn entry_get(es: Seq<(String, TomlItem)>, key: Seq<char>) -> Option<TomlItem>
    decreases es.len(),
{
    if es.len() == 0 {
        None
    } else if es[0].0@ == key {
        Some(es[0].1)
    } else {
        entry_get(es.skip(1), key)
    }
}

/// The text of a string item.
pub open spec fn item_str(i: Option<TomlItem>) -> Option<Seq<char>> {
    match i {
        Some(TomlItem::Str(s)) => Some(s@),
        _ => None,
    }
}

/// The tables of an array of tables; none for any other item.
pub open spec fn item_tables(i: Option<TomlItem>) -> Seq<Vec<(String, TomlItem)>> {
    match i {
        Some(TomlItem::TableArray(v)) => v@,
        _ => Seq::empty(),
    }
}

/// Reads each of `ts[..k]` with `f`, stopping at the first error.
pub open spec fn read_all<T>(
    ts: Seq<Vec<(String, TomlItem)>>,
    f: spec_fn(Seq<(String, TomlItem)>) -> Result<T, Seq<char>>,
    k: int,
) -> Result<Seq<T>, Seq<char>>
    decreases k,
{
    if k <= 0 {
        Ok(Seq::empty())
    } else {
        match read_all(ts, f, k - 1) {
            Err(e) => Err(e),
            Ok(prev) => match f(ts[k - 1]@) {
                Err(e) => Err(e),
                Ok(x) => Ok(prev.push(x)),
            },
        }
    }
}

/// Once reading has failed, reading more tables keeps the same error.
pub proof fn lemma_read_all_err<T>(
    ts: Seq<Vec<(String, TomlItem)>>,
    f: spec_fn(Seq<(String, TomlItem)>) -> Result<T, Seq<char>>,
    k: int,
    n: int,
)
    requires
        0 <= k <= n,
        read_all(ts, f, k) is Err,
    ensures
        read_all(ts, f, n) == read_all(ts, f, k),
    decreases n - k,
{
    if k < n {
        lemma_read_all_err(ts, f, k, n - 1);
    }
}

/// The item stored under `key`, the first if several are.
pub fn get_entry<'a>(es: &'a Vec<(String, TomlItem)>, key: &str) -> (r: Option<&'a TomlItem>)
    ensures
        match r {
            Some(i) => entry_get(es@, key@) == Some(*i),
            None => entry_get(es@, key@) is None,
        },
{
    let mut k: usize = 0;
    proof {
        assert(es@.skip(0) =~= es@);
    }
    while k < es.len()
        invariant
            k <= es@.len(),
            entry_get(es@, key@) == entry_get(es@.skip(k as int), key@),
        decreases es@.len() - k,
    {
        proof {
            assert(es@.skip(k as int).skip(1) =~= es@.skip(k + 1));
        }
        if str_eq(es[k].0.as_str(), key) {
            return Some(&es[k].1);
        }
        k = k + 1;
    }
    None
}

/// The text of the string stored under `key`, if there is one.
pub fn get_str<'a>(es: &'a Vec<(String, TomlItem)>, key: &str) -> (r: Option<&'a String>)
    ensures
        match r {
            Some(s) => item_str(entry_get(es@, key@)) == Some(s@),
            None => item_str(entry_get(es@, key@)) is None,
        },
{
    match get_entry(es, key) {
        Some(TomlItem::Str(s)) => Some(s),
        _ => None,
    }
}

/// The tables of the array of tables stored under `key`, if there is one.
pub fn get_tables<'a>(es: &'a Vec<(String, TomlItem)>, key: &str) -> (r: Option<&'a Vec<Vec<(String, TomlItem)>>>)
    ensures
        match r {
            Some(v) => item_tables(entry_get(es@, key@)) == v@ && entry_get(es@, key@) is Some,
            None => item_tables(entry_get(es@, key@)) == Seq::<Vec<(String, TomlItem)>>::empty(),
        },
{
    match get_entry(es, key) {
        Some(TomlItem::TableArray(v)) => Some(v),
        _ => None,
    }
}

/// A `toml_edit` document, carried along unread.
#[verifier::external_type_specification]
#[verifier::external_body]
pub struct ExTomlDocument(toml_edit::DocumentMut);

/// A `toml_edit` table, carried along unread.
#[verifier::external_type_specification]
#[verifier::external_body]
pub struct ExTomlTable(toml_edit::Table);

/// A `toml_edit` item, carried along unread.
#[verifier::external_type_specification]
#[verifier::external_body]
pub struct ExTomlEntry(toml_edit::Item);

/// A `toml_edit` value, carried along unread.
#[verifier::external_type_specification]
#[verifier::external_body]
pub struct ExTomlValue(toml_edit::Value);

/// What `toml_edit` reads from the text `content`: the top-level entries
/// of the document, in order, as plain items; or the parser's message.
pub uninterp spec fn toml_document_of(content: Seq<char>) -> Result<Seq<(String, TomlItem)>, Seq<char>>;

/// A `toml_edit` value as a plain item, converted variant by variant.
#[verifier::external_body]
fn toml_value_item(v: &toml_edit::Value) -> TomlItem {
    match v {
        toml_edit::Value::String(s) => TomlItem::Str(s.value().clone()),
        toml_edit::Value::Boolean(b) => TomlItem::Bool(*b.value()),
        toml_edit::Value::Integer(i) => TomlItem::Int(*i.value()),
        toml_edit::Value::Float(f) => TomlItem::Float(f.value().to_string()),
        toml_edit::Value::Array(a) => TomlItem::Array(a.iter().map(toml_value_item).collect()),
        _ => TomlItem::OtherValue,
    }
}

/// A `toml_edit` item as a plain item, converted variant by variant.
#[verifier::external_body]
fn toml_entry_item(i: &toml_edit::Item) -> TomlItem {
    match i {
        toml_edit::Item::None => TomlItem::OtherValue,
        toml_edit::Item::Value(v) => toml_value_item(v),
        toml_edit::Item::Table(t) => TomlItem::Table(toml_table_entries(t)),
        toml_edit::Item::ArrayOfTables(a) => TomlItem::TableArray(a.iter().map(toml_table_entries).collect()),
    }
}

/// The entries of a `toml_edit` table, in order, as plain items.
#[verifier::external_body]
fn toml_table_entries(t: &toml_edit::Table) -> Vec<(String, TomlItem)> {
    t.iter().map(|(k, i)| (k.to_string(), toml_entry_item(i))).collect()
}

/// Parses `content` with `toml_edit::DocumentMut`'s `FromStr` and converts
/// the top-level entries to plain items, or the error to its message. The
/// contract names the result: it depends on `content` alone.
#[verifier::external_body]
pub(crate) fn toml_document(content: &str) -> (r: Result<Vec<(String, TomlItem)>, String>)
    ensures
        toml_document_of(content@) == match r {
            Ok(v) => Ok::<Seq<(String, TomlItem)>, Seq<char>>(v@),
            Err(e) => Err::<Seq<(String, TomlItem)>, Seq<char>>(e@),
        },
{
    match content.parse::<toml_edit::DocumentMut>() {
        Ok(doc) => Ok(toml_table_entries(doc.as_table())),
        Err(e) => Err(e.to_string()),
    }
}

} // verus!
