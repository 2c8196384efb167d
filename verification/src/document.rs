//! Settings documents: the tree that the TOML parser makes of a file.
//!
//! The parser's value is kept as it is and read through a few accessors.
//! What it holds is modelled by [`Document`], and every accessor's contract
//! is stated over that model.

use vstd::prelude::*;

verus! {

#[verifier::external_type_specification]
#[verifier::external_body]
pub struct ExTomlValue(toml::Value);

/// What a parsed document holds, as far as the settings read it.
pub enum Document {
    /// A string.
    Text(Seq<char>),
    /// A boolean.
    Flag(bool),
    /// An array, in the order of the file.
    List(Seq<Document>),
    /// A table, by key.
    Table(Map<Seq<char>, Document>),
    /// A number or a date.
    Other,
}

/// The model of a parsed value.
pub uninterp spec fn document_of(value: toml::Value) -> Document;

/// The document that `text` is the TOML notation of; `None` where `text`
/// is not TOML.
pub uninterp spec fn parsed_document(text: Seq<char>) -> Option<Document>;

/// Calls `toml::from_str` for a `toml::Value`.
///
/// Trusted: whether the text parses, and the document it parses to, depend
/// on the text alone.
#[verifier::external_body]
pub(crate) fn parse_document(text: &str) -> (r: Option<toml::Value>)
    ensures
        match r {
            Some(value) => parsed_document(text@) == Some(document_of(value)),
            None => parsed_document(text@) is None,
        },
{
    toml::from_str(text).ok()
}

/// Calls `toml::Value::get` with a string index.
///
/// Trusted: the entry under `key` where the value is a table that has the
/// key, `None` for any other value and for a missing key.
#[verifier::external_body]
pub(crate) fn member<'a>(value: &'a toml::Value, key: &str) -> (r: Option<&'a toml::Value>)
    ensures
        match r {
            Some(found) => document_of(*value) matches Document::Table(entries)
                && entries.contains_key(key@) && document_of(*found) == entries[key@],
            None => !(document_of(*value) matches Document::Table(entries)
                && entries.contains_key(key@)),
        },
{
    value.get(key)
}

/// Calls `toml::Value::as_table` and lists the table's keys.
///
/// Trusted: `None` for a value that is no table; for a table, exactly its
/// keys.
#[verifier::external_body]
pub(crate) fn table_keys(value: &toml::Value) -> (r: Option<Vec<String>>)
    ensures
        match r {
            Some(keys) => document_of(*value) matches Document::Table(entries) && forall|
                k: Seq<char>,
            |
                entries.contains_key(k) <==> keys.deep_view().contains(k),
            None => !(document_of(*value) is Table),
        },
{
    value.as_table().map(|t| t.keys().cloned().collect())
}

/// Calls `toml::Value::as_bool`.
///
/// Trusted: the boolean where the value is one, else `None`.
#[verifier::external_body]
pub(crate) fn as_flag(value: &toml::Value) -> (r: Option<bool>)
    ensures
        match r {
            Some(flag) => document_of(*value) == Document::Flag(flag),
            None => !(document_of(*value) is Flag),
        },
{
    value.as_bool()
}

/// Calls `toml::Value::as_str`.
///
/// Trusted: the string where the value is one, else `None`.
#[verifier::external_body]
pub(crate) fn as_text<'a>(value: &'a toml::Value) -> (r: Option<&'a str>)
    ensures
        match r {
            Some(text) => document_of(*value) == Document::Text(text@),
            None => !(document_of(*value) is Text),
        },
{
    value.as_str()
}

/// Calls `toml::Value::as_array`.
///
/// Trusted: the items, in order, where the value is an array, else `None`.
#[verifier::external_body]
pub(crate) fn as_list<'a>(value: &'a toml::Value) -> (r: Option<&'a Vec<toml::Value>>)
    ensures
        match r {
            Some(items) => document_of(*value) == Document::List(
                items@.map_values(|v: toml::Value| document_of(v)),
            ),
            None => !(document_of(*value) is List),
        },
{
    value.as_array()
}

} // verus!
