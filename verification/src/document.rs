//! TOML as the manifests use it: a document of arrays of tables whose fields
//! are texts and flags. The `toml` crate reads and writes the syntax.

use crate::location::Span;
use std::collections::BTreeMap;
use toml::{Spanned, Table, Value};
use vstd::prelude::*;
use vstd::string::*;

verus! {

/// The value of one field of a table.
#[derive(Debug, PartialEq, Eq)]
pub enum RawField {
    /// A string.
    Text(String),
    /// A boolean.
    Flag(bool),
    /// A value of any other kind.
    Other,
}

/// What a [`RawField`] stands for.
pub enum RawFieldView {
    Text(Seq<char>),
    Flag(bool),
    Other,
}

impl DeepView for RawField {
    type V = RawFieldView;

    open spec fn deep_view(&self) -> RawFieldView {
        match self {
            RawField::Text(s) => RawFieldView::Text(s@),
            RawField::Flag(b) => RawFieldView::Flag(*b),
            RawField::Other => RawFieldView::Other,
        }
    }
}

/// One table of an array of tables: where it stands in the text, and its
/// fields by key.
#[derive(Debug, PartialEq, Eq)]
pub struct RawTable {
    pub span: Span,
    pub fields: Vec<(String, RawField)>,
}

impl RawTable {
    /// The table with `fields` that stands at `span`.
    pub fn new(span: core::ops::Range<usize>, fields: Vec<(String, RawField)>) -> (r: RawTable)
        ensures
            r.span == (Span { start: span.start, end: span.end }),
            r.fields == fields,
    {
        RawTable { span: Span { start: span.start, end: span.end }, fields }
    }
}

/// What a [`RawTable`] stands for.
pub struct RawTableView {
    pub start: nat,
    pub end: nat,
    pub fields: Seq<(Seq<char>, RawFieldView)>,
}

impl DeepView for RawTable {
    type V = RawTableView;

    open spec fn deep_view(&self) -> RawTableView {
        RawTableView {
            start: self.span.start as nat,
            end: self.span.end as nat,
            fields: self.fields.deep_view(),
        }
    }
}

/// A document: its top-level keys, each with the tables of its array.
pub type RawDocument = Vec<(String, Vec<RawTable>)>;

/// What a [`RawDocument`] stands for.
pub type RawDocumentView = Seq<(Seq<char>, Seq<RawTableView>)>;

/// What `toml::from_str` reads `source` as, where every top-level value is
/// an array of tables; `None` where it reports an error.
pub uninterp spec fn toml_document(source: Seq<char>) -> Option<RawDocumentView>;

/// Calls `toml::from_str` for a map from top-level keys to arrays of spanned
/// tables and copies what it read: each table's span as `Spanned::span`
/// gives it, each field's string or boolean, `Other` for a value of another
/// kind. On an error it hands back the error's message. The contract only
/// gives the outcome a name.
#[verifier::external_body]
pub(crate) fn read_toml(source: &str) -> (r: Result<RawDocument, String>)
    ensures
        r matches Ok(doc) ==> toml_document(source@) == Some(doc.deep_view()),
        r is Err ==> toml_document(source@) is None,
{
    let field = |value| match value {
        Value::String(text) => RawField::Text(text),
        Value::Boolean(flag) => RawField::Flag(flag),
        _ => RawField::Other,
    };
    let table = |t: Spanned<Table>| RawTable::new(
        t.span(),
        t.into_inner().into_iter().map(|(k, v)| (k, field(v))).collect(),
    );
    let doc: BTreeMap<String, Vec<Spanned<Table>>> = toml::from_str(source).map_err(
        |error| error.to_string(),
    )?;
    Ok(doc.into_iter().map(|(k, v)| (k, v.into_iter().map(table).collect())).collect())
}

/// What `toml::to_string` writes for a table that holds the strings
/// `fields` by key, in that order; `None` where it reports an error.
pub uninterp spec fn toml_text(fields: Seq<(Seq<char>, Seq<char>)>) -> Option<Seq<char>>;

/// Calls `toml::to_string` on a `toml::Table` made of `fields`, each value
/// a TOML string. The contract only gives the outcome a name.
#[verifier::external_body]
pub(crate) fn write_toml(fields: &Vec<(String, String)>) -> (r: Option<String>)
    ensures
        r matches Some(text) ==> toml_text(fields.deep_view()) == Some(text@),
        r is None ==> toml_text(fields.deep_view()) is None,
{
    let table: Table = fields.iter().map(
        |(key, value)| (key.clone(), Value::String(value.clone())),
    ).collect();
    toml::to_string(&table).ok()
}

} // verus!
