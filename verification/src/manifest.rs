//! Reading a package manifest: the TOML document as the library holds it,
//! the parse (by the `toml` crate), and the identity fields and direct
//! dependency count that the workspace report shows.

use vstd::prelude::*;
use crate::air::{ManifestIdentity, ManifestIdentityView};
use crate::text::str_eq;

verus! {

/// A TOML value as the manifest logic reads it: a string, a table (its
/// entries in the parser's order), or any other kind of value.
#[derive(Debug)]
pub enum TomlNode {
    Text(String),
    Table(Vec<(String, TomlNode)>),
    Other,
}

/// The mathematical form of a `TomlNode`.
pub enum TomlNodeView {
    Text(Seq<char>),
    Table(Seq<(Seq<char>, TomlNodeView)>),
    Other,
}

pub open spec fn node_view(n: TomlNode) -> TomlNodeView
    decreases n, 1nat,
{
    match n {
        TomlNode::Text(s) => TomlNodeView::Text(s@),
        TomlNode::Table(es) => TomlNodeView::Table(entries_view(es@)),
        TomlNode::Other => TomlNodeView::Other,
    }
}

pub open spec fn entries_view(es: Seq<(String, TomlNode)>) -> Seq<(Seq<char>, TomlNodeView)>
    decreases es, 0nat,
{
    if es.len() == 0 {
        Seq::empty()
    } else {
        proof {
            assert(decreases_to!(es => es[es.len() - 1]));
            assert(decreases_to!(es => es.subrange(0, es.len() - 1)));
        }
        entries_view(es.subrange(0, es.len() - 1)).push((es[es.len() - 1].0@, node_view(es[es.len() - 1].1)))
    }
}

impl View for TomlNode {
    type V = TomlNodeView;

    open spec fn view(&self) -> TomlNodeView {
        node_view(*self)
    }
}

/// The document the `toml` crate reads from a text, as a `TomlNode` holds it
/// (see `parse_toml`), or the text of its parse error.
pub uninterp spec fn toml_document(text: Seq<char>) -> Result<TomlNodeView, Seq<char>>;

/// A parse outcome by its view.
pub open spec fn parsed_view(r: Result<TomlNode, String>) -> Result<TomlNodeView, Seq<char>> {
    match r {
        Ok(d) => Ok(d@),
        Err(e) => Err(e@),
    }
}

/// Calls `toml::from_str` for a `toml::Table` (the document's top-level
/// table) and converts the result one level at a time: a string becomes
/// `Text`, a table `Table` with its entries in the crate's (key) order, any
/// other value `Other`; below the second level a table is kept as `Other`.
/// A parse error becomes its `Display` text. The contract claims only that
/// the outcome is the named result of the text; the parser's behaviour
/// itself is not stated.
#[verifier::external_body]
pub fn parse_toml(text: &str) -> (r: Result<TomlNode, String>)
    ensures
        parsed_view(r) == toml_document(text@),
{
    match toml::from_str::<toml::Table>(text) {
        Ok(table) => Ok(TomlNode::Table(table.into_iter().map(|(key, value)| (key, match value {
            toml::Value::String(s) => TomlNode::Text(s),
            toml::Value::Table(inner) => TomlNode::Table(inner.into_iter().map(|(k, v)| (k, match v {
                toml::Value::String(s) => TomlNode::Text(s),
                _ => TomlNode::Other,
            })).collect()),
            _ => TomlNode::Other,
        })).collect())),
        Err(error) => Err(error.to_string()),
    }
}

/// The value of the first entry with the given key.
pub open spec fn lookup(es: Seq<(Seq<char>, TomlNodeView)>, key: Seq<char>) -> Option<TomlNodeView>
    decreases es.len(),
{
    if es.len() == 0 {
        None
    } else if es[0].0 == key {
        Some(es[0].1)
    } else {
        lookup(es.drop_first(), key)
    }
}

/// `node[key]`: the value under `key` when the node is a table that has it.
pub open spec fn table_get(n: TomlNodeView, key: Seq<char>) -> Option<TomlNodeView> {
    match n {
        TomlNodeView::Table(es) => lookup(es, key),
        _ => None,
    }
}

/// The string at `doc[outer][inner]`, when there is one.
pub open spec fn text_at(doc: TomlNodeView, outer: Seq<char>, inner: Seq<char>) -> Option<Seq<char>> {
    match table_get(doc, outer) {
        Some(t) => match table_get(t, inner) {
            Some(TomlNodeView::Text(s)) => Some(s),
            _ => None,
        },
        None => None,
    }
}

/// The identity a manifest document gives: `package.org`, `package.name`
/// and `package.version` when they are strings, and the number of entries of
/// the `dependencies` table (zero when there is no such table).
pub open spec fn manifest_identity_spec(doc: TomlNodeView) -> ManifestIdentityView {
    ManifestIdentityView {
        org: text_at(doc, "package"@, "org"@),
        name: text_at(doc, "package"@, "name"@),
        version: text_at(doc, "package"@, "version"@),
        direct_dependency_count: match table_get(doc, "dependencies"@) {
            Some(TomlNodeView::Table(es)) => es.len(),
            _ => 0,
        },
    }
}

/// The entry of a table with the given key, searched from the first.
fn find_entry<'a>(es: &'a Vec<(String, TomlNode)>, key: &str) -> (r: Option<&'a TomlNode>)
    ensures
        lookup(entries_view(es@), key@) == match r { Some(n) => Some(n@), None => None::<TomlNodeView> },
{
    let ghost all = entries_view(es@);
    proof { lemma_entries_view_len(es@); }
    assert(all.subrange(0, all.len() as int) =~= all);
    let mut i: usize = 0;
    while i < es.len()
        invariant
            i <= es@.len(),
            all == entries_view(es@),
            all.len() == es@.len(),
            lookup(all, key@) == lookup(all.subrange(i as int, all.len() as int), key@),
        decreases es.len() - i,
    {
        proof { lemma_entries_view_index(es@, i as int); }
        let ghost sub = all.subrange(i as int, all.len() as int);
        assert(sub[0] == all[i as int]);
        if str_eq(es[i].0.as_str(), key) {
            return Some(&es[i].1);
        }
        assert(sub.drop_first() =~= all.subrange(i + 1, all.len() as int));
        i = i + 1;
    }
    assert(all.subrange(i as int, all.len() as int).len() == 0);
    None
}

proof fn lemma_entries_view_len(es: Seq<(String, TomlNode)>)
    ensures
        entries_view(es).len() == es.len(),
    decreases es.len(),
{
    if es.len() > 0 {
        lemma_entries_view_len(es.subrange(0, es.len() - 1));
    }
}

proof fn lemma_entries_view_index(es: Seq<(String, TomlNode)>, i: int)
    requires
        0 <= i < es.len(),
    ensures
        entries_view(es)[i] == (es[i].0@, es[i].1@),
    decreases es.len(),
{
    lemma_entries_view_len(es.subrange(0, es.len() - 1));
    if i < es.len() - 1 {
        lemma_entries_view_index(es.subrange(0, es.len() - 1), i);
    }
}

/// The node under `key` in a table node.
fn get<'a>(n: &'a TomlNode, key: &str) -> (r: Option<&'a TomlNode>)
    ensures
        table_get(n@, key@) == match r { Some(m) => Some(m@), None => None::<TomlNodeView> },
{
    match n {
        TomlNode::Table(es) => find_entry(es, key),
        _ => None,
    }
}

fn text_of(doc: &TomlNode, outer: &str, inner: &str) -> (r: Option<String>)
    ensures
        crate::air::opt_view(r) == text_at(doc@, outer@, inner@),
{
    match get(doc, outer) {
        Some(t) => match get(t, inner) {
            Some(TomlNode::Text(s)) => Some(s.clone()),
            _ => None,
        },
        None => None,
    }
}

/// The identity fields and direct dependency count of a manifest document.
pub fn manifest_identity(doc: &TomlNode) -> (m: ManifestIdentity)
    ensures
        m@ == manifest_identity_spec(doc@),
{
    let org = text_of(doc, "package", "org");
    let name = text_of(doc, "package", "name");
    let version = text_of(doc, "package", "version");
    let direct_dependency_count = match get(doc, "dependencies") {
        Some(TomlNode::Table(es)) => {
            proof { lemma_entries_view_len(es@); }
            es.len()
        },
        _ => 0,
    };
    ManifestIdentity { org, name, version, direct_dependency_count }
}

/// Parse a manifest's text and read its identity; the parser's error text
/// when it is not TOML.
pub fn read_manifest(text: &str) -> (r: Result<ManifestIdentity, String>)
    ensures
        match toml_document(text@) {
            Ok(d) => r matches Ok(m) && m@ == manifest_identity_spec(d),
            Err(e) => r matches Err(msg) && msg@ == e,
        },
{
    match parse_toml(text) {
        Ok(doc) => Ok(manifest_identity(&doc)),
        Err(e) => Err(e),
    }
}

/// Whether a lockfile's text is TOML; the parser's error text when not.
pub fn read_lock(text: &str) -> (r: Result<(), String>)
    ensures
        match toml_document(text@) {
            Ok(_) => r is Ok,
            Err(e) => r matches Err(msg) && msg@ == e,
        },
{
    match parse_toml(text) {
        Ok(_) => Ok(()),
        Err(e) => Err(e),
    }
}

} // verus!
