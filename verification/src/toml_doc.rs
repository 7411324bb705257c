//! Trusted boundary around `toml_edit`: parsing a TOML manifest, reading and
//! rewriting its dependency sections, and rendering it back to text.
//!
//! The names below stand for what `toml_edit` computes.  `toml_parses` says
//! whether a text parses; `toml_text_deps` and `toml_deps` give the entries
//! of a named section — of a text and of a parsed document — in document
//! order, classified into the shapes of [`crate::model::DepShape`];
//! `toml_text` is the text a document renders to; and `toml_doc_wf` bounds
//! a document to what the parser accepts back.  Everything the library
//! proves about TOML manifests rests on the contracts in this file.

use vstd::prelude::*;

use crate::model::{deps_view, distinct_dep_names, replace_shape, shape_of, Dep, DepEntry,
    DepModel, DepShape};

verus! {

#[verifier::external_type_specification]
#[verifier::external_body]
pub struct ExDocumentMut(toml_edit::DocumentMut);

/// Whether `toml_edit` parses this text as a TOML document.
pub uninterp spec fn toml_parses(s: Seq<char>) -> bool;

/// The dependency entries the section `section` of this text declares.
pub uninterp spec fn toml_text_deps(s: Seq<char>, section: Seq<char>) -> Seq<DepModel>;

/// The dependency entries the section `section` of this document holds.
pub uninterp spec fn toml_deps(d: toml_edit::DocumentMut, section: Seq<char>) -> Seq<DepModel>;

/// The text this document renders to.
pub uninterp spec fn toml_text(d: toml_edit::DocumentMut) -> Seq<char>;

/// Whether the document stays within the bounds under which `toml_edit`'s
/// parser accepts its own rendering — in particular, its nesting depth is
/// within the parser's recursion limit.  Every parsed document is within
/// them, and rewriting an entry or a `version` field as a string keeps a
/// document within them; only under this guard does a rendered text
/// re-parse.
pub uninterp spec fn toml_doc_wf(d: toml_edit::DocumentMut) -> bool;

/// Relies on `str::parse::<toml_edit::DocumentMut>`: success depends only on
/// the text; the parsed document holds the dependency entries the text
/// declares, section by section; within a section (a TOML table) the entry
/// names are unique; and the parser's own recursion limit bounds what it
/// accepts, so every parsed document is well-formed.
#[verifier::external_body]
pub fn toml_parse(text: &str) -> (r: Result<toml_edit::DocumentMut, String>)
    ensures
        r is Ok <==> toml_parses(text@),
        r matches Ok(d) ==> toml_doc_wf(d),
        r matches Ok(d) ==> (forall|s: Seq<char>| toml_deps(d, s) == toml_text_deps(text@, s)),
        r matches Ok(d) ==> (forall|s: Seq<char>| #[trigger] distinct_dep_names(toml_deps(d, s))),
{
    match text.parse::<toml_edit::DocumentMut>() {
        Ok(d) => Ok(d),
        Err(e) => Err(e.to_string()),
    }
}

/// Relies on `Table::get`, `Table::iter`, `Item::as_str` of `toml_edit`:
/// returns the entries of the named top-level section in document order,
/// each classified as a bare string, a table with its `version` field when
/// that field is a string, or an unsupported shape.  A missing section or
/// one that is not a table yields no entries.
#[verifier::external_body]
pub fn toml_section_deps(doc: &toml_edit::DocumentMut, section: &str) -> (r: Vec<Dep>)
    ensures
        deps_view(r@) == toml_deps(*doc, section@),
{
    let mut out = Vec::new();
    if let Some(tbl) = doc.get(section).and_then(|i| i.as_table()) {
        for (name, item) in tbl.iter() {
            let entry = match item {
                toml_edit::Item::Value(v) if v.is_str() => DepEntry::Bare(v.as_str().unwrap_or("").to_string()),
                toml_edit::Item::Table(t) => DepEntry::Table(t.get("version").and_then(|x| x.as_str()).map(String::from)),
                _ => DepEntry::Other,
            };
            out.push(Dep { name: name.to_string(), entry });
        }
    }
    out
}

/// Relies on `Table::get_mut` of `toml_edit`: when the named entry of the
/// named section is a bare string value, replaces it with `value` as a fresh
/// formatted string and returns true; otherwise changes nothing.  Other
/// sections are untouched.
#[verifier::external_body]
pub fn toml_set_bare(
    doc: &mut toml_edit::DocumentMut,
    section: &str,
    name: &str,
    value: &str,
) -> (r: bool)
    ensures
        r == (shape_of(toml_deps(*old(doc), section@), name@) matches Some(DepShape::Bare(_))),
        r ==> toml_deps(*final(doc), section@) == replace_shape(
            toml_deps(*old(doc), section@),
            name@,
            DepShape::Bare(value@),
        ),
        r ==> (forall|s: Seq<char>|
            s != section@ ==> toml_deps(*final(doc), s) == toml_deps(*old(doc), s)),
        toml_doc_wf(*old(doc)) ==> toml_doc_wf(*final(doc)),
        !r ==> *final(doc) == *old(doc),
{
    if let Some(tbl) = doc.get_mut(section).and_then(|i| i.as_table_mut()) {
        if let Some(toml_edit::Item::Value(v)) = tbl.get_mut(name) {
            if v.is_str() {
                *v = toml_edit::Value::String(toml_edit::Formatted::new(value.to_string()));
                return true;
            }
        }
    }
    false
}

/// Relies on `Table::get_mut` of `toml_edit`: when the named entry of the
/// named section is a table whose `version` field is a string, replaces that
/// field with `value` and returns true; otherwise changes nothing.  Sibling
/// fields of the entry and other sections are untouched.
#[verifier::external_body]
pub fn toml_set_table_version(
    doc: &mut toml_edit::DocumentMut,
    section: &str,
    name: &str,
    value: &str,
) -> (r: bool)
    ensures
        r == (shape_of(toml_deps(*old(doc), section@), name@) matches Some(
            DepShape::Table(Some(_)),
        )),
        r ==> toml_deps(*final(doc), section@) == replace_shape(
            toml_deps(*old(doc), section@),
            name@,
            DepShape::Table(Some(value@)),
        ),
        r ==> (forall|s: Seq<char>|
            s != section@ ==> toml_deps(*final(doc), s) == toml_deps(*old(doc), s)),
        toml_doc_wf(*old(doc)) ==> toml_doc_wf(*final(doc)),
        !r ==> *final(doc) == *old(doc),
{
    if let Some(tbl) = doc.get_mut(section).and_then(|i| i.as_table_mut()) {
        if let Some(toml_edit::Item::Table(t)) = tbl.get_mut(name) {
            if let Some(ver) = t.get_mut("version") {
                if ver.as_str().is_some() {
                    *ver = toml_edit::Item::Value(
                        toml_edit::Value::String(toml_edit::Formatted::new(value.to_string())),
                    );
                    return true;
                }
            }
        }
    }
    false
}

/// Relies on `Display` for `toml_edit::DocumentMut`: the rendered text is a
/// function of the document alone; and for a well-formed document — one
/// within the parser's recursion limit — it parses back as TOML and
/// declares the same dependency entries in every section.
#[verifier::external_body]
pub fn toml_render(doc: &toml_edit::DocumentMut) -> (r: String)
    ensures
        r@ == toml_text(*doc),
        toml_doc_wf(*doc) ==> toml_parses(r@),
        toml_doc_wf(*doc) ==> (forall|s: Seq<char>|
            toml_text_deps(r@, s) == toml_deps(*doc, s)),
{
    doc.to_string()
}

} // verus!
