//! Trusted boundary around `serde_json`: parsing a JSON manifest, reading
//! and rewriting its dependency sections, rendering it back to text, and
//! reading the reports the package managers print.
//!
//! The names below stand for what `serde_json` computes.  `json_parses` says
//! whether a text parses; `json_text_deps` and `json_deps` give the entries
//! of a named top-level object — of a text and of a parsed value — in the
//! value's key order, classified into the shapes of
//! [`crate::model::DepShape`]; `json_text` is the pretty-printed text of a
//! value; `json_value_wf` bounds a value to what the parser accepts back;
//! and `npm_text_rows` and `composer_text_rows` are the rows the two report
//! formats carry.  Everything the library proves about JSON manifests and
//! reports rests on the contracts in this file.

use vstd::prelude::*;

use crate::model::{deps_view, distinct_dep_names, replace_shape, shape_of, Dep, DepEntry,
    DepModel, DepShape};

verus! {

#[verifier::external_type_specification]
#[verifier::external_body]
pub struct ExJsonValue(serde_json::Value);

/// Whether `serde_json` parses this text as a JSON value.
pub uninterp spec fn json_parses(s: Seq<char>) -> bool;

/// The dependency entries the top-level object `section` of this text holds.
pub uninterp spec fn json_text_deps(s: Seq<char>, section: Seq<char>) -> Seq<DepModel>;

/// The dependency entries the top-level object `section` of this value holds.
pub uninterp spec fn json_deps(v: serde_json::Value, section: Seq<char>) -> Seq<DepModel>;

/// The text this value pretty-prints to.
pub uninterp spec fn json_text(v: serde_json::Value) -> Seq<char>;

/// Whether the value stays within the bounds under which `serde_json`'s
/// parser accepts its own rendering — in particular, its nesting depth is
/// within the parser's recursion limit.  Every parsed value is within
/// them, and replacing an entry or a field by a string keeps a value
/// within them; only under this guard does a rendered text re-parse.
pub uninterp spec fn json_value_wf(v: serde_json::Value) -> bool;

/// One row of the report `npm outdated --json` prints: a package name and
/// its `current` and `latest` fields, where each field is present when it is
/// a string.
pub struct NpmRow {
    pub name: String,
    pub current: Option<String>,
    pub latest: Option<String>,
}

/// Spec-level report row.
pub struct NpmRowModel {
    pub name: Seq<char>,
    pub current: Option<Seq<char>>,
    pub latest: Option<Seq<char>>,
}

impl View for NpmRow {
    type V = NpmRowModel;

    open spec fn view(&self) -> NpmRowModel {
        NpmRowModel { name: self.name@, current: self.current.deep_view(), latest: self.latest.deep_view() }
    }
}

/// The rows of a report list, as spec values.
pub open spec fn npm_rows_view(v: Seq<NpmRow>) -> Seq<NpmRowModel> {
    v.map_values(|r: NpmRow| r@)
}

/// The rows the npm report text carries.
pub uninterp spec fn npm_text_rows(s: Seq<char>) -> Seq<NpmRowModel>;

/// One row of the report `composer outdated --format=json` prints: the
/// `name`, `version`, `latest` and `latest-status` fields of one installed
/// package, each present when it is a string.
pub struct ComposerRow {
    pub name: Option<String>,
    pub version: Option<String>,
    pub latest: Option<String>,
    pub status: Option<String>,
}

/// Spec-level report row.
pub struct ComposerRowModel {
    pub name: Option<Seq<char>>,
    pub version: Option<Seq<char>>,
    pub latest: Option<Seq<char>>,
    pub status: Option<Seq<char>>,
}

impl View for ComposerRow {
    type V = ComposerRowModel;

    open spec fn view(&self) -> ComposerRowModel {
        ComposerRowModel {
            name: self.name.deep_view(),
            version: self.version.deep_view(),
            latest: self.latest.deep_view(),
            status: self.status.deep_view(),
        }
    }
}

/// The rows of a report list, as spec values.
pub open spec fn composer_rows_view(v: Seq<ComposerRow>) -> Seq<ComposerRowModel> {
    v.map_values(|r: ComposerRow| r@)
}

/// The rows the composer report text carries.
pub uninterp spec fn composer_text_rows(s: Seq<char>) -> Seq<ComposerRowModel>;

/// Relies on `serde_json::from_str`: success depends only on the text; the
/// parsed value holds the dependency entries the text declares, section by
/// section; within a section (a JSON object) the entry names are unique;
/// and the parser's own recursion limit bounds what it accepts, so every
/// parsed value is well-formed.
#[verifier::external_body]
pub fn json_parse(text: &str) -> (r: Result<serde_json::Value, String>)
    ensures
        r is Ok <==> json_parses(text@),
        r matches Ok(v) ==> json_value_wf(v),
        r matches Ok(v) ==> (forall|s: Seq<char>| json_deps(v, s) == json_text_deps(text@, s)),
        r matches Ok(v) ==> (forall|s: Seq<char>| #[trigger] distinct_dep_names(json_deps(v, s))),
{
    match serde_json::from_str::<serde_json::Value>(text) {
        Ok(v) => Ok(v),
        Err(e) => Err(e.to_string()),
    }
}

/// Relies on `Value::get`, `Value::as_object`, `Value::as_str` of
/// `serde_json`: returns the entries of the named top-level object in its
/// key order, each classified as a bare string, an object with its
/// `version` field when that field is a string, or an unsupported shape.
/// A missing section or one that is not an object yields no entries.
#[verifier::external_body]
pub fn json_section_deps(v: &serde_json::Value, section: &str) -> (r: Vec<Dep>)
    ensures
        deps_view(r@) == json_deps(*v, section@),
{
    let mut out = Vec::new();
    if let Some(obj) = v.get(section).and_then(|s| s.as_object()) {
        for (name, val) in obj {
            let entry = if let Some(s) = val.as_str() {
                DepEntry::Bare(s.to_string())
            } else if let Some(dep) = val.as_object() {
                DepEntry::Table(dep.get("version").and_then(|x| x.as_str()).map(String::from))
            } else {
                DepEntry::Other
            };
            out.push(Dep { name: name.clone(), entry });
        }
    }
    out
}

/// Relies on `Value::get_mut`, `Map::get`, `Map::insert` of `serde_json`:
/// when the named entry of the named top-level object is a bare string,
/// replaces it with the string `value` and returns true; otherwise changes
/// nothing.  The object's key set, and with it the entry order, is
/// unchanged, so is every other section, and a well-formed value stays so.
#[verifier::external_body]
pub fn json_set_bare(
    v: &mut serde_json::Value,
    section: &str,
    name: &str,
    value: &str,
) -> (r: bool)
    ensures
        r == (shape_of(json_deps(*old(v), section@), name@) matches Some(DepShape::Bare(_))),
        r ==> json_deps(*final(v), section@) == replace_shape(
            json_deps(*old(v), section@),
            name@,
            DepShape::Bare(value@),
        ),
        r ==> (forall|s: Seq<char>|
            s != section@ ==> json_deps(*final(v), s) == json_deps(*old(v), s)),
        json_value_wf(*old(v)) ==> json_value_wf(*final(v)),
        !r ==> *final(v) == *old(v),
{
    if let Some(obj) = v.get_mut(section).and_then(|s| s.as_object_mut()) {
        if obj.get(name).map(|x| x.is_string()).unwrap_or(false) {
            obj.insert(name.to_string(), serde_json::Value::String(value.to_string()));
            return true;
        }
    }
    false
}

/// Relies on `Value::get_mut`, `Value::as_object_mut`, `Map::get`,
/// `Map::insert` of `serde_json`: when the named entry of the named
/// top-level object is itself an object whose `version` field is a string,
/// replaces that field with `value` and returns true; otherwise changes
/// nothing.  Sibling fields of the entry and every other section are
/// untouched, and a well-formed value stays so.
#[verifier::external_body]
pub fn json_set_version(
    v: &mut serde_json::Value,
    section: &str,
    name: &str,
    value: &str,
) -> (r: bool)
    ensures
        r == (shape_of(json_deps(*old(v), section@), name@) matches Some(
            DepShape::Table(Some(_)),
        )),
        r ==> json_deps(*final(v), section@) == replace_shape(
            json_deps(*old(v), section@),
            name@,
            DepShape::Table(Some(value@)),
        ),
        r ==> (forall|s: Seq<char>|
            s != section@ ==> json_deps(*final(v), s) == json_deps(*old(v), s)),
        json_value_wf(*old(v)) ==> json_value_wf(*final(v)),
        !r ==> *final(v) == *old(v),
{
    if let Some(dep) = v.get_mut(section).and_then(|s| s.get_mut(name)).and_then(
        |d| d.as_object_mut(),
    ) {
        if dep.get("version").map(|x| x.is_string()).unwrap_or(false) {
            dep.insert("version".to_string(), serde_json::Value::String(value.to_string()));
            return true;
        }
    }
    false
}

/// Relies on `serde_json::to_string_pretty`, which cannot fail on a
/// `serde_json::Value`: the rendered text is a function of the value
/// alone; and for a well-formed value — one within the parser's recursion
/// limit — it parses back as JSON and declares the same dependency entries
/// in every section.
#[verifier::external_body]
pub fn json_render(v: &serde_json::Value) -> (r: String)
    ensures
        r@ == json_text(*v),
        json_value_wf(*v) ==> json_parses(r@),
        json_value_wf(*v) ==> (forall|s: Seq<char>|
            json_text_deps(r@, s) == json_deps(*v, s)),
{
    serde_json::to_string_pretty(v).unwrap()
}

/// Relies on `serde_json::from_str`, `Value::as_object`, `Value::get` and
/// `Value::as_str`: parses the report `npm outdated --json` prints and
/// returns one row per entry of the top-level object, in key order, with
/// the `current` and `latest` fields of each entry when they are strings.
/// A parsed report that is not an object yields no rows.
#[verifier::external_body]
pub fn npm_report_rows(text: &str) -> (r: Option<Vec<NpmRow>>)
    ensures
        r is Some <==> json_parses(text@),
        r matches Some(rows) ==> npm_rows_view(rows@) == npm_text_rows(text@),
{
    let v: serde_json::Value = serde_json::from_str(text).ok()?;
    let mut rows = Vec::new();
    if let Some(obj) = v.as_object() {
        for (name, details) in obj {
            rows.push(NpmRow {
                name: name.clone(),
                current: details.get("current").and_then(|c| c.as_str()).map(String::from),
                latest: details.get("latest").and_then(|l| l.as_str()).map(String::from),
            });
        }
    }
    Some(rows)
}

/// Relies on `serde_json::from_str`, `Value::get`, `Value::as_array` and
/// `Value::as_str`: parses the report `composer outdated --format=json`
/// prints and returns one row per element of its `installed` array, in
/// order, with the four string fields of each element when they are
/// strings.  A parsed report without an `installed` array yields no rows.
#[verifier::external_body]
pub fn composer_report_rows(text: &str) -> (r: Option<Vec<ComposerRow>>)
    ensures
        r is Some <==> json_parses(text@),
        r matches Some(rows) ==> composer_rows_view(rows@) == composer_text_rows(text@),
{
    let v: serde_json::Value = serde_json::from_str(text).ok()?;
    let mut rows = Vec::new();
    if let Some(arr) = v.get("installed").and_then(|i| i.as_array()) {
        for p in arr {
            rows.push(ComposerRow {
                name: p.get("name").and_then(|x| x.as_str()).map(String::from),
                version: p.get("version").and_then(|x| x.as_str()).map(String::from),
                latest: p.get("latest").and_then(|x| x.as_str()).map(String::from),
                status: p.get("latest-status").and_then(|x| x.as_str()).map(String::from),
            });
        }
    }
    Some(rows)
}

} // verus!
