//! Data model shared by every ecosystem: dependency entries as the manifests
//! declare them, resolved outdated entries, and the outcome of an update pass.

use vstd::prelude::*;

verus! {

/// How a dependency entry is written in a manifest section.
pub enum DepEntry {
    /// A bare version-constraint string, such as `name = "1.0"`.
    Bare(String),
    /// A sub-table or sub-object; holds the `version` field when that field
    /// is a string, and `None` otherwise.
    Table(Option<String>),
    /// Any other shape; such an entry is never rewritten.
    Other,
}

/// Spec-level shape of a dependency entry.
pub enum DepShape {
    Bare(Seq<char>),
    Table(Option<Seq<char>>),
    Other,
}

impl View for DepEntry {
    type V = DepShape;

    open spec fn view(&self) -> DepShape {
        match self {
            DepEntry::Bare(s) => DepShape::Bare(s@),
            DepEntry::Table(Some(s)) => DepShape::Table(Some(s@)),
            DepEntry::Table(None) => DepShape::Table(None),
            DepEntry::Other => DepShape::Other,
        }
    }
}

/// One named dependency entry of a manifest section.
pub struct Dep {
    pub name: String,
    pub entry: DepEntry,
}

/// Spec-level dependency entry.
pub struct DepModel {
    pub name: Seq<char>,
    pub shape: DepShape,
}

impl View for Dep {
    type V = DepModel;

    open spec fn view(&self) -> DepModel {
        DepModel { name: self.name@, shape: self.entry@ }
    }
}

/// The dependency entries of a section, as spec values.
pub open spec fn deps_view(v: Seq<Dep>) -> Seq<DepModel> {
    v.map_values(|d: Dep| d@)
}

/// No two entries share a name.
pub open spec fn distinct_dep_names(deps: Seq<DepModel>) -> bool {
    forall|i: int, j: int| 0 <= i < j < deps.len() ==> deps[i].name != deps[j].name
}

/// Shape of the first entry named `name`, if any.
pub open spec fn shape_of(deps: Seq<DepModel>, name: Seq<char>) -> Option<DepShape>
    decreases deps.len(),
{
    if deps.len() == 0 {
        None
    } else if deps[0].name == name {
        Some(deps[0].shape)
    } else {
        shape_of(deps.drop_first(), name)
    }
}

/// Every entry named `name` replaced by the shape `sh`; all others unchanged.
pub open spec fn replace_shape(deps: Seq<DepModel>, name: Seq<char>, sh: DepShape) -> Seq<
    DepModel,
> {
    deps.map_values(
        |m: DepModel|
            if m.name == name {
                DepModel { name: m.name, shape: sh }
            } else {
                m
            },
    )
}

/// The lines of a list of strings, as spec values.
pub open spec fn strings_view(v: Seq<String>) -> Seq<Seq<char>> {
    v.map_values(|s: String| s@)
}

/// With distinct names, the entry at `i` is the one `shape_of` finds.
pub proof fn lemma_shape_of_at(deps: Seq<DepModel>, i: int, name: Seq<char>)
    requires
        distinct_dep_names(deps),
        0 <= i < deps.len(),
        deps[i].name == name,
    ensures
        shape_of(deps, name) == Some(deps[i].shape),
    decreases deps.len(),
{
    if i > 0 {
        assert(deps[0].name != name);
        assert(distinct_dep_names(deps.drop_first())) by {
            assert(forall|a: int, b: int|
                0 <= a < b < deps.drop_first().len() ==> deps.drop_first()[a]
                    == deps[a + 1] && deps.drop_first()[b] == deps[b + 1]);
        }
        lemma_shape_of_at(deps.drop_first(), i - 1, name);
    }
}

/// With distinct names, replacing by name replaces exactly the entry at `i`.
pub proof fn lemma_replace_shape_at(deps: Seq<DepModel>, i: int, name: Seq<char>, sh: DepShape)
    requires
        distinct_dep_names(deps),
        0 <= i < deps.len(),
        deps[i].name == name,
    ensures
        replace_shape(deps, name, sh) == deps.update(i, DepModel { name: name, shape: sh }),
{
    let w = deps.update(i, DepModel { name: name, shape: sh });
    assert forall|j: int| 0 <= j < deps.len() implies replace_shape(deps, name, sh)[j]
        == w[j] by {
        if j != i {
            assert(deps[j].name != name);
        }
    }
    assert(replace_shape(deps, name, sh) =~= w);
}

/// A dependency reported as outdated: its name, the version it currently has,
/// and the version it should be moved to.
pub struct OutdatedEntry {
    pub name: String,
    pub current: String,
    pub latest: String,
}

/// Spec-level outdated entry.
pub struct OutdatedModel {
    pub name: Seq<char>,
    pub current: Seq<char>,
    pub latest: Seq<char>,
}

impl View for OutdatedEntry {
    type V = OutdatedModel;

    open spec fn view(&self) -> OutdatedModel {
        OutdatedModel { name: self.name@, current: self.current@, latest: self.latest@ }
    }
}

/// The outdated entries of a list, as spec values.
pub open spec fn outdated_view(v: Seq<OutdatedEntry>) -> Seq<OutdatedModel> {
    v.map_values(|e: OutdatedEntry| e@)
}

/// The mapping a list of outdated entries stands for: later entries of the
/// same name override earlier ones.
pub open spec fn entries_map(v: Seq<OutdatedModel>) -> Map<Seq<char>, (Seq<char>, Seq<char>)>
    decreases v.len(),
{
    if v.len() == 0 {
        Map::empty()
    } else {
        entries_map(v.drop_last()).insert(v.last().name, (v.last().current, v.last().latest))
    }
}

/// Value the list holds for `name`: the last entry of that name wins.
pub open spec fn outdated_value(v: Seq<OutdatedModel>, name: Seq<char>) -> Option<
    (Seq<char>, Seq<char>),
>
    decreases v.len(),
{
    if v.len() == 0 {
        None
    } else if v.last().name == name {
        Some((v.last().current, v.last().latest))
    } else {
        outdated_value(v.drop_last(), name)
    }
}

/// `outdated_value` reads exactly the mapping `entries_map` builds.
pub proof fn lemma_outdated_value_entries_map(v: Seq<OutdatedModel>, name: Seq<char>)
    ensures
        outdated_value(v, name) == (if entries_map(v).contains_key(name) {
            Some(entries_map(v)[name])
        } else {
            None::<(Seq<char>, Seq<char>)>
        }),
    decreases v.len(),
{
    if v.len() > 0 {
        lemma_outdated_value_entries_map(v.drop_last(), name);
    }
}

/// An empty list stands for the empty mapping, and only it does.
pub proof fn lemma_entries_map_empty(v: Seq<OutdatedModel>)
    ensures
        (v.len() == 0) == (entries_map(v) =~= Map::<Seq<char>, (Seq<char>, Seq<char>)>::empty()),
    decreases v.len(),
{
    if v.len() > 0 {
        assert(entries_map(v).contains_key(v.last().name));
    }
}

/// Result of reading a package manager's outdated report.
pub struct OutdatedReport {
    /// The resolved outdated entries, in report order.
    pub entries: Vec<OutdatedEntry>,
    /// True when the report text was non-empty yet not valid JSON: the
    /// resolved set is then empty and the caller reports a warning.
    pub parse_failed: bool,
}

/// Outcome of one manifest update pass.  The caller writes `new_text` and
/// invokes the package manager only in the `Updated` case; in every other
/// case the manifest file must be left untouched and no subprocess run.
pub enum ManifestUpdate {
    /// The manifest text is not valid for its format; holds the parser's
    /// message.  Nothing was changed.
    ParseFailed(String),
    /// The resolved outdated set is empty: nothing to do.
    NothingOutdated,
    /// Outdated entries exist, but none occurs in a dependency section in a
    /// rewritable shape; holds the names whose shape is unsupported.
    NoChanges(Vec<String>),
    /// At least one entry was rewritten.
    Updated(UpdatedManifest),
}

/// Payload of a successful update.
pub struct UpdatedManifest {
    /// The full rewritten manifest text, to be written over the original.
    pub new_text: String,
    /// How many entries were rewritten, summed over the sections.
    pub updates: usize,
    /// Names of outdated entries present in a section in an unsupported
    /// shape, in section order; each is reported, not rewritten.
    pub unsupported: Vec<String>,
}

} // verus!
