//! Applying a resolved outdated set to a manifest document.  An outdated
//! entry declared as a bare string is rewritten whole to a caret
//! constraint on its latest version; one declared as a table or object
//! with a string `version` field is rewritten in that field only, sibling
//! fields untouched; any other shape is reported as unsupported and left
//! alone.  The same rules govern the TOML and the JSON manifests.

use vstd::prelude::*;

use crate::json_doc::{json_deps, json_section_deps, json_set_bare, json_set_version,
    json_value_wf};
use crate::model::{deps_view, distinct_dep_names, entries_map, lemma_outdated_value_entries_map,
    lemma_replace_shape_at, lemma_shape_of_at, outdated_value, outdated_view, strings_view, Dep,
    DepEntry, DepModel, DepShape, OutdatedEntry};
use crate::toml_doc::{toml_deps, toml_doc_wf, toml_section_deps, toml_set_bare,
    toml_set_table_version};
use crate::version::{caret_constraint, caret_of, is_up_to_date};

verus! {

/// An entry is rewritable when its name is in the outdated mapping and it
/// is a bare string or a table with a string `version` field.
pub open spec fn entry_applies(m: DepModel, out: Map<Seq<char>, (Seq<char>, Seq<char>)>) -> bool {
    out.contains_key(m.name) && (m.shape is Bare || m.shape matches DepShape::Table(Some(_)))
}

/// An entry after the update pass: a rewritable bare entry carries a caret
/// constraint on its latest version in place of its whole value, a
/// rewritable table entry in its `version` field only; any other entry is
/// unchanged.
pub open spec fn patched_entry(
    m: DepModel,
    out: Map<Seq<char>, (Seq<char>, Seq<char>)>,
) -> DepModel {
    if out.contains_key(m.name) {
        match m.shape {
            DepShape::Bare(_) => DepModel {
                name: m.name,
                shape: DepShape::Bare(caret_of(out[m.name].1)),
            },
            DepShape::Table(Some(_)) => DepModel {
                name: m.name,
                shape: DepShape::Table(Some(caret_of(out[m.name].1))),
            },
            _ => m,
        }
    } else {
        m
    }
}

/// A dependency section after the update pass.
pub open spec fn patched_section(
    deps: Seq<DepModel>,
    out: Map<Seq<char>, (Seq<char>, Seq<char>)>,
) -> Seq<DepModel> {
    deps.map_values(|m: DepModel| patched_entry(m, out))
}

/// How many entries of a section the update pass rewrites.
pub open spec fn count_applied(
    deps: Seq<DepModel>,
    out: Map<Seq<char>, (Seq<char>, Seq<char>)>,
) -> int
    decreases deps.len(),
{
    if deps.len() == 0 {
        0
    } else {
        count_applied(deps.drop_last(), out) + if entry_applies(deps.last(), out) {
            1int
        } else {
            0int
        }
    }
}

/// Names of outdated entries that stand in the section in a shape the
/// update pass cannot rewrite — anything but the two supported shapes —
/// in section order; each is reported, not rewritten.
pub open spec fn unsupported_names(
    deps: Seq<DepModel>,
    out: Map<Seq<char>, (Seq<char>, Seq<char>)>,
) -> Seq<Seq<char>>
    decreases deps.len(),
{
    if deps.len() == 0 {
        Seq::empty()
    } else {
        unsupported_names(deps.drop_last(), out) + if out.contains_key(deps.last().name)
            && !(deps.last().shape is Bare || deps.last().shape matches DepShape::Table(
            Some(_),
        )) {
            seq![deps.last().name]
        } else {
            Seq::empty()
        }
    }
}

/// A count clamped to what a `usize` can hold: the rewrite counts of two
/// sections are summed with this saturation.
pub open spec fn saturated(x: int) -> int {
    if x <= usize::MAX as int {
        x
    } else {
        usize::MAX as int
    }
}

/// The rewrite count never exceeds the section's length.
pub proof fn lemma_count_le(deps: Seq<DepModel>, out: Map<Seq<char>, (Seq<char>, Seq<char>)>)
    ensures
        0 <= count_applied(deps, out) <= deps.len(),
    decreases deps.len(),
{
    if deps.len() > 0 {
        lemma_count_le(deps.drop_last(), out);
    }
}

/// Finds the value the outdated list holds for `name`: a copy of the last
/// matching entry's current and latest versions.
fn lookup_outdated(outdated: &Vec<OutdatedEntry>, name: &str) -> (r: Option<(String, String)>)
    ensures
        r matches Some(p) ==> outdated_value(outdated_view(outdated@), name@) == Some(
            (p.0@, p.1@),
        ),
        r is None ==> outdated_value(outdated_view(outdated@), name@) is None,
{
    let ghost ov = outdated_view(outdated@);
    proof {
        assert(ov.take(outdated@.len() as int) =~= ov);
    }
    let mut j: usize = outdated.len();
    while j > 0
        invariant
            j <= outdated.len(),
            ov == outdated_view(outdated@),
            outdated_value(ov, name@) == outdated_value(ov.take(j as int), name@),
        decreases j,
    {
        j = j - 1;
        proof {
            assert(ov.take(j as int + 1).drop_last() =~= ov.take(j as int));
            assert(ov.take(j as int + 1).last() == ov[j as int]);
        }
        if is_up_to_date(outdated[j].name.as_str(), name) {
            return Some((outdated[j].current.clone(), outdated[j].latest.clone()));
        }
    }
    None
}

/// Rewrites every outdated entry of one TOML section in place: a bare
/// string entry is replaced whole, a table entry only in its `version`
/// field.  Returns how many entries were rewritten and the names of
/// outdated entries whose shape is unsupported.
pub fn patch_toml_section(
    doc: &mut toml_edit::DocumentMut,
    section: &str,
    outdated: &Vec<OutdatedEntry>,
) -> (r: (usize, Vec<String>))
    requires
        distinct_dep_names(toml_deps(*old(doc), section@)),
    ensures
        toml_deps(*final(doc), section@) == patched_section(
            toml_deps(*old(doc), section@),
            entries_map(outdated_view(outdated@)),
        ),
        forall|s: Seq<char>|
            s != section@ ==> toml_deps(*final(doc), s) == toml_deps(*old(doc), s),
        toml_doc_wf(*old(doc)) ==> toml_doc_wf(*final(doc)),
        r.0 == count_applied(
            toml_deps(*old(doc), section@),
            entries_map(outdated_view(outdated@)),
        ),
        strings_view(r.1@) == unsupported_names(
            toml_deps(*old(doc), section@),
            entries_map(outdated_view(outdated@)),
        ),
{
    let ghost d0 = toml_deps(*doc, section@);
    let ghost m = entries_map(outdated_view(outdated@));
    let snap = toml_section_deps(doc, section);
    let mut applied: usize = 0;
    let mut unsupported: Vec<String> = Vec::new();
    proof {
        assert(d0.take(0) =~= Seq::<DepModel>::empty());
        assert(strings_view(unsupported@) =~= Seq::<Seq<char>>::empty());
    }
    let mut i: usize = 0;
    while i < snap.len()
        invariant
            i <= snap.len(),
            deps_view(snap@) == d0,
            snap@.len() == d0.len(),
            distinct_dep_names(d0),
            m == entries_map(outdated_view(outdated@)),
            toml_deps(*doc, section@).len() == d0.len(),
            forall|k: int|
                0 <= k < d0.len() ==> toml_deps(*doc, section@)[k] == (if k < i {
                    patched_entry(d0[k], m)
                } else {
                    d0[k]
                }),
            forall|s: Seq<char>| s != section@ ==> toml_deps(*doc, s) == toml_deps(*old(doc), s),
            toml_doc_wf(*old(doc)) ==> toml_doc_wf(*doc),
            applied == count_applied(d0.take(i as int), m),
            strings_view(unsupported@) == unsupported_names(d0.take(i as int), m),
        decreases snap.len() - i,
    {
        let ghost ii = i as int;
        let ghost cur = toml_deps(*doc, section@);
        proof {
            assert(d0[ii] == snap@[ii]@);
            assert(d0.take(ii + 1).drop_last() =~= d0.take(ii));
            assert(d0.take(ii + 1).last() == d0[ii]);
            lemma_count_le(d0.take(ii), m);
            // the current section carries the names of the snapshot
            assert forall|a: int, b: int| 0 <= a < b < cur.len() implies cur[a].name
                != cur[b].name by {
                assert(cur[a].name == d0[a].name);
                assert(cur[b].name == d0[b].name);
            }
            assert(cur[ii] == d0[ii]);
        }
        let d = &snap[i];
        match lookup_outdated(outdated, d.name.as_str()) {
            None => {
                proof {
                    lemma_outdated_value_entries_map(outdated_view(outdated@), d@.name);
                    assert(!m.contains_key(d0[ii].name));
                    assert(patched_entry(d0[ii], m) == d0[ii]);
                }
            },
            Some(p) => {
                proof {
                    lemma_outdated_value_entries_map(outdated_view(outdated@), d@.name);
                    assert(m.contains_key(d0[ii].name));
                    assert(m[d0[ii].name].1 == p.1@);
                }
                let newv = caret_constraint(p.1.as_str());
                match &d.entry {
                    DepEntry::Bare(_) => {
                        proof {
                            lemma_shape_of_at(cur, ii, d@.name);
                        }
                        let ok = toml_set_bare(doc, section, d.name.as_str(), newv.as_str());
                        proof {
                            assert(ok);
                            lemma_replace_shape_at(cur, ii, d@.name, DepShape::Bare(newv@));
                            assert(toml_deps(*doc, section@) == cur.update(
                                ii,
                                patched_entry(d0[ii], m),
                            ));
                        }
                        applied = applied + 1;
                    },
                    DepEntry::Table(Some(_)) => {
                        proof {
                            lemma_shape_of_at(cur, ii, d@.name);
                        }
                        let ok = toml_set_table_version(
                            doc,
                            section,
                            d.name.as_str(),
                            newv.as_str(),
                        );
                        proof {
                            assert(ok);
                            lemma_replace_shape_at(
                                cur,
                                ii,
                                d@.name,
                                DepShape::Table(Some(newv@)),
                            );
                            assert(toml_deps(*doc, section@) == cur.update(
                                ii,
                                patched_entry(d0[ii], m),
                            ));
                        }
                        applied = applied + 1;
                    },
                    _ => {
                        unsupported.push(d.name.clone());
                        proof {
                            assert(patched_entry(d0[ii], m) == d0[ii]);
                            assert(strings_view(unsupported@).drop_last() =~= unsupported_names(
                                d0.take(ii),
                                m,
                            ));
                            assert(strings_view(unsupported@) =~= unsupported_names(
                                d0.take(ii),
                                m,
                            ) + seq![d0[ii].name]);
                            assert(unsupported_names(d0.take(ii + 1), m) =~= unsupported_names(
                                d0.take(ii),
                                m,
                            ) + seq![d0[ii].name]);
                        }
                    },
                }
            },
        }
        i = i + 1;
    }
    proof {
        assert(d0.take(d0.len() as int) =~= d0);
        assert(toml_deps(*doc, section@) =~= patched_section(d0, m));
    }
    (applied, unsupported)
}

/// Rewrites every outdated entry of one JSON section in place: a bare
/// string entry is replaced whole, an object entry only in its `version`
/// field.  Returns how many entries were rewritten and the names of
/// outdated entries whose shape is unsupported.
pub fn patch_json_section(
    v: &mut serde_json::Value,
    section: &str,
    outdated: &Vec<OutdatedEntry>,
) -> (r: (usize, Vec<String>))
    requires
        distinct_dep_names(json_deps(*old(v), section@)),
    ensures
        json_deps(*final(v), section@) == patched_section(
            json_deps(*old(v), section@),
            entries_map(outdated_view(outdated@)),
        ),
        forall|s: Seq<char>| s != section@ ==> json_deps(*final(v), s) == json_deps(*old(v), s),
        json_value_wf(*old(v)) ==> json_value_wf(*final(v)),
        r.0 == count_applied(
            json_deps(*old(v), section@),
            entries_map(outdated_view(outdated@)),
        ),
        strings_view(r.1@) == unsupported_names(
            json_deps(*old(v), section@),
            entries_map(outdated_view(outdated@)),
        ),
{
    let ghost d0 = json_deps(*v, section@);
    let ghost m = entries_map(outdated_view(outdated@));
    let snap = json_section_deps(v, section);
    let mut applied: usize = 0;
    let mut unsupported: Vec<String> = Vec::new();
    proof {
        assert(d0.take(0) =~= Seq::<DepModel>::empty());
        assert(strings_view(unsupported@) =~= Seq::<Seq<char>>::empty());
    }
    let mut i: usize = 0;
    while i < snap.len()
        invariant
            i <= snap.len(),
            deps_view(snap@) == d0,
            snap@.len() == d0.len(),
            distinct_dep_names(d0),
            m == entries_map(outdated_view(outdated@)),
            json_deps(*v, section@).len() == d0.len(),
            forall|k: int|
                0 <= k < d0.len() ==> json_deps(*v, section@)[k] == (if k < i {
                    patched_entry(d0[k], m)
                } else {
                    d0[k]
                }),
            forall|s: Seq<char>| s != section@ ==> json_deps(*v, s) == json_deps(*old(v), s),
            json_value_wf(*old(v)) ==> json_value_wf(*v),
            applied == count_applied(d0.take(i as int), m),
            strings_view(unsupported@) == unsupported_names(d0.take(i as int), m),
        decreases snap.len() - i,
    {
        let ghost ii = i as int;
        let ghost cur = json_deps(*v, section@);
        proof {
            assert(d0[ii] == snap@[ii]@);
            assert(d0.take(ii + 1).drop_last() =~= d0.take(ii));
            assert(d0.take(ii + 1).last() == d0[ii]);
            lemma_count_le(d0.take(ii), m);
            assert forall|a: int, b: int| 0 <= a < b < cur.len() implies cur[a].name
                != cur[b].name by {
                assert(cur[a].name == d0[a].name);
                assert(cur[b].name == d0[b].name);
            }
            assert(cur[ii] == d0[ii]);
        }
        let d = &snap[i];
        match lookup_outdated(outdated, d.name.as_str()) {
            None => {
                proof {
                    lemma_outdated_value_entries_map(outdated_view(outdated@), d@.name);
                    assert(!m.contains_key(d0[ii].name));
                    assert(patched_entry(d0[ii], m) == d0[ii]);
                }
            },
            Some(p) => {
                proof {
                    lemma_outdated_value_entries_map(outdated_view(outdated@), d@.name);
                    assert(m.contains_key(d0[ii].name));
                    assert(m[d0[ii].name].1 == p.1@);
                }
                let newv = caret_constraint(p.1.as_str());
                match &d.entry {
                    DepEntry::Bare(_) => {
                        proof {
                            lemma_shape_of_at(cur, ii, d@.name);
                        }
                        let ok = json_set_bare(v, section, d.name.as_str(), newv.as_str());
                        proof {
                            assert(ok);
                            lemma_replace_shape_at(cur, ii, d@.name, DepShape::Bare(newv@));
                            assert(json_deps(*v, section@) == cur.update(
                                ii,
                                patched_entry(d0[ii], m),
                            ));
                        }
                        applied = applied + 1;
                    },
                    DepEntry::Table(Some(_)) => {
                        proof {
                            lemma_shape_of_at(cur, ii, d@.name);
                        }
                        let ok = json_set_version(v, section, d.name.as_str(), newv.as_str());
                        proof {
                            assert(ok);
                            lemma_replace_shape_at(
                                cur,
                                ii,
                                d@.name,
                                DepShape::Table(Some(newv@)),
                            );
                            assert(json_deps(*v, section@) == cur.update(
                                ii,
                                patched_entry(d0[ii], m),
                            ));
                        }
                        applied = applied + 1;
                    },
                    _ => {
                        unsupported.push(d.name.clone());
                        proof {
                            assert(patched_entry(d0[ii], m) == d0[ii]);
                            assert(strings_view(unsupported@).drop_last() =~= unsupported_names(
                                d0.take(ii),
                                m,
                            ));
                            assert(strings_view(unsupported@) =~= unsupported_names(
                                d0.take(ii),
                                m,
                            ) + seq![d0[ii].name]);
                            assert(unsupported_names(d0.take(ii + 1), m) =~= unsupported_names(
                                d0.take(ii),
                                m,
                            ) + seq![d0[ii].name]);
                        }
                    },
                }
            },
        }
        i = i + 1;
    }
    proof {
        assert(d0.take(d0.len() as int) =~= d0);
        assert(json_deps(*v, section@) =~= patched_section(d0, m));
    }
    (applied, unsupported)
}

/// An empty outdated mapping rewrites nothing: a manifest with nothing
/// outdated is left exactly as it was.
pub proof fn lemma_patch_empty(deps: Seq<DepModel>)
    ensures
        patched_section(deps, Map::empty()) == deps,
        count_applied(deps, Map::empty()) == 0,
        unsupported_names(deps, Map::empty()) == Seq::<Seq<char>>::empty(),
    decreases deps.len(),
{
    if deps.len() > 0 {
        lemma_patch_empty(deps.drop_last());
    }
    assert(patched_section(deps, Map::empty()) =~= deps);
    assert(unsupported_names(deps, Map::empty()) =~= Seq::<Seq<char>>::empty());
}

/// Patching distributes over the concatenation of sections.
pub proof fn lemma_patched_concat(
    a: Seq<DepModel>,
    b: Seq<DepModel>,
    out: Map<Seq<char>, (Seq<char>, Seq<char>)>,
)
    ensures
        patched_section(a + b, out) == patched_section(a, out) + patched_section(b, out),
{
    assert(patched_section(a + b, out) =~= patched_section(a, out) + patched_section(b, out));
}

/// Applying the same outdated mapping a second time changes nothing: the
/// rewritten entries already carry the caret constraint it writes.
pub proof fn lemma_patch_idempotent(
    deps: Seq<DepModel>,
    out: Map<Seq<char>, (Seq<char>, Seq<char>)>,
)
    ensures
        patched_section(patched_section(deps, out), out) == patched_section(deps, out),
{
    assert(patched_section(patched_section(deps, out), out) =~= patched_section(deps, out));
}

/// Rewriting changes no entry's name or shape kind, so what counts as
/// rewritable does not change either: a patched section is rewritten in
/// exactly as many places as the original.
pub proof fn lemma_count_patched(
    deps: Seq<DepModel>,
    out: Map<Seq<char>, (Seq<char>, Seq<char>)>,
)
    ensures
        count_applied(patched_section(deps, out), out) == count_applied(deps, out),
    decreases deps.len(),
{
    if deps.len() > 0 {
        lemma_count_patched(deps.drop_last(), out);
        assert(patched_section(deps, out).drop_last() =~= patched_section(deps.drop_last(), out));
        assert(patched_section(deps, out).last() == patched_entry(deps.last(), out));
    }
}

/// A manifest without a dependency section gives the update pass nothing
/// to rewrite there: no entry changes, nothing is counted, nothing is
/// reported unsupported.
pub proof fn lemma_absent_section(out: Map<Seq<char>, (Seq<char>, Seq<char>)>)
    ensures
        patched_section(Seq::empty(), out) == Seq::<DepModel>::empty(),
        count_applied(Seq::empty(), out) == 0,
        unsupported_names(Seq::empty(), out) == Seq::<Seq<char>>::empty(),
{
    assert(patched_section(Seq::empty(), out) =~= Seq::<DepModel>::empty());
}

} // verus!
