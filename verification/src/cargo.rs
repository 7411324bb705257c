//! The update pass for the TOML manifest: parse, resolve the outdated set
//! against the reference table, rewrite the outdated entries of both
//! dependency sections, and render the patched document.

use vstd::prelude::*;

use crate::model::{lemma_entries_map_empty, outdated_view, strings_view, DepModel, ManifestUpdate,
    UpdatedManifest};
use crate::outdated::{find_outdated_packages, outdated_map_of};
use crate::patch::{count_applied, lemma_count_le, patch_toml_section, saturated,
    patched_section, unsupported_names};
use crate::reference::{table_view, RefEntry};
use crate::toml_doc::{toml_deps, toml_parse, toml_parses, toml_render, toml_section_deps,
    toml_text_deps};

verus! {

/// The entries of the TOML manifest's two dependency sections, in the order
/// the update pass reads them.
pub open spec fn cargo_manifest_deps(text: Seq<char>) -> Seq<DepModel> {
    toml_text_deps(text, "dependencies"@) + toml_text_deps(text, "dev-dependencies"@)
}

/// The outdated mapping the TOML manifest resolves to against `table`.
pub open spec fn cargo_outdated_map(text: Seq<char>, table: Seq<(Seq<char>, Seq<char>)>) -> Map<
    Seq<char>,
    (Seq<char>, Seq<char>),
> {
    outdated_map_of(cargo_manifest_deps(text), table)
}

/// One update pass over the TOML manifest text, resolved against `table`.
///
/// The pass fails exactly on unparsable text; reports nothing to do exactly
/// when the resolved outdated mapping is empty; leaves the text alone when
/// no outdated entry stands in a rewritable shape; and otherwise returns a
/// rewritten text whose dependency sections are the patched originals,
/// every other section untouched.
pub fn update_cargo(text: &str, table: &Vec<RefEntry>) -> (r: ManifestUpdate)
    ensures
        r is ParseFailed <==> !toml_parses(text@),
        ({
            let m = cargo_outdated_map(text@, table_view(table@));
            let d1 = toml_text_deps(text@, "dependencies"@);
            let d2 = toml_text_deps(text@, "dev-dependencies"@);
            let c = count_applied(d1, m) + count_applied(d2, m);
            toml_parses(text@) ==> {
                &&& (r is NothingOutdated <==> m == Map::<Seq<char>, (Seq<char>, Seq<char>)>::empty())
                &&& (m != Map::<Seq<char>, (Seq<char>, Seq<char>)>::empty() ==> match r {
                    ManifestUpdate::NoChanges(uns) => c == 0 && strings_view(uns@)
                        == unsupported_names(d1, m) + unsupported_names(d2, m),
                    ManifestUpdate::Updated(u) => {
                        &&& c > 0
                        &&& u.updates == saturated(c)
                        &&& toml_parses(u.new_text@)
                        &&& toml_text_deps(u.new_text@, "dependencies"@) == patched_section(d1, m)
                        &&& toml_text_deps(u.new_text@, "dev-dependencies"@) == patched_section(
                            d2,
                            m,
                        )
                        &&& (forall|s: Seq<char>|
                            s != "dependencies"@ && s != "dev-dependencies"@
                                ==> toml_text_deps(u.new_text@, s) == toml_text_deps(text@, s))
                        &&& strings_view(u.unsupported@) == unsupported_names(d1, m)
                            + unsupported_names(d2, m)
                    },
                    _ => false,
                })
            }
        }),
{
    let parsed = toml_parse(text);
    match parsed {
        Err(e) => ManifestUpdate::ParseFailed(e),
        Ok(mut doc) => {
            proof {
                reveal_strlit("dependencies");
                reveal_strlit("dev-dependencies");
                assert("dependencies"@.len() != "dev-dependencies"@.len());
            }
            let deps = toml_section_deps(&doc, "dependencies");
            let dev_deps = toml_section_deps(&doc, "dev-dependencies");
            let outdated = find_outdated_packages(&deps, &dev_deps, table);
            proof {
                lemma_entries_map_empty(outdated_view(outdated@));
            }
            if outdated.len() == 0 {
                return ManifestUpdate::NothingOutdated;
            }
            let ghost d1 = toml_text_deps(text@, "dependencies"@);
            let ghost d2 = toml_text_deps(text@, "dev-dependencies"@);
            let ghost m = cargo_outdated_map(text@, table_view(table@));
            let ghost doc0 = doc;
            let (c1, unsupported1) = patch_toml_section(&mut doc, "dependencies", &outdated);
            let ghost doc_mid = doc;
            let (c2, mut unsupported2) = patch_toml_section(&mut doc, "dev-dependencies", &outdated);
            let ghost doc_end = doc;
            proof {
                lemma_count_le(d1, m);
                lemma_count_le(d2, m);
            }
            let mut unsupported = unsupported1;
            unsupported.append(&mut unsupported2);
            proof {
                assert(strings_view(unsupported@) =~= unsupported_names(d1, m)
                    + unsupported_names(d2, m));
            }
            let total = if c1 <= usize::MAX - c2 {
                c1 + c2
            } else {
                usize::MAX
            };
            if total > 0 {
                let new_text = toml_render(&doc);
                proof {
                    assert forall|s: Seq<char>|
                        s != "dependencies"@ && s != "dev-dependencies"@ implies toml_text_deps(
                        new_text@,
                        s,
                    ) == toml_text_deps(text@, s) by {
                        assert(toml_text_deps(new_text@, s) == toml_deps(doc_end, s));
                        assert(toml_deps(doc_end, s) == toml_deps(doc_mid, s));
                        assert(toml_deps(doc_mid, s) == toml_deps(doc0, s));
                        assert(toml_deps(doc0, s) == toml_text_deps(text@, s));
                    }
                }
                ManifestUpdate::Updated(
                    UpdatedManifest { new_text, updates: total, unsupported },
                )
            } else {
                ManifestUpdate::NoChanges(unsupported)
            }
        },
    }
}

/// A manifest without dependency sections resolves no outdated entry, so
/// an update pass over it does nothing.
pub proof fn lemma_no_sections_nothing_outdated(
    text: Seq<char>,
    table: Seq<(Seq<char>, Seq<char>)>,
)
    requires
        toml_text_deps(text, "dependencies"@).len() == 0,
        toml_text_deps(text, "dev-dependencies"@).len() == 0,
    ensures
        cargo_outdated_map(text, table) == Map::<Seq<char>, (Seq<char>, Seq<char>)>::empty(),
{
    assert(cargo_manifest_deps(text).len() == 0);
}

/// Parsing a manifest, applying no patch, and rendering it reproduces the
/// dependency content of every section.
pub fn toml_round_trip(text: &str) -> (r: Option<String>)
    ensures
        r is Some <==> toml_parses(text@),
        r matches Some(t) ==> toml_parses(t@),
        r matches Some(t) ==> (forall|s: Seq<char>|
            toml_text_deps(t@, s) == toml_text_deps(text@, s)),
{
    match toml_parse(text) {
        Err(_) => None,
        Ok(doc) => {
            let t = toml_render(&doc);
            proof {
                assert forall|s: Seq<char>| toml_text_deps(t@, s) == toml_text_deps(
                    text@,
                    s,
                ) by {
                    assert(toml_text_deps(t@, s) == toml_deps(doc, s));
                    assert(toml_deps(doc, s) == toml_text_deps(text@, s));
                }
            }
            Some(t)
        },
    }
}

/// With a reference table of plain versions, the update pass is
/// idempotent: a manifest whose sections have been patched once resolves
/// no outdated entry, so a second pass reports nothing to do and leaves
/// the file untouched.
pub proof fn lemma_update_cargo_idempotent(
    text: Seq<char>,
    new_text: Seq<char>,
    table: Seq<(Seq<char>, Seq<char>)>,
)
    requires
        forall|j: int|
            0 <= j < table.len() ==> crate::version::stripped(#[trigger] table[j].1) == table[
                j
            ].1,
        toml_text_deps(new_text, "dependencies"@) == patched_section(
            toml_text_deps(text, "dependencies"@),
            cargo_outdated_map(text, table),
        ),
        toml_text_deps(new_text, "dev-dependencies"@) == patched_section(
            toml_text_deps(text, "dev-dependencies"@),
            cargo_outdated_map(text, table),
        ),
    ensures
        cargo_outdated_map(new_text, table) == Map::<Seq<char>, (Seq<char>, Seq<char>)>::empty(),
{
    let m = cargo_outdated_map(text, table);
    let deps = cargo_manifest_deps(text);
    let deps2 = cargo_manifest_deps(new_text);
    crate::patch::lemma_patched_concat(
        toml_text_deps(text, "dependencies"@),
        toml_text_deps(text, "dev-dependencies"@),
        m,
    );
    assert(deps2 == patched_section(deps, m));
    crate::outdated::lemma_outdated_map_of_latest(deps, table);
    assert forall|k: int| 0 <= k < deps2.len() implies crate::outdated::entry_outdated(
        deps2[k],
        table,
    ) is None by {
        let e = deps[k];
        assert(deps2[k] == crate::patch::patched_entry(e, m));
        if m.contains_key(e.name) {
            match e.shape {
                crate::model::DepShape::Bare(_) => {
                    crate::reference::lemma_table_lookup_sane(table, e.name);
                    crate::version::lemma_stripped_caret(m[e.name].1);
                },
                crate::model::DepShape::Table(Some(_)) => {
                    crate::reference::lemma_table_lookup_sane(table, e.name);
                    crate::version::lemma_stripped_caret(m[e.name].1);
                },
                _ => {},
            }
        } else {
            if crate::outdated::entry_outdated(e, table) is Some {
                crate::outdated::lemma_outdated_entry_in_map(deps, table, k);
            }
        }
    }
    crate::outdated::lemma_outdated_map_from_none(Map::empty(), deps2, table);
}

} // verus!
