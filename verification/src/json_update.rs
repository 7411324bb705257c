//! The update pass shared by the JSON manifests: parse, rewrite every
//! resolved outdated entry found in either of two named sections — bare
//! strings whole, object entries in their `version` field only — and
//! render the patched value.

use vstd::prelude::*;

use crate::json_doc::{json_deps, json_parse, json_parses, json_render, json_text_deps,
    json_value_wf};
use crate::model::{entries_map, outdated_view, strings_view, ManifestUpdate, OutdatedEntry,
    OutdatedModel, UpdatedManifest};
use crate::patch::{count_applied, lemma_count_le, lemma_count_patched, lemma_patch_idempotent,
    patch_json_section, patched_section, saturated, unsupported_names};

verus! {

/// What one JSON update pass returns: it fails exactly on unparsable text;
/// reports nothing to do exactly when the outdated list is empty; leaves
/// the text alone when no outdated entry stands in either section in a
/// rewritable shape; and otherwise returns a rewritten text whose two
/// sections are the patched originals, every other section untouched.
/// Either way the names of outdated entries whose shape is unsupported are
/// reported.
pub open spec fn json_update_ok(
    r: ManifestUpdate,
    text: Seq<char>,
    outdated: Seq<OutdatedModel>,
    section1: Seq<char>,
    section2: Seq<char>,
) -> bool {
    &&& (r is ParseFailed <==> !json_parses(text))
    &&& ({
        let m = entries_map(outdated);
        let d1 = json_text_deps(text, section1);
        let d2 = json_text_deps(text, section2);
        let c = count_applied(d1, m) + count_applied(d2, m);
        json_parses(text) ==> {
            &&& (r is NothingOutdated <==> outdated.len() == 0)
            &&& (outdated.len() > 0 ==> match r {
                ManifestUpdate::NoChanges(uns) => c == 0 && strings_view(uns@)
                    == unsupported_names(d1, m) + unsupported_names(d2, m),
                ManifestUpdate::Updated(u) => {
                    &&& c > 0
                    &&& u.updates == saturated(c)
                    &&& json_parses(u.new_text@)
                    &&& json_text_deps(u.new_text@, section1) == patched_section(d1, m)
                    &&& json_text_deps(u.new_text@, section2) == patched_section(d2, m)
                    &&& (forall|s: Seq<char>|
                        s != section1 && s != section2 ==> json_text_deps(u.new_text@, s)
                            == json_text_deps(text, s))
                    &&& strings_view(u.unsupported@) == unsupported_names(d1, m)
                        + unsupported_names(d2, m)
                },
                _ => false,
            })
        }
    })
}

/// One update pass over a JSON manifest text, applying the already-resolved
/// outdated entries to the sections named `section1` and `section2`.
pub fn update_json_manifest(
    text: &str,
    outdated: &Vec<OutdatedEntry>,
    section1: &str,
    section2: &str,
) -> (r: ManifestUpdate)
    requires
        section1@ != section2@,
    ensures
        json_update_ok(r, text@, outdated_view(outdated@), section1@, section2@),
{
    let parsed = json_parse(text);
    match parsed {
        Err(e) => ManifestUpdate::ParseFailed(e),
        Ok(mut value) => {
            if outdated.len() == 0 {
                return ManifestUpdate::NothingOutdated;
            }
            let ghost d1 = json_text_deps(text@, section1@);
            let ghost d2 = json_text_deps(text@, section2@);
            let ghost m = entries_map(outdated_view(outdated@));
            let ghost value0 = value;
            let (c1, unsupported1) = patch_json_section(&mut value, section1, outdated);
            let ghost value_mid = value;
            let (c2, mut unsupported2) = patch_json_section(&mut value, section2, outdated);
            let ghost value_end = value;
            proof {
                lemma_count_le(d1, m);
                lemma_count_le(d2, m);
            }
            let mut unsupported = unsupported1;
            unsupported.append(&mut unsupported2);
            proof {
                assert(strings_view(unsupported@) =~= unsupported_names(d1, m)
                    + unsupported_names(d2, m));
            }
            let total = if c1 <= usize::MAX - c2 {
                c1 + c2
            } else {
                usize::MAX
            };
            if total > 0 {
                let new_text = json_render(&value);
                proof {
                    assert forall|s: Seq<char>|
                        s != section1@ && s != section2@ implies json_text_deps(new_text@, s)
                        == json_text_deps(text@, s) by {
                        assert(json_text_deps(new_text@, s) == json_deps(value_end, s));
                        assert(json_deps(value_end, s) == json_deps(value_mid, s));
                        assert(json_deps(value_mid, s) == json_deps(value0, s));
                        assert(json_deps(value0, s) == json_text_deps(text@, s));
                    }
                }
                ManifestUpdate::Updated(
                    UpdatedManifest { new_text, updates: total, unsupported },
                )
            } else {
                ManifestUpdate::NoChanges(unsupported)
            }
        },
    }
}

/// Parsing a manifest, applying no patch, and rendering it reproduces the
/// dependency content of every section.
pub fn json_round_trip(text: &str) -> (r: Option<String>)
    ensures
        r is Some <==> json_parses(text@),
        r matches Some(t) ==> json_parses(t@),
        r matches Some(t) ==> (forall|s: Seq<char>|
            json_text_deps(t@, s) == json_text_deps(text@, s)),
{
    match json_parse(text) {
        Err(_) => None,
        Ok(value) => {
            let t = json_render(&value);
            proof {
                assert forall|s: Seq<char>| json_text_deps(t@, s) == json_text_deps(
                    text@,
                    s,
                ) by {
                    assert(json_text_deps(t@, s) == json_deps(value, s));
                    assert(json_deps(value, s) == json_text_deps(text@, s));
                }
            }
            Some(t)
        },
    }
}

/// With the package manager's report held fixed, a second update pass over
/// the text the first one wrote rewrites the same entries to the same
/// constraints: it returns a text with identical dependency content in
/// every section.
pub proof fn lemma_update_json_idempotent(
    r2: ManifestUpdate,
    text: Seq<char>,
    u1: UpdatedManifest,
    outdated: Seq<OutdatedModel>,
    section1: Seq<char>,
    section2: Seq<char>,
)
    requires
        outdated.len() > 0,
        json_parses(text),
        json_update_ok(ManifestUpdate::Updated(u1), text, outdated, section1, section2),
        json_update_ok(r2, u1.new_text@, outdated, section1, section2),
    ensures
        r2 matches ManifestUpdate::Updated(u2) && (forall|s: Seq<char>|
            json_text_deps(u2.new_text@, s) == json_text_deps(u1.new_text@, s)),
{
    let m = entries_map(outdated);
    let d1 = json_text_deps(text, section1);
    let d2 = json_text_deps(text, section2);
    lemma_count_patched(d1, m);
    lemma_count_patched(d2, m);
    match r2 {
        ManifestUpdate::Updated(u2) => {
            lemma_patch_idempotent(d1, m);
            lemma_patch_idempotent(d2, m);
            assert forall|s: Seq<char>| json_text_deps(u2.new_text@, s) == json_text_deps(
                u1.new_text@,
                s,
            ) by {
                if s != section1 && s != section2 {
                    assert(json_text_deps(u2.new_text@, s) == json_text_deps(u1.new_text@, s));
                }
            }
        },
        _ => {
            assert(false);
        },
    }
}

} // verus!
