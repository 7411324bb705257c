//! The composer ecosystem: resolving the outdated set from the report
//! `composer outdated --format=json` prints, and the manifest update pass
//! for `composer.json`.

use vstd::prelude::*;

use crate::json_doc::{composer_report_rows, composer_rows_view, composer_text_rows,
    json_parses, ComposerRowModel};
use crate::json_update::{json_update_ok, update_json_manifest};
use crate::model::{outdated_view, ManifestUpdate, OutdatedEntry, OutdatedModel,
    OutdatedReport};
use crate::version::is_up_to_date;

verus! {

/// A report field, defaulted to the empty string when absent.
pub open spec fn or_empty(o: Option<Seq<char>>) -> Seq<char> {
    match o {
        Some(s) => s,
        None => Seq::empty(),
    }
}

/// The outdated entries a composer report's rows resolve to: every row
/// whose status is anything but the up-to-date marker and whose current
/// and latest versions are non-empty.
pub open spec fn composer_resolved(rows: Seq<ComposerRowModel>) -> Seq<OutdatedModel>
    decreases rows.len(),
{
    if rows.len() == 0 {
        Seq::empty()
    } else {
        composer_resolved(rows.drop_last()) + ({
            let row = rows.last();
            if or_empty(row.status) != "up-to-date"@ && or_empty(row.version).len() > 0
                && or_empty(row.latest).len() > 0 {
                seq![
                    OutdatedModel {
                        name: or_empty(row.name),
                        current: or_empty(row.version),
                        latest: or_empty(row.latest),
                    },
                ]
            } else {
                Seq::empty()
            }
        })
    }
}

/// Reads the outdated set from the text `composer outdated --format=json`
/// printed: an empty report resolves to nothing, a non-empty report that
/// is not valid JSON resolves to nothing with a warning, and otherwise
/// every installed package the tool does not mark up-to-date, with both
/// versions reported, is resolved.
pub fn get_outdated_packages(stdout: &str) -> (r: OutdatedReport)
    ensures
        stdout@.len() == 0 ==> !r.parse_failed && r.entries@.len() == 0,
        stdout@.len() > 0 ==> (r.parse_failed <==> !json_parses(stdout@)),
        r.parse_failed ==> r.entries@.len() == 0,
        stdout@.len() > 0 && !r.parse_failed ==> outdated_view(r.entries@) == composer_resolved(
            composer_text_rows(stdout@),
        ),
{
    if stdout.unicode_len() == 0 {
        return OutdatedReport { entries: Vec::new(), parse_failed: false };
    }
    match composer_report_rows(stdout) {
        None => OutdatedReport { entries: Vec::new(), parse_failed: true },
        Some(rows) => {
            let ghost rv = composer_rows_view(rows@);
            let mut entries: Vec<OutdatedEntry> = Vec::new();
            proof {
                assert(rv.take(0) =~= Seq::<ComposerRowModel>::empty());
                assert(outdated_view(entries@) =~= Seq::<OutdatedModel>::empty());
            }
            let mut i: usize = 0;
            while i < rows.len()
                invariant
                    i <= rows.len(),
                    rv == composer_rows_view(rows@),
                    outdated_view(entries@) == composer_resolved(rv.take(i as int)),
                decreases rows.len() - i,
            {
                let ghost ii = i as int;
                proof {
                    assert(rv.take(ii + 1).drop_last() =~= rv.take(ii));
                    assert(rv.take(ii + 1).last() == rv[ii]);
                    assert(rv[ii] == rows@[ii]@);
                    reveal_strlit("");
                    assert(""@ =~= Seq::<char>::empty());
                }
                let row = &rows[i];
                let name: &str = match &row.name {
                    Some(s) => s.as_str(),
                    None => "",
                };
                let current: &str = match &row.version {
                    Some(s) => s.as_str(),
                    None => "",
                };
                let latest: &str = match &row.latest {
                    Some(s) => s.as_str(),
                    None => "",
                };
                let status: &str = match &row.status {
                    Some(s) => s.as_str(),
                    None => "",
                };
                if !is_up_to_date(status, "up-to-date") && current.unicode_len() > 0
                    && latest.unicode_len() > 0 {
                    entries.push(
                        OutdatedEntry {
                            name: String::from_str(name),
                            current: String::from_str(current),
                            latest: String::from_str(latest),
                        },
                    );
                    proof {
                        assert(outdated_view(entries@).drop_last() =~= composer_resolved(
                            rv.take(ii),
                        ));
                        assert(outdated_view(entries@) =~= composer_resolved(rv.take(ii + 1)));
                    }
                } else {
                    proof {
                        assert(outdated_view(entries@) =~= composer_resolved(rv.take(ii + 1)));
                    }
                }
                i = i + 1;
            }
            proof {
                assert(rv.take(rows@.len() as int) =~= rv);
            }
            OutdatedReport { entries, parse_failed: false }
        },
    }
}

/// One update pass over the `composer.json` text, applying the resolved
/// outdated entries to its `require` and `require-dev` sections.
pub fn update_composer(manifest: &str, outdated: &Vec<OutdatedEntry>) -> (r: ManifestUpdate)
    ensures
        json_update_ok(r, manifest@, outdated_view(outdated@), "require"@, "require-dev"@),
{
    proof {
        reveal_strlit("require");
        reveal_strlit("require-dev");
        assert("require"@.len() != "require-dev"@.len());
    }
    update_json_manifest(manifest, outdated, "require", "require-dev")
}

} // verus!
