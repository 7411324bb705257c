//! The npm ecosystem: resolving the outdated set from the report
//! `npm outdated --json` prints, and the manifest update pass for
//! `package.json`.

use vstd::prelude::*;

use crate::json_doc::{json_parses, npm_report_rows, npm_rows_view, npm_text_rows, NpmRowModel};
use crate::json_update::{json_update_ok, update_json_manifest};
use crate::model::{outdated_view, ManifestUpdate, OutdatedEntry, OutdatedModel,
    OutdatedReport};
use crate::version::is_up_to_date;

verus! {

/// The outdated entries an npm report's rows resolve to: every row whose
/// `current` and `latest` fields are both present and differ.
pub open spec fn npm_resolved(rows: Seq<NpmRowModel>) -> Seq<OutdatedModel>
    decreases rows.len(),
{
    if rows.len() == 0 {
        Seq::empty()
    } else {
        npm_resolved(rows.drop_last()) + (match (rows.last().current, rows.last().latest) {
            (Some(c), Some(l)) => if c != l {
                seq![OutdatedModel { name: rows.last().name, current: c, latest: l }]
            } else {
                Seq::empty()
            },
            _ => Seq::empty(),
        })
    }
}

/// Reads the outdated set from the text `npm outdated --json` printed: an
/// empty report resolves to nothing, a non-empty report that is not valid
/// JSON resolves to nothing with a warning, and otherwise every reported
/// package whose current and latest versions differ is resolved.
pub fn get_outdated_packages(stdout: &str) -> (r: OutdatedReport)
    ensures
        stdout@.len() == 0 ==> !r.parse_failed && r.entries@.len() == 0,
        stdout@.len() > 0 ==> (r.parse_failed <==> !json_parses(stdout@)),
        r.parse_failed ==> r.entries@.len() == 0,
        stdout@.len() > 0 && !r.parse_failed ==> outdated_view(r.entries@) == npm_resolved(
            npm_text_rows(stdout@),
        ),
{
    if stdout.unicode_len() == 0 {
        return OutdatedReport { entries: Vec::new(), parse_failed: false };
    }
    match npm_report_rows(stdout) {
        None => OutdatedReport { entries: Vec::new(), parse_failed: true },
        Some(rows) => {
            let ghost rv = npm_rows_view(rows@);
            let mut entries: Vec<OutdatedEntry> = Vec::new();
            proof {
                assert(rv.take(0) =~= Seq::<NpmRowModel>::empty());
                assert(outdated_view(entries@) =~= Seq::<OutdatedModel>::empty());
            }
            let mut i: usize = 0;
            while i < rows.len()
                invariant
                    i <= rows.len(),
                    rv == npm_rows_view(rows@),
                    outdated_view(entries@) == npm_resolved(rv.take(i as int)),
                decreases rows.len() - i,
            {
                let ghost ii = i as int;
                proof {
                    assert(rv.take(ii + 1).drop_last() =~= rv.take(ii));
                    assert(rv.take(ii + 1).last() == rv[ii]);
                    assert(rv[ii] == rows@[ii]@);
                }
                let row = &rows[i];
                match (&row.current, &row.latest) {
                    (Some(c), Some(l)) => {
                        if !is_up_to_date(c.as_str(), l.as_str()) {
                            entries.push(
                                OutdatedEntry {
                                    name: row.name.clone(),
                                    current: c.clone(),
                                    latest: l.clone(),
                                },
                            );
                            proof {
                                assert(outdated_view(entries@).drop_last() =~= npm_resolved(
                                    rv.take(ii),
                                ));
                                assert(outdated_view(entries@) =~= npm_resolved(
                                    rv.take(ii + 1),
                                ));
                            }
                        } else {
                            proof {
                                assert(outdated_view(entries@) =~= npm_resolved(rv.take(ii + 1)));
                            }
                        }
                    },
                    _ => {
                        proof {
                            assert(outdated_view(entries@) =~= npm_resolved(rv.take(ii + 1)));
                        }
                    },
                }
                i = i + 1;
            }
            proof {
                assert(rv.take(rows@.len() as int) =~= rv);
            }
            OutdatedReport { entries, parse_failed: false }
        },
    }
}

/// One update pass over the `package.json` text, applying the resolved
/// outdated entries to its `dependencies` and `devDependencies` sections.
pub fn update_npm(manifest: &str, outdated: &Vec<OutdatedEntry>) -> (r: ManifestUpdate)
    ensures
        json_update_ok(
            r,
            manifest@,
            outdated_view(outdated@),
            "dependencies"@,
            "devDependencies"@,
        ),
{
    proof {
        reveal_strlit("dependencies");
        reveal_strlit("devDependencies");
        assert("dependencies"@.len() != "devDependencies"@.len());
    }
    update_json_manifest(manifest, outdated, "dependencies", "devDependencies")
}

} // verus!
