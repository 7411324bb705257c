//! Resolving the outdated set of the TOML manifest against the static
//! reference table: every entry whose anchored current version differs from
//! the table's latest version, keyed by name, with later sections
//! overriding earlier ones.

use vstd::prelude::*;

use crate::model::{deps_view, entries_map, outdated_view, Dep, DepEntry, DepModel, DepShape,
    OutdatedEntry, OutdatedModel};
use crate::reference::{table_lookup, table_view, RefEntry};
use crate::version::{extract_version, is_up_to_date, stripped};

verus! {

/// The current-version anchor a manifest entry offers: a bare string or a
/// table's `version` field, stripped of constraint operators.  An entry
/// without a usable `version` field anchors to the empty string; an entry
/// of any other shape offers none.
pub open spec fn anchor(sh: DepShape) -> Option<Seq<char>> {
    match sh {
        DepShape::Bare(s) => Some(stripped(s)),
        DepShape::Table(Some(s)) => Some(stripped(s)),
        DepShape::Table(None) => Some(Seq::empty()),
        DepShape::Other => None,
    }
}

/// What one manifest entry contributes to the outdated set: its anchored
/// current version and the table's latest version, when the entry has a
/// non-empty anchor, its name is in the table, and the two versions differ.
pub open spec fn entry_outdated(
    m: DepModel,
    table: Seq<(Seq<char>, Seq<char>)>,
) -> Option<(Seq<char>, Seq<char>)> {
    match anchor(m.shape) {
        None => None,
        Some(cur) => if cur.len() == 0 {
            None
        } else {
            match table_lookup(table, m.name) {
                None => None,
                Some(latest) => if cur == latest {
                    None
                } else {
                    Some((cur, latest))
                },
            }
        },
    }
}

/// The outdated mapping after processing `entries` in order, starting from
/// `m0`: each outdated entry is inserted under its name.
pub open spec fn outdated_map_from(
    m0: Map<Seq<char>, (Seq<char>, Seq<char>)>,
    entries: Seq<DepModel>,
    table: Seq<(Seq<char>, Seq<char>)>,
) -> Map<Seq<char>, (Seq<char>, Seq<char>)>
    decreases entries.len(),
{
    if entries.len() == 0 {
        m0
    } else {
        let m1 = match entry_outdated(entries[0], table) {
            Some(p) => m0.insert(entries[0].name, p),
            None => m0,
        };
        outdated_map_from(m1, entries.drop_first(), table)
    }
}

/// The outdated mapping of a manifest's entries, processed in order.
pub open spec fn outdated_map_of(
    entries: Seq<DepModel>,
    table: Seq<(Seq<char>, Seq<char>)>,
) -> Map<Seq<char>, (Seq<char>, Seq<char>)> {
    outdated_map_from(Map::empty(), entries, table)
}

/// Processing a concatenation processes its parts in turn.
pub proof fn lemma_outdated_map_from_concat(
    m0: Map<Seq<char>, (Seq<char>, Seq<char>)>,
    a: Seq<DepModel>,
    b: Seq<DepModel>,
    table: Seq<(Seq<char>, Seq<char>)>,
)
    ensures
        outdated_map_from(m0, a + b, table) == outdated_map_from(
            outdated_map_from(m0, a, table),
            b,
            table,
        ),
    decreases a.len(),
{
    if a.len() == 0 {
        assert(a + b =~= b);
    } else {
        assert((a + b).drop_first() =~= a.drop_first() + b);
        let m1 = match entry_outdated(a[0], table) {
            Some(p) => m0.insert(a[0].name, p),
            None => m0,
        };
        lemma_outdated_map_from_concat(m1, a.drop_first(), b, table);
    }
}

/// No two resolved entries share a name.
pub open spec fn distinct_outdated_names(v: Seq<OutdatedModel>) -> bool {
    forall|i: int, j: int| 0 <= i < j < v.len() ==> v[i].name != v[j].name
}

/// Replacing the entry at `j` by one of the same name updates the mapping
/// under that name.
proof fn lemma_entries_map_update(v: Seq<OutdatedModel>, j: int, e: OutdatedModel)
    requires
        0 <= j < v.len(),
        v[j].name == e.name,
        distinct_outdated_names(v),
    ensures
        entries_map(v.update(j, e)) == entries_map(v).insert(e.name, (e.current, e.latest)),
    decreases v.len(),
{
    let w = v.update(j, e);
    if j == v.len() - 1 {
        assert(w.drop_last() =~= v.drop_last());
        assert(entries_map(w) =~= entries_map(v).insert(e.name, (e.current, e.latest)));
    } else {
        let vd = v.drop_last();
        assert(w.drop_last() =~= vd.update(j, e));
        assert(w.last() == v.last());
        lemma_entries_map_update(vd, j, e);
        assert(v.last().name != e.name);
        assert(entries_map(w) =~= entries_map(v).insert(e.name, (e.current, e.latest)));
    }
}

/// Inserts `e` into the list: replaces the entry of the same name if one
/// exists, else appends.
fn upsert(acc: &mut Vec<OutdatedEntry>, e: OutdatedEntry)
    requires
        distinct_outdated_names(outdated_view(old(acc)@)),
    ensures
        distinct_outdated_names(outdated_view(final(acc)@)),
        entries_map(outdated_view(final(acc)@)) == entries_map(outdated_view(old(acc)@)).insert(
            e@.name,
            (e@.current, e@.latest),
        ),
{
    let ghost v0 = outdated_view(acc@);
    let mut j: usize = 0;
    while j < acc.len()
        invariant
            j <= acc.len(),
            acc@ == old(acc)@,
            v0 == outdated_view(acc@),
            distinct_outdated_names(v0),
            forall|k: int| 0 <= k < j ==> v0[k].name != e@.name,
        decreases acc.len() - j,
    {
        if is_up_to_date(acc[j].name.as_str(), e.name.as_str()) {
            let ghost jj = j as int;
            proof {
                assert(v0[jj].name == e@.name);
            }
            acc.remove(j);
            acc.insert(j, e);
            proof {
                let w = v0.update(jj, e@);
                assert(outdated_view(acc@) =~= w);
                assert forall|a: int, b: int| 0 <= a < b < w.len() implies w[a].name
                    != w[b].name by {
                    assert(w[a].name == v0[a].name);
                    assert(w[b].name == v0[b].name);
                }
                lemma_entries_map_update(v0, jj, e@);
            }
            return ;
        }
        j = j + 1;
    }
    acc.push(e);
    proof {
        let w = outdated_view(acc@);
        assert(w.drop_last() =~= v0);
        assert(w.last() == e@);
        assert forall|a: int, b: int| 0 <= a < b < w.len() implies w[a].name != w[b].name by {
            if b < w.len() - 1 {
                assert(w[a] == v0[a]);
                assert(w[b] == v0[b]);
            } else {
                assert(w[a] == v0[a]);
                assert(w[b] == e@);
            }
        }
        assert(entries_map(w) == entries_map(v0).insert(e@.name, (e@.current, e@.latest)));
    }
}

/// Walks one section's entries and folds each outdated one into the
/// accumulated set, later entries overriding earlier ones of the same name.
pub fn check_section(deps: &Vec<Dep>, table: &Vec<RefEntry>, outdated: &mut Vec<OutdatedEntry>)
    requires
        distinct_outdated_names(outdated_view(old(outdated)@)),
    ensures
        distinct_outdated_names(outdated_view(final(outdated)@)),
        entries_map(outdated_view(final(outdated)@)) == outdated_map_from(
            entries_map(outdated_view(old(outdated)@)),
            deps_view(deps@),
            table_view(table@),
        ),
{
    let ghost dv = deps_view(deps@);
    let ghost tv = table_view(table@);
    let ghost m0 = entries_map(outdated_view(outdated@));
    proof {
        assert(dv.skip(0) =~= dv);
    }
    let mut i: usize = 0;
    while i < deps.len()
        invariant
            i <= deps.len(),
            dv == deps_view(deps@),
            tv == table_view(table@),
            distinct_outdated_names(outdated_view(outdated@)),
            outdated_map_from(m0, dv, tv) == outdated_map_from(
                entries_map(outdated_view(outdated@)),
                dv.skip(i as int),
                tv,
            ),
        decreases deps.len() - i,
    {
        let ghost ii = i as int;
        proof {
            assert(dv.skip(ii)[0] == dv[ii]);
            assert(dv.skip(ii).drop_first() =~= dv.skip(ii + 1));
        }
        let d = &deps[i];
        let anchor_opt: Option<String> = match &d.entry {
            DepEntry::Bare(s) => Some(extract_version(s.as_str())),
            DepEntry::Table(Some(s)) => Some(extract_version(s.as_str())),
            DepEntry::Table(None) => Some(String::new()),
            DepEntry::Other => None,
        };
        match anchor_opt {
            None => {
                assert(entry_outdated(dv[ii], tv) is None);
            },
            Some(cur) => {
                if cur.as_str().unicode_len() == 0 {
                    assert(entry_outdated(dv[ii], tv) is None);
                } else {
                    match crate::reference::lookup_latest(table, d.name.as_str()) {
                        None => {
                            assert(entry_outdated(dv[ii], tv) is None);
                        },
                        Some(latest) => {
                            if is_up_to_date(cur.as_str(), latest.as_str()) {
                                assert(entry_outdated(dv[ii], tv) is None);
                            } else {
                                assert(entry_outdated(dv[ii], tv) == Some((cur@, latest@)));
                                let entry = OutdatedEntry {
                                    name: d.name.clone(),
                                    current: cur,
                                    latest,
                                };
                                upsert(outdated, entry);
                            }
                        },
                    }
                }
            },
        }
        i = i + 1;
    }
    proof {
        assert(dv.skip(deps@.len() as int) =~= Seq::<DepModel>::empty());
    }
}

/// Resolves the outdated set of the TOML manifest: both dependency sections
/// are checked against the reference table, keyed by name, the second
/// section overriding the first.
pub fn find_outdated_packages(
    deps: &Vec<Dep>,
    dev_deps: &Vec<Dep>,
    table: &Vec<RefEntry>,
) -> (r: Vec<OutdatedEntry>)
    ensures
        distinct_outdated_names(outdated_view(r@)),
        entries_map(outdated_view(r@)) == outdated_map_of(
            deps_view(deps@) + deps_view(dev_deps@),
            table_view(table@),
        ),
{
    let mut outdated: Vec<OutdatedEntry> = Vec::new();
    proof {
        assert(outdated_view(outdated@) =~= Seq::<OutdatedModel>::empty());
    }
    check_section(deps, table, &mut outdated);
    check_section(dev_deps, table, &mut outdated);
    proof {
        lemma_outdated_map_from_concat(
            Map::empty(),
            deps_view(deps@),
            deps_view(dev_deps@),
            table_view(table@),
        );
    }
    outdated
}

/// A name the mapping already holds stays in it while further entries are
/// processed.
proof fn lemma_outdated_map_from_keys(
    m0: Map<Seq<char>, (Seq<char>, Seq<char>)>,
    entries: Seq<DepModel>,
    table: Seq<(Seq<char>, Seq<char>)>,
    n: Seq<char>,
)
    requires
        m0.contains_key(n),
    ensures
        outdated_map_from(m0, entries, table).contains_key(n),
    decreases entries.len(),
{
    if entries.len() > 0 {
        let m1 = match entry_outdated(entries[0], table) {
            Some(p) => m0.insert(entries[0].name, p),
            None => m0,
        };
        lemma_outdated_map_from_keys(m1, entries.drop_first(), table, n);
    }
}

/// The name of every entry that resolves outdated is in the mapping.
pub proof fn lemma_outdated_entry_in_map(
    entries: Seq<DepModel>,
    table: Seq<(Seq<char>, Seq<char>)>,
    k: int,
)
    requires
        0 <= k < entries.len(),
        entry_outdated(entries[k], table) is Some,
    ensures
        outdated_map_of(entries, table).contains_key(entries[k].name),
{
    lemma_outdated_entry_in_map_from(Map::empty(), entries, table, k);
}

/// Helper for `lemma_outdated_entry_in_map`, generalized over the
/// starting mapping.
proof fn lemma_outdated_entry_in_map_from(
    m0: Map<Seq<char>, (Seq<char>, Seq<char>)>,
    entries: Seq<DepModel>,
    table: Seq<(Seq<char>, Seq<char>)>,
    k: int,
)
    requires
        0 <= k < entries.len(),
        entry_outdated(entries[k], table) is Some,
    ensures
        outdated_map_from(m0, entries, table).contains_key(entries[k].name),
    decreases entries.len(),
{
    let m1 = match entry_outdated(entries[0], table) {
        Some(p) => m0.insert(entries[0].name, p),
        None => m0,
    };
    if k == 0 {
        lemma_outdated_map_from_keys(m1, entries.drop_first(), table, entries[0].name);
    } else {
        lemma_outdated_entry_in_map_from(m1, entries.drop_first(), table, k - 1);
    }
}

/// Entries that all resolve up to date leave the mapping as it stood.
pub proof fn lemma_outdated_map_from_none(
    m0: Map<Seq<char>, (Seq<char>, Seq<char>)>,
    entries: Seq<DepModel>,
    table: Seq<(Seq<char>, Seq<char>)>,
)
    requires
        forall|k: int| 0 <= k < entries.len() ==> entry_outdated(entries[k], table) is None,
    ensures
        outdated_map_from(m0, entries, table) == m0,
    decreases entries.len(),
{
    if entries.len() > 0 {
        lemma_outdated_map_from_none(m0, entries.drop_first(), table);
    }
}

/// Every latest version the resolver records is the table's value for the
/// entry's name.
pub proof fn lemma_outdated_map_of_latest(
    entries: Seq<DepModel>,
    table: Seq<(Seq<char>, Seq<char>)>,
)
    ensures
        forall|n: Seq<char>|
            #[trigger] outdated_map_of(entries, table).contains_key(n) ==> table_lookup(table, n)
                == Some(outdated_map_of(entries, table)[n].1),
{
    lemma_outdated_map_from_latest(Map::empty(), entries, table);
}

/// Helper for `lemma_outdated_map_of_latest`, generalized over the
/// starting mapping.
proof fn lemma_outdated_map_from_latest(
    m0: Map<Seq<char>, (Seq<char>, Seq<char>)>,
    entries: Seq<DepModel>,
    table: Seq<(Seq<char>, Seq<char>)>,
)
    requires
        forall|n: Seq<char>|
            #[trigger] m0.contains_key(n) ==> table_lookup(table, n) == Some(m0[n].1),
    ensures
        forall|n: Seq<char>|
            #[trigger] outdated_map_from(m0, entries, table).contains_key(n) ==> table_lookup(
                table,
                n,
            ) == Some(outdated_map_from(m0, entries, table)[n].1),
    decreases entries.len(),
{
    if entries.len() > 0 {
        match entry_outdated(entries[0], table) {
            Some(p) => {
                assert(table_lookup(table, entries[0].name) == Some(p.1));
                let m1 = m0.insert(entries[0].name, p);
                assert forall|n: Seq<char>| #[trigger] m1.contains_key(n) implies table_lookup(
                    table,
                    n,
                ) == Some(m1[n].1) by {
                    if n != entries[0].name {
                        assert(m0.contains_key(n));
                    }
                }
                lemma_outdated_map_from_latest(m1, entries.drop_first(), table);
                assert(outdated_map_from(m0, entries, table) == outdated_map_from(
                    m1,
                    entries.drop_first(),
                    table,
                ));
            },
            None => {
                lemma_outdated_map_from_latest(m0, entries.drop_first(), table);
                assert(outdated_map_from(m0, entries, table) == outdated_map_from(
                    m0,
                    entries.drop_first(),
                    table,
                ));
            },
        }
    }
}

} // verus!
