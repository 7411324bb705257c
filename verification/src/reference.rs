//! The static reference table: a fixed mapping from package name to the
//! version it is known to have reached, used to resolve outdated entries of
//! the TOML manifest.

use vstd::prelude::*;

verus! {

/// One row of the reference table.
pub struct RefEntry {
    pub name: String,
    pub latest: String,
}

impl View for RefEntry {
    type V = (Seq<char>, Seq<char>);

    open spec fn view(&self) -> (Seq<char>, Seq<char>) {
        (self.name@, self.latest@)
    }
}

/// The rows of a reference table, as spec values.
pub open spec fn table_view(t: Seq<RefEntry>) -> Seq<(Seq<char>, Seq<char>)> {
    t.map_values(|e: RefEntry| e@)
}

/// Value the table holds for `name`: the first row of that name.
pub open spec fn table_lookup(table: Seq<(Seq<char>, Seq<char>)>, name: Seq<char>) -> Option<
    Seq<char>,
>
    decreases table.len(),
{
    if table.len() == 0 {
        None
    } else if table[0].0 == name {
        Some(table[0].1)
    } else {
        table_lookup(table.drop_first(), name)
    }
}

/// The rows of the built-in reference table, in order.
pub open spec fn reference_pairs() -> Seq<(Seq<char>, Seq<char>)> {
    seq![
        ("colored"@, "3.0.0"@),
        ("toml_edit"@, "0.22.26"@),
        ("serde"@, "1.0.190"@),
        ("serde_json"@, "1.0.107"@),
        ("clap"@, "4.4.8"@),
        ("tempfile"@, "3.8.1"@),
        ("assert_cmd"@, "2.0.12"@),
        ("predicates"@, "3.0.4"@),
    ]
}

fn ref_entry(name: &str, latest: &str) -> (r: RefEntry)
    ensures
        r@ == (name@, latest@),
{
    RefEntry { name: String::from_str(name), latest: String::from_str(latest) }
}

/// Builds the reference table of known latest versions of common packages.
pub fn reference_table() -> (r: Vec<RefEntry>)
    ensures
        table_view(r@) == reference_pairs(),
{
    let mut v: Vec<RefEntry> = Vec::new();
    v.push(ref_entry("colored", "3.0.0"));
    v.push(ref_entry("toml_edit", "0.22.26"));
    v.push(ref_entry("serde", "1.0.190"));
    v.push(ref_entry("serde_json", "1.0.107"));
    v.push(ref_entry("clap", "4.4.8"));
    v.push(ref_entry("tempfile", "3.8.1"));
    v.push(ref_entry("assert_cmd", "2.0.12"));
    v.push(ref_entry("predicates", "3.0.4"));
    proof {
        assert(table_view(v@) =~= reference_pairs());
    }
    v
}

/// Looks `name` up in the table; returns a copy of the first matching row's
/// latest version.
pub fn lookup_latest(table: &Vec<RefEntry>, name: &str) -> (r: Option<String>)
    ensures
        r matches Some(l) ==> table_lookup(table_view(table@), name@) == Some(l@),
        r is None ==> table_lookup(table_view(table@), name@) is None,
{
    let ghost tv = table_view(table@);
    proof {
        assert(tv.skip(0) =~= tv);
    }
    let mut i: usize = 0;
    while i < table.len()
        invariant
            i <= table.len(),
            tv == table_view(table@),
            table_lookup(tv, name@) == table_lookup(tv.skip(i as int), name@),
        decreases table.len() - i,
    {
        if crate::version::is_up_to_date(table[i].name.as_str(), name) {
            proof {
                assert(tv.skip(i as int)[0] == table@[i as int]@);
            }
            return Some(table[i].latest.clone());
        }
        proof {
            assert(tv.skip(i as int).drop_first() =~= tv.skip(i as int + 1));
        }
        i = i + 1;
    }
    proof {
        assert(tv.skip(table@.len() as int) =~= Seq::<(Seq<char>, Seq<char>)>::empty());
    }
    None
}

/// A lookup in a table of plain versions returns a plain version: one that
/// is its own anchor.
pub proof fn lemma_table_lookup_sane(table: Seq<(Seq<char>, Seq<char>)>, name: Seq<char>)
    requires
        forall|j: int|
            0 <= j < table.len() ==> crate::version::stripped(#[trigger] table[j].1) == table[j].1,
    ensures
        table_lookup(table, name) matches Some(l) ==> crate::version::stripped(l) == l,
    decreases table.len(),
{
    if table.len() > 0 && table[0].0 != name {
        assert(forall|j: int|
            0 <= j < table.drop_first().len() ==> #[trigger] table.drop_first()[j] == table[
                j + 1
            ]);
        lemma_table_lookup_sane(table.drop_first(), name);
    }
}

/// Every latest version of the built-in reference table is a plain
/// version: its own anchor, with no constraint operator in front.
pub proof fn lemma_reference_table_sane()
    ensures
        forall|j: int|
            0 <= j < reference_pairs().len() ==> crate::version::stripped(
                #[trigger] reference_pairs()[j].1,
            ) == reference_pairs()[j].1,
{
    assert forall|j: int| 0 <= j < reference_pairs().len() implies crate::version::stripped(
        #[trigger] reference_pairs()[j].1,
    ) == reference_pairs()[j].1 by {
        if j == 0 {
            reveal_strlit("3.0.0");
            crate::version::lemma_stripped_plain("3.0.0"@);
        } else if j == 1 {
            reveal_strlit("0.22.26");
            crate::version::lemma_stripped_plain("0.22.26"@);
        } else if j == 2 {
            reveal_strlit("1.0.190");
            crate::version::lemma_stripped_plain("1.0.190"@);
        } else if j == 3 {
            reveal_strlit("1.0.107");
            crate::version::lemma_stripped_plain("1.0.107"@);
        } else if j == 4 {
            reveal_strlit("4.4.8");
            crate::version::lemma_stripped_plain("4.4.8"@);
        } else if j == 5 {
            reveal_strlit("3.8.1");
            crate::version::lemma_stripped_plain("3.8.1"@);
        } else if j == 6 {
            reveal_strlit("2.0.12");
            crate::version::lemma_stripped_plain("2.0.12"@);
        } else {
            reveal_strlit("3.0.4");
            crate::version::lemma_stripped_plain("3.0.4"@);
        }
    }
}

} // verus!
