//! The backup safety net: which copies are made before a manifest is
//! rewritten, how backup files are recognized, and how they are renamed
//! back over the originals on revert.

use vstd::prelude::*;

use crate::ecosystem::Ecosystem;
use crate::model::strings_view;

verus! {

/// The suffix a backup file's name carries.
pub open spec fn backup_suffix() -> Seq<char> {
    seq!['.', 'b', 'a', 'c', 'k', 'u', 'p']
}

/// Whether a file name is a backup file's name.
pub open spec fn is_backup_name(s: Seq<char>) -> bool {
    s.len() >= 7 && s.subrange(s.len() - 7, s.len() as int) == backup_suffix()
}

/// A file name with the backup suffix appended.
pub open spec fn backup_name(s: Seq<char>) -> Seq<char> {
    s + backup_suffix()
}

/// One copy the backup step performs.
pub struct CopyStep {
    pub src: String,
    pub dst: String,
}

impl View for CopyStep {
    type V = (Seq<char>, Seq<char>);

    open spec fn view(&self) -> (Seq<char>, Seq<char>) {
        (self.src@, self.dst@)
    }
}

/// The copies of a backup plan, as spec values.
pub open spec fn copies_view(v: Seq<CopyStep>) -> Seq<(Seq<char>, Seq<char>)> {
    v.map_values(|c: CopyStep| c@)
}

/// One rename the revert step performs.
pub struct RenameStep {
    pub from: String,
    pub to: String,
}

impl View for RenameStep {
    type V = (Seq<char>, Seq<char>);

    open spec fn view(&self) -> (Seq<char>, Seq<char>) {
        (self.from@, self.to@)
    }
}

/// The renames of a revert plan, as spec values.
pub open spec fn renames_view(v: Seq<RenameStep>) -> Seq<(Seq<char>, Seq<char>)> {
    v.map_values(|c: RenameStep| c@)
}

/// Appends the backup suffix to a file name.
pub fn with_backup_suffix(name: &str) -> (r: String)
    ensures
        r@ == backup_name(name@),
{
    let mut r = String::from_str(name);
    r.append(".backup");
    proof {
        reveal_strlit(".backup");
        assert(".backup"@ =~= backup_suffix());
    }
    r
}

/// The copies made before the ecosystem's manifest is rewritten: the
/// manifest always, and the lock file when it exists, each to a sibling
/// file carrying the backup suffix.
pub fn create_backups(eco: &Ecosystem, lock_exists: bool) -> (r: Vec<CopyStep>)
    ensures
        copies_view(r@) == (if lock_exists {
            seq![
                (eco.manifest_name(), backup_name(eco.manifest_name())),
                (eco.lock_name(), backup_name(eco.lock_name())),
            ]
        } else {
            seq![(eco.manifest_name(), backup_name(eco.manifest_name()))]
        }),
{
    let mut steps: Vec<CopyStep> = Vec::new();
    let manifest = eco.manifest_file();
    let manifest_backup = with_backup_suffix(manifest.as_str());
    steps.push(CopyStep { src: manifest, dst: manifest_backup });
    if lock_exists {
        let lock = eco.lock_file();
        let lock_backup = with_backup_suffix(lock.as_str());
        steps.push(CopyStep { src: lock, dst: lock_backup });
        proof {
            assert(copies_view(steps@) =~= seq![
                (eco.manifest_name(), backup_name(eco.manifest_name())),
                (eco.lock_name(), backup_name(eco.lock_name())),
            ]);
        }
    } else {
        proof {
            assert(copies_view(steps@) =~= seq![
                (eco.manifest_name(), backup_name(eco.manifest_name())),
            ]);
        }
    }
    steps
}

/// Whether the name's chars from `end - 7` to `end` spell the backup
/// suffix.
fn has_backup_suffix_at(name: &str, end: usize) -> (r: bool)
    requires
        end <= name@.len(),
    ensures
        r == is_backup_name(name@.subrange(0, end as int)),
{
    let ghost sub = name@.subrange(0, end as int);
    if end < 7 {
        return false;
    }
    let r = name.get_char(end - 7) == '.' && name.get_char(end - 6) == 'b' && name.get_char(
        end - 5,
    ) == 'a' && name.get_char(end - 4) == 'c' && name.get_char(end - 3) == 'k' && name.get_char(
        end - 2,
    ) == 'u' && name.get_char(end - 1) == 'p';
    proof {
        let tail = sub.subrange(sub.len() - 7, sub.len() as int);
        assert(tail.len() == 7);
        assert forall|j: int| 0 <= j < 7 implies tail[j] == name@[end - 7 + j] by {}
        if r {
            assert(tail =~= backup_suffix());
        } else {
            assert(tail != backup_suffix()) by {
                if tail == backup_suffix() {
                    assert(name@[end as int - 7] == tail[0]);
                    assert(name@[end as int - 6] == tail[1]);
                    assert(name@[end as int - 5] == tail[2]);
                    assert(name@[end as int - 4] == tail[3]);
                    assert(name@[end as int - 3] == tail[4]);
                    assert(name@[end as int - 2] == tail[5]);
                    assert(name@[end as int - 1] == tail[6]);
                }
            }
        }
    }
    r
}

/// Whether a file name is a backup file's name.
pub fn is_backup_file(name: &str) -> (r: bool)
    ensures
        r == is_backup_name(name@),
{
    let n = name.unicode_len();
    proof {
        assert(name@.subrange(0, n as int) =~= name@);
    }
    has_backup_suffix_at(name, n)
}

/// Whether any of the names is a backup file's name.
pub open spec fn any_backup(names: Seq<Seq<char>>) -> bool
    decreases names.len(),
{
    if names.len() == 0 {
        false
    } else {
        any_backup(names.drop_last()) || is_backup_name(names.last())
    }
}

/// Whether the directory listing holds at least one backup file.
pub fn check_backups_exist(file_names: &Vec<String>) -> (r: bool)
    ensures
        r == any_backup(strings_view(file_names@)),
{
    let ghost nv = strings_view(file_names@);
    proof {
        assert(nv.take(0) =~= Seq::<Seq<char>>::empty());
    }
    let mut i: usize = 0;
    while i < file_names.len()
        invariant
            i <= file_names.len(),
            nv == strings_view(file_names@),
            !any_backup(nv.take(i as int)),
        decreases file_names.len() - i,
    {
        let ghost ii = i as int;
        proof {
            assert(nv.take(ii + 1).drop_last() =~= nv.take(ii));
            assert(nv.take(ii + 1).last() == nv[ii]);
        }
        if is_backup_file(file_names[i].as_str()) {
            proof {
                lemma_any_backup_extends(nv, ii + 1);
            }
            return true;
        }
        i = i + 1;
    }
    proof {
        assert(nv.take(file_names@.len() as int) =~= nv);
    }
    false
}

/// A prefix holding a backup name makes the whole listing hold one.
proof fn lemma_any_backup_extends(names: Seq<Seq<char>>, k: int)
    requires
        0 <= k <= names.len(),
        any_backup(names.take(k)),
    ensures
        any_backup(names),
    decreases names.len() - k,
{
    if k < names.len() {
        assert(names.take(k + 1).drop_last() =~= names.take(k));
        lemma_any_backup_extends(names, k + 1);
    } else {
        assert(names.take(k) =~= names);
    }
}

/// A file name with every trailing backup suffix removed: the name the
/// revert step restores to.
pub open spec fn strip_backup_suffixes(s: Seq<char>) -> Seq<char>
    decreases s.len(),
{
    if is_backup_name(s) {
        strip_backup_suffixes(s.subrange(0, s.len() - 7))
    } else {
        s
    }
}

/// Removes every trailing backup suffix from a file name.
pub fn strip_backup_name(name: &str) -> (r: String)
    ensures
        r@ == strip_backup_suffixes(name@),
{
    let n = name.unicode_len();
    proof {
        assert(name@.subrange(0, n as int) =~= name@);
    }
    let mut end: usize = n;
    let mut more = has_backup_suffix_at(name, end);
    while more
        invariant
            end <= n,
            n == name@.len(),
            more == is_backup_name(name@.subrange(0, end as int)),
            strip_backup_suffixes(name@) == strip_backup_suffixes(
                name@.subrange(0, end as int),
            ),
        decreases end,
    {
        proof {
            assert(name@.subrange(0, end as int).subrange(0, end as int - 7) =~= name@.subrange(
                0,
                end as int - 7,
            ));
        }
        end = end - 7;
        more = has_backup_suffix_at(name, end);
    }
    let tail = name.substring_char(0, end);
    String::from_str(tail)
}

/// The renames the revert step performs: every backup file, in listing
/// order, goes back over the name its suffixes stand for.
pub open spec fn revert_plan(names: Seq<Seq<char>>) -> Seq<(Seq<char>, Seq<char>)>
    decreases names.len(),
{
    if names.len() == 0 {
        Seq::empty()
    } else {
        revert_plan(names.drop_last()) + (if is_backup_name(names.last()) {
            seq![(names.last(), strip_backup_suffixes(names.last()))]
        } else {
            Seq::empty()
        })
    }
}

/// Plans the revert of a directory listing: one rename per backup file,
/// restoring the original name and consuming the backup.
pub fn revert_changes(file_names: &Vec<String>) -> (r: Vec<RenameStep>)
    ensures
        renames_view(r@) == revert_plan(strings_view(file_names@)),
{
    let ghost nv = strings_view(file_names@);
    let mut steps: Vec<RenameStep> = Vec::new();
    proof {
        assert(nv.take(0) =~= Seq::<Seq<char>>::empty());
        assert(renames_view(steps@) =~= Seq::<(Seq<char>, Seq<char>)>::empty());
    }
    let mut i: usize = 0;
    while i < file_names.len()
        invariant
            i <= file_names.len(),
            nv == strings_view(file_names@),
            renames_view(steps@) == revert_plan(nv.take(i as int)),
        decreases file_names.len() - i,
    {
        let ghost ii = i as int;
        proof {
            assert(nv.take(ii + 1).drop_last() =~= nv.take(ii));
            assert(nv.take(ii + 1).last() == nv[ii]);
        }
        let name = &file_names[i];
        if is_backup_file(name.as_str()) {
            let restored = strip_backup_name(name.as_str());
            steps.push(RenameStep { from: name.clone(), to: restored });
            proof {
                assert(renames_view(steps@).drop_last() =~= revert_plan(nv.take(ii)));
                assert(renames_view(steps@) =~= revert_plan(nv.take(ii + 1)));
            }
        } else {
            proof {
                assert(renames_view(steps@) =~= revert_plan(nv.take(ii + 1)));
            }
        }
        i = i + 1;
    }
    proof {
        assert(nv.take(file_names@.len() as int) =~= nv);
    }
    steps
}

/// The revert plan covers every backup file: each one is renamed back over
/// the name its suffixes stand for.
pub proof fn lemma_revert_covers(names: Seq<Seq<char>>, k: int)
    requires
        0 <= k < names.len(),
        is_backup_name(names[k]),
    ensures
        revert_plan(names).contains((names[k], strip_backup_suffixes(names[k]))),
    decreases names.len(),
{
    if k == names.len() - 1 {
        let step = (names[k], strip_backup_suffixes(names[k]));
        let plan = revert_plan(names);
        assert(plan[plan.len() - 1] == step);
    } else {
        lemma_revert_covers(names.drop_last(), k);
        let step = (names[k], strip_backup_suffixes(names[k]));
        let prefix = revert_plan(names.drop_last());
        let i = choose|i: int| 0 <= i < prefix.len() && prefix[i] == step;
        assert(revert_plan(names)[i] == step);
    }
}

} // verus!
