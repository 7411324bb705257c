//! Version-constraint strings: stripping constraint prefixes, comparing
//! versions, and building caret constraints.

use vstd::prelude::*;

verus! {

/// `s` with every leading occurrence of `c` removed.
pub open spec fn drop_leading(s: Seq<char>, c: char) -> Seq<char>
    decreases s.len(),
{
    if s.len() > 0 && s[0] == c {
        drop_leading(s.drop_first(), c)
    } else {
        s
    }
}

/// A version constraint with its leading `^`, `~`, `=` and space characters
/// removed, each kind in turn: the anchor used to compare versions.
pub open spec fn stripped(s: Seq<char>) -> Seq<char> {
    drop_leading(drop_leading(drop_leading(drop_leading(s, '^'), '~'), '='), ' ')
}

/// `v` prefixed with a single caret: the constraint written for an updated
/// dependency.
pub open spec fn caret_of(v: Seq<char>) -> Seq<char> {
    seq!['^'] + v
}

/// A string that starts with none of the constraint operators is its own
/// anchor.
pub proof fn lemma_stripped_plain(s: Seq<char>)
    requires
        s.len() > 0,
        s[0] != '^',
        s[0] != '~',
        s[0] != '=',
        s[0] != ' ',
    ensures
        stripped(s) == s,
{
    assert(drop_leading(s, '^') == s);
    assert(drop_leading(s, '~') == s);
    assert(drop_leading(s, '=') == s);
    assert(drop_leading(s, ' ') == s);
}

/// Prefixing a caret does not change the anchor: the anchor of the
/// constraint written for an updated entry is the anchor of its latest
/// version.
pub proof fn lemma_stripped_caret(v: Seq<char>)
    ensures
        stripped(caret_of(v)) == stripped(v),
{
    assert(caret_of(v)[0] == '^');
    assert(caret_of(v).drop_first() =~= v);
    assert(drop_leading(caret_of(v), '^') == drop_leading(v, '^'));
}

/// First index at or after `start` whose character is not `c`.
fn skip_leading(s: &str, start: usize, n: usize, c: char) -> (r: usize)
    requires
        n == s@.len(),
        start <= n,
    ensures
        start <= r <= n,
        drop_leading(s@.subrange(start as int, n as int), c) == s@.subrange(r as int, n as int),
{
    let mut i: usize = start;
    while i < n && s.get_char(i) == c
        invariant
            n == s@.len(),
            start <= i <= n,
            drop_leading(s@.subrange(start as int, n as int), c) == drop_leading(
                s@.subrange(i as int, n as int),
                c,
            ),
        decreases n - i,
    {
        proof {
            assert(s@.subrange(i as int, n as int).drop_first() =~= s@.subrange(
                i as int + 1,
                n as int,
            ));
        }
        i = i + 1;
    }
    i
}

/// Strips the constraint operators `^`, `~`, `=` and leading spaces from a
/// version constraint, leaving the bare version used for comparison.
pub fn extract_version(version_str: &str) -> (r: String)
    ensures
        r@ == stripped(version_str@),
{
    let n = version_str.unicode_len();
    proof {
        assert(version_str@.subrange(0, n as int) =~= version_str@);
    }
    let i1 = skip_leading(version_str, 0, n, '^');
    let i2 = skip_leading(version_str, i1, n, '~');
    let i3 = skip_leading(version_str, i2, n, '=');
    let i4 = skip_leading(version_str, i3, n, ' ');
    let tail = version_str.substring_char(i4, n);
    String::from_str(tail)
}

/// A dependency is up to date exactly when its anchored current version and
/// the latest version are the same string.
pub fn is_up_to_date(current: &str, latest: &str) -> (r: bool)
    ensures
        r == (current@ == latest@),
{
    let n1 = current.unicode_len();
    let n2 = latest.unicode_len();
    if n1 != n2 {
        proof {
            assert(current@ != latest@) by {
                if current@ == latest@ {
                    assert(current@.len() == latest@.len());
                }
            }
        }
        return false;
    }
    let mut i: usize = 0;
    while i < n1
        invariant
            n1 == current@.len(),
            n1 == latest@.len(),
            i <= n1,
            forall|j: int| 0 <= j < i ==> current@[j] == latest@[j],
        decreases n1 - i,
    {
        if current.get_char(i) != latest.get_char(i) {
            return false;
        }
        i = i + 1;
    }
    proof {
        assert(current@ =~= latest@);
    }
    true
}

/// Writes the constraint chosen for an updated dependency: a caret followed
/// by the new version.
pub fn caret_constraint(version: &str) -> (r: String)
    ensures
        r@ == caret_of(version@),
{
    let mut s = String::from_str("^");
    proof {
        reveal_strlit("^");
        assert("^"@ =~= seq!['^']);
    }
    s.append(version);
    s
}

} // verus!
