//! Keeping the ignore-file up to date: the line `*.backup` is appended to
//! its contents unless some line already is exactly that pattern, so that
//! running the updater any number of times leaves one occurrence.

use vstd::prelude::*;

verus! {

/// The ignore pattern the tool manages, as one line.
pub open spec fn backup_pattern() -> Seq<char> {
    seq!['*', '.', 'b', 'a', 'c', 'k', 'u', 'p']
}

/// A line with one trailing carriage return removed, as line splitting
/// does before a line feed.
pub open spec fn strip_cr(t: Seq<char>) -> Seq<char> {
    if t.len() > 0 && t.last() == '\r' {
        t.drop_last()
    } else {
        t
    }
}

/// The lines of `s` after the already-accumulated line `cur`: text is split
/// at every line feed, a carriage return before the line feed is dropped,
/// and a final line ending is optional.
pub open spec fn split_acc(s: Seq<char>, cur: Seq<char>) -> Seq<Seq<char>>
    decreases s.len(),
{
    if s.len() == 0 {
        if cur.len() == 0 {
            Seq::empty()
        } else {
            seq![strip_cr(cur)]
        }
    } else if s[0] == '\n' {
        seq![strip_cr(cur)] + split_acc(s.drop_first(), Seq::empty())
    } else {
        split_acc(s.drop_first(), cur.push(s[0]))
    }
}

/// The lines of a text.
pub open spec fn split_lines(s: Seq<char>) -> Seq<Seq<char>> {
    split_acc(s, Seq::empty())
}

/// How often `x` occurs among the lines.
pub open spec fn count_eq(lines: Seq<Seq<char>>, x: Seq<char>) -> int
    decreases lines.len(),
{
    if lines.len() == 0 {
        0
    } else {
        count_eq(lines.drop_last(), x) + if lines.last() == x {
            1int
        } else {
            0int
        }
    }
}

/// The ignore-file contents after the updater ran: unchanged when some
/// line already is the pattern; otherwise the pattern is appended as a
/// line of its own, on a fresh line.
pub open spec fn with_backup_pattern(s: Seq<char>) -> Seq<char> {
    if split_lines(s).contains(backup_pattern()) {
        s
    } else {
        (if s.len() > 0 && s.last() != '\n' {
            s + seq!['\n']
        } else {
            s
        }) + backup_pattern() + seq!['\n']
    }
}

/// Appending one line changes membership by exactly that line.
proof fn lemma_contains_push(a: Seq<Seq<char>>, x: Seq<char>, p: Seq<char>)
    ensures
        (a + seq![x]).contains(p) <==> (a.contains(p) || x == p),
{
    if a.contains(p) {
        let i = choose|i: int| 0 <= i < a.len() && a[i] == p;
        assert((a + seq![x])[i] == p);
    }
    if x == p {
        assert((a + seq![x])[a.len() as int] == p);
    }
    if (a + seq![x]).contains(p) {
        let i = choose|i: int| 0 <= i < (a + seq![x]).len() && (a + seq![x])[i] == p;
        if i < a.len() {
            assert(a[i] == p);
        }
    }
}

/// Occurrences sum over a concatenation of line lists.
proof fn lemma_count_concat(a: Seq<Seq<char>>, b: Seq<Seq<char>>, x: Seq<char>)
    ensures
        count_eq(a + b, x) == count_eq(a, x) + count_eq(b, x),
    decreases b.len(),
{
    if b.len() == 0 {
        assert(a + b =~= a);
    } else {
        assert((a + b).drop_last() =~= a + b.drop_last());
        lemma_count_concat(a, b.drop_last(), x);
    }
}

/// A line occurs at least once exactly when it occurs at all.
proof fn lemma_count_contains(lines: Seq<Seq<char>>, x: Seq<char>)
    ensures
        0 <= count_eq(lines, x),
        lines.contains(x) <==> count_eq(lines, x) >= 1,
    decreases lines.len(),
{
    if lines.len() == 0 {
    } else {
        lemma_count_contains(lines.drop_last(), x);
        assert(lines =~= lines.drop_last() + seq![lines.last()]);
        lemma_contains_push(lines.drop_last(), lines.last(), x);
    }
}

/// Splitting passes a line-feed boundary: the text before it contributes
/// its own lines, the rest starts fresh.
proof fn lemma_split_acc_concat_nl(a: Seq<char>, b: Seq<char>, cur: Seq<char>)
    requires
        a.len() > 0,
        a.last() == '\n',
    ensures
        split_acc(a + b, cur) == split_acc(a, cur) + split_acc(b, Seq::empty()),
    decreases a.len(),
{
    if a.len() == 1 {
        assert((a + b).drop_first() =~= b);
        assert(a.drop_first() =~= Seq::<char>::empty());
        assert(split_acc(Seq::<char>::empty(), Seq::<char>::empty()) =~= Seq::<Seq<char>>::empty());
        assert(split_acc(a + b, cur) =~= split_acc(a, cur) + split_acc(b, Seq::empty()));
    } else {
        assert((a + b)[0] == a[0]);
        assert((a + b).drop_first() =~= a.drop_first() + b);
        assert(a.drop_first().last() == a.last());
        if a[0] == '\n' {
            lemma_split_acc_concat_nl(a.drop_first(), b, Seq::empty());
            assert(split_acc(a + b, cur) =~= split_acc(a, cur) + split_acc(b, Seq::empty()));
        } else {
            lemma_split_acc_concat_nl(a.drop_first(), b, cur.push(a[0]));
            assert(split_acc(a + b, cur) =~= split_acc(a, cur) + split_acc(b, Seq::empty()));
        }
    }
}

/// A line-feed-free text followed by a line feed is one line.
proof fn lemma_split_one_line(line: Seq<char>, cur: Seq<char>)
    requires
        forall|j: int| 0 <= j < line.len() ==> line[j] != '\n',
    ensures
        split_acc(line + seq!['\n'], cur) == seq![strip_cr(cur + line)],
    decreases line.len(),
{
    if line.len() == 0 {
        assert(line + seq!['\n'] =~= seq!['\n']);
        assert((line + seq!['\n']).drop_first() =~= Seq::<char>::empty());
        assert(cur + line =~= cur);
        assert(split_acc(Seq::<char>::empty(), Seq::<char>::empty()) =~= Seq::<Seq<char>>::empty());
        assert(split_acc(line + seq!['\n'], cur) =~= seq![strip_cr(cur + line)]);
    } else {
        assert((line + seq!['\n'])[0] == line[0]);
        assert((line + seq!['\n']).drop_first() =~= line.drop_first() + seq!['\n']);
        lemma_split_one_line(line.drop_first(), cur.push(line[0]));
        assert(cur.push(line[0]) + line.drop_first() =~= cur + line);
    }
}

/// A final line ending is optional: appending one to a text that lacks it
/// splits into the same lines.
proof fn lemma_split_trailing_nl(s: Seq<char>, cur: Seq<char>)
    requires
        s.len() > 0,
        s.last() != '\n',
    ensures
        split_acc(s + seq!['\n'], cur) == split_acc(s, cur),
    decreases s.len(),
{
    if s.len() == 1 {
        assert((s + seq!['\n'])[0] == s[0]);
        assert((s + seq!['\n']).drop_first() =~= seq!['\n']);
        assert(cur.push(s[0]).len() > 0);
        assert(seq!['\n'].drop_first() =~= Seq::<char>::empty());
        assert(split_acc(Seq::<char>::empty(), Seq::<char>::empty()) =~= Seq::<Seq<char>>::empty());
        assert(split_acc(seq!['\n'], cur.push(s[0])) =~= seq![strip_cr(cur.push(s[0]))]);
        assert(s.drop_first() =~= Seq::<char>::empty());
        assert(split_acc(Seq::<char>::empty(), cur.push(s[0])) =~= seq![strip_cr(cur.push(s[0]))]);
        assert(split_acc(s + seq!['\n'], cur) =~= split_acc(s, cur));
    } else {
        assert((s + seq!['\n'])[0] == s[0]);
        assert((s + seq!['\n']).drop_first() =~= s.drop_first() + seq!['\n']);
        assert(s.drop_first().last() == s.last());
        if s[0] == '\n' {
            lemma_split_trailing_nl(s.drop_first(), Seq::empty());
        } else {
            lemma_split_trailing_nl(s.drop_first(), cur.push(s[0]));
        }
    }
}

/// What the updater does to the lines: nothing when the pattern already
/// occurs, else it appends the pattern as one more line.
pub proof fn lemma_with_backup_pattern_lines(s: Seq<char>)
    ensures
        split_lines(with_backup_pattern(s)) == (if split_lines(s).contains(backup_pattern()) {
            split_lines(s)
        } else {
            split_lines(s) + seq![backup_pattern()]
        }),
{
    if !split_lines(s).contains(backup_pattern()) {
        let base = if s.len() > 0 && s.last() != '\n' {
            s + seq!['\n']
        } else {
            s
        };
        assert(forall|j: int| 0 <= j < backup_pattern().len() ==> backup_pattern()[j] != '\n');
        assert(with_backup_pattern(s) =~= base + (backup_pattern() + seq!['\n']));
        if s.len() > 0 && s.last() != '\n' {
            lemma_split_trailing_nl(s, Seq::empty());
        }
        if base.len() == 0 {
            assert(base + (backup_pattern() + seq!['\n']) =~= backup_pattern() + seq!['\n']);
            lemma_split_one_line(backup_pattern(), Seq::empty());
            assert(Seq::empty() + backup_pattern() =~= backup_pattern());
            assert(strip_cr(backup_pattern()) =~= backup_pattern());
            assert(split_lines(s) =~= Seq::<Seq<char>>::empty());
            assert(split_lines(s) + seq![backup_pattern()] =~= seq![backup_pattern()]);
        } else {
            assert(base.last() == '\n');
            lemma_split_acc_concat_nl(base, backup_pattern() + seq!['\n'], Seq::empty());
            lemma_split_one_line(backup_pattern(), Seq::empty());
            assert(Seq::empty() + backup_pattern() =~= backup_pattern());
            assert(strip_cr(backup_pattern()) =~= backup_pattern());
        }
    }
}

/// Running the ignore-file updater twice gives what one run gives, and one
/// run leaves exactly one more occurrence of the pattern than the contents
/// had — so a file without the pattern ends with exactly one.
pub proof fn lemma_ignore_file_idempotent(s: Seq<char>)
    ensures
        with_backup_pattern(with_backup_pattern(s)) == with_backup_pattern(s),
        count_eq(split_lines(with_backup_pattern(s)), backup_pattern()) == count_eq(
            split_lines(s),
            backup_pattern(),
        ) + (if split_lines(s).contains(backup_pattern()) {
            0int
        } else {
            1int
        }),
        !split_lines(s).contains(backup_pattern()) ==> count_eq(
            split_lines(with_backup_pattern(s)),
            backup_pattern(),
        ) == 1,
{
    lemma_with_backup_pattern_lines(s);
    lemma_count_contains(split_lines(s), backup_pattern());
    if !split_lines(s).contains(backup_pattern()) {
        lemma_contains_push(split_lines(s), backup_pattern(), backup_pattern());
        lemma_count_concat(split_lines(s), seq![backup_pattern()], backup_pattern());
        assert(count_eq(seq![backup_pattern()], backup_pattern()) == 1) by {
            assert(seq![backup_pattern()].drop_last() =~= Seq::<Seq<char>>::empty());
            assert(count_eq(Seq::<Seq<char>>::empty(), backup_pattern()) == 0);
        }
        assert(split_lines(with_backup_pattern(s)).contains(backup_pattern()));
    }
}

/// Whether this line is exactly the managed pattern.
fn is_backup_pattern_line(line: &str) -> (r: bool)
    ensures
        r == (line@ == backup_pattern()),
{
    let r = crate::version::is_up_to_date(line, "*.backup");
    proof {
        reveal_strlit("*.backup");
        assert("*.backup"@ =~= backup_pattern());
    }
    r
}

/// Whether some line of the contents is exactly the managed pattern.
pub fn has_backup_line(contents: &str) -> (r: bool)
    ensures
        r == split_lines(contents@).contains(backup_pattern()),
{
    let ghost s = contents@;
    let n = contents.unicode_len();
    let mut start: usize = 0;
    let mut k: usize = 0;
    let ghost mut done: Seq<Seq<char>> = Seq::empty();
    let mut found = false;
    proof {
        assert(s.skip(0) =~= s);
        assert(s.subrange(0, 0) =~= Seq::<char>::empty());
        assert(done + split_acc(s, Seq::empty()) =~= split_acc(s, Seq::empty()));
    }
    while k < n
        invariant
            start <= k <= n,
            n == s.len(),
            s == contents@,
            split_lines(s) == done + split_acc(
                s.skip(k as int),
                s.subrange(start as int, k as int),
            ),
            found == done.contains(backup_pattern()),
        decreases n - k,
    {
        let ghost kk = k as int;
        proof {
            assert(s.skip(kk)[0] == s[kk]);
            assert(s.skip(kk).drop_first() =~= s.skip(kk + 1));
        }
        let c = contents.get_char(k);
        if c == '\n' {
            let line_end = if k > start && contents.get_char(k - 1) == '\r' {
                k - 1
            } else {
                k
            };
            let line = contents.substring_char(start, line_end);
            let is_pat = is_backup_pattern_line(line);
            proof {
                assert(strip_cr(s.subrange(start as int, kk)) =~= s.subrange(
                    start as int,
                    line_end as int,
                ));
                let emitted = s.subrange(start as int, line_end as int);
                lemma_contains_push(done, emitted, backup_pattern());
                done = done + seq![emitted];
                assert(s.subrange(kk + 1, kk + 1) =~= Seq::<char>::empty());
                assert(done + split_acc(s.skip(kk + 1), Seq::empty()) =~= (done.drop_last())
                    + (seq![emitted] + split_acc(s.skip(kk + 1), Seq::empty())));
            }
            found = found || is_pat;
            start = k + 1;
        } else {
            proof {
                assert(s.subrange(start as int, kk).push(s[kk]) =~= s.subrange(
                    start as int,
                    kk + 1,
                ));
            }
        }
        k = k + 1;
    }
    proof {
        assert(s.skip(n as int) =~= Seq::<char>::empty());
    }
    if start < n {
        let line_end = if contents.get_char(n - 1) == '\r' {
            n - 1
        } else {
            n
        };
        let line = contents.substring_char(start, line_end);
        let is_pat = is_backup_pattern_line(line);
        proof {
            assert(s.subrange(start as int, n as int).len() > 0);
            assert(strip_cr(s.subrange(start as int, n as int)) =~= s.subrange(
                start as int,
                line_end as int,
            ));
            let emitted = s.subrange(start as int, line_end as int);
            lemma_contains_push(done, emitted, backup_pattern());
            assert(split_lines(s) =~= done + seq![emitted]);
        }
        found || is_pat
    } else {
        proof {
            assert(s.subrange(start as int, n as int).len() == 0);
            assert(split_lines(s) =~= done);
        }
        found
    }
}

/// Brings the ignore-file contents up to date: appends the `*.backup`
/// pattern as a line of its own unless some line already is the pattern.
pub fn ensure_backups_in_gitignore(contents: &str) -> (r: String)
    ensures
        r@ == with_backup_pattern(contents@),
{
    let has = has_backup_line(contents);
    if has {
        return String::from_str(contents);
    }
    let mut out = String::from_str(contents);
    let n = contents.unicode_len();
    proof {
        reveal_strlit("\n");
        reveal_strlit("*.backup");
        assert("\n"@ =~= seq!['\n']);
        assert("*.backup"@ =~= backup_pattern());
    }
    if n > 0 && contents.get_char(n - 1) != '\n' {
        out.append("\n");
    }
    out.append("*.backup");
    out.append("\n");
    proof {
        assert(out@ =~= with_backup_pattern(contents@));
    }
    out
}

} // verus!
