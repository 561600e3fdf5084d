//! `diff` output: passed through when short, otherwise a change summary.

use crate::commands::CommandModule;
use crate::filter::error_only::{error_only, error_only_exec};
use crate::filter::grouping::{add_distinct, distinct};
use crate::filter::ErrorOnly;
use crate::text::{
    contains_str, copy, decimal, from_chars, has_sub, is_prefix, join, join_str, lemma_views_push,
    lines, lines_of, push_all, push_decimal, push_str, split_whitespace, starts_with_str,
    strip_all_prefix, strip_all_prefix_exec, to_chars, views, words,
};
use crate::{Context, ContextView, RtkError};
use vstd::prelude::*;

verus! {

/// Compression module for `diff`.
pub struct DiffModule {
    error_strategy: ErrorOnly,
}

/// `a` sorts strictly before `b` (code point order, as `String` orders).
pub open spec fn lex_lt(a: Seq<char>, b: Seq<char>) -> bool
    decreases a.len(),
{
    if a.len() == 0 {
        b.len() > 0
    } else if b.len() == 0 {
        false
    } else if a[0] != b[0] {
        a[0] < b[0]
    } else {
        lex_lt(a.drop_first(), b.drop_first())
    }
}

/// `x` inserted into `s` after every element that does not sort after it.
pub open spec fn insert_lex(s: Seq<Seq<char>>, x: Seq<char>) -> Seq<Seq<char>>
    decreases s.len(),
{
    if s.len() == 0 {
        seq![x]
    } else if !lex_lt(x, s.last()) {
        s.push(x)
    } else {
        insert_lex(s.drop_last(), x).push(s.last())
    }
}

/// `s` sorted in ascending code point order.
pub open spec fn sort_lex(s: Seq<Seq<char>>) -> Seq<Seq<char>>
    decreases s.len(),
{
    if s.len() == 0 {
        Seq::empty()
    } else {
        insert_lex(sort_lex(s.drop_last()), s.last())
    }
}

pub proof fn lemma_insert_lex_at(s: Seq<Seq<char>>, x: Seq<char>, pos: int)
    requires
        0 <= pos <= s.len(),
        forall|j: int| pos <= j < s.len() ==> lex_lt(x, s[j]),
        pos > 0 ==> !lex_lt(x, s[pos - 1]),
    ensures
        insert_lex(s, x) == s.take(pos) + seq![x] + s.skip(pos),
    decreases s.len(),
{
    if s.len() == 0 {
        assert(s.take(pos) + seq![x] + s.skip(pos) =~= seq![x]);
    } else if !lex_lt(x, s.last()) {
        assert(pos == s.len());
        assert(s.take(pos) + seq![x] + s.skip(pos) =~= s.push(x));
    } else {
        let p = s.drop_last();
        lemma_insert_lex_at(p, x, pos);
        assert(p.take(pos) + seq![x] + p.skip(pos) + seq![s.last()] =~= s.take(pos) + seq![x]
            + s.skip(pos));
    }
}

/// Whether `a` sorts strictly before `b`.
pub fn lex_less(a: &Vec<char>, b: &Vec<char>) -> (r: bool)
    ensures
        r == lex_lt(a@, b@),
{
    let mut i: usize = 0;
    assert(a@.skip(0) == a@);
    assert(b@.skip(0) == b@);
    while i < a.len() && i < b.len() && a[i] == b[i]
        invariant
            i <= a.len(),
            i <= b.len(),
            lex_lt(a@, b@) == lex_lt(a@.skip(i as int), b@.skip(i as int)),
        decreases a.len() - i,
    {
        assert(a@.skip(i as int).drop_first() == a@.skip(i + 1));
        assert(b@.skip(i as int).drop_first() == b@.skip(i + 1));
        i += 1;
    }
    if i == a.len() {
        i < b.len()
    } else if i == b.len() {
        false
    } else {
        a[i] < b[i]
    }
}

/// `v` sorted in ascending code point order.
pub fn sort_lex_exec(v: &Vec<Vec<char>>) -> (r: Vec<Vec<char>>)
    ensures
        views(r@) == sort_lex(views(v@)),
{
    let ghost vv = views(v@);
    let mut s: Vec<Vec<char>> = Vec::new();
    let mut i: usize = 0;
    assert(views(s@) =~= sort_lex(vv.take(0)));
    while i < v.len()
        invariant
            i <= v.len(),
            vv == views(v@),
            views(s@) == sort_lex(vv.take(i as int)),
        decreases v.len() - i,
    {
        assert(vv.take(i + 1).drop_last() == vv.take(i as int));
        let x = copy(&v[i]);
        assert(x@ == vv[i as int]);
        let ghost sv = views(s@);
        let mut pos = s.len();
        while pos > 0 && lex_less(&x, &s[pos - 1])
            invariant
                pos <= s.len(),
                sv == views(s@),
                forall|j: int| pos <= j < sv.len() ==> lex_lt(x@, sv[j]),
            decreases pos,
        {
            assert(sv[pos - 1] == s@[pos - 1]@);
            pos -= 1;
        }
        proof {
            if pos > 0 {
                assert(sv[pos - 1] == s@[pos - 1]@);
            }
            lemma_insert_lex_at(sv, x@, pos as int);
        }
        s.insert(pos, x);
        assert(views(s@) =~= sv.take(pos as int) + seq![x@] + sv.skip(pos as int));
        i += 1;
    }
    assert(vv.take(v.len() as int) == vv);
    s
}

/// The file named by a `+++`/`---` header line (its second word), if any.
pub open spec fn diff_cmd_file(line: Seq<char>) -> Option<Seq<char>> {
    let ws = words(line);
    if ws.len() > 1 && !is_prefix("/dev/null"@, ws[1]) {
        Some(strip_all_prefix(strip_all_prefix(ws[1], "a/"@), "b/"@))
    } else {
        None
    }
}

/// A header line (`+++` or `---`).
pub open spec fn is_diff_cmd_header(line: Seq<char>) -> bool {
    is_prefix("+++"@, line) || is_prefix("---"@, line)
}

/// What a scan of diff output has found so far.
pub struct DiffScan {
    pub files: Seq<Seq<char>>,
    pub added: nat,
    pub deleted: nat,
}

/// The scan after one more line.
pub open spec fn diff_step(st: DiffScan, line: Seq<char>) -> DiffScan {
    if is_diff_cmd_header(line) {
        match diff_cmd_file(line) {
            Some(f) => DiffScan { files: st.files.push(f), ..st },
            None => st,
        }
    } else if is_prefix("+"@, line) && !is_prefix("++"@, line) {
        DiffScan { added: st.added + 1, ..st }
    } else if is_prefix("-"@, line) && !is_prefix("--"@, line) {
        DiffScan { deleted: st.deleted + 1, ..st }
    } else {
        st
    }
}

/// The scan of a list of lines.
pub open spec fn diff_scan(ls: Seq<Seq<char>>) -> DiffScan
    decreases ls.len(),
{
    if ls.len() == 0 {
        DiffScan { files: Seq::empty(), added: 0, deleted: 0 }
    } else {
        diff_step(diff_scan(ls.drop_last()), ls.last())
    }
}

/// Whether some line starts with `index ` or `diff --git`.
pub open spec fn has_index_line(ls: Seq<Seq<char>>) -> bool {
    exists|k: int|
        0 <= k < ls.len() && (is_prefix("index "@, #[trigger] ls[k]) || is_prefix(
            "diff --git"@,
            ls[k],
        ))
}

/// `"s"` when `n > 1`.
pub open spec fn plural(n: nat) -> Seq<char> {
    if n > 1 {
        "s"@
    } else {
        ""@
    }
}

/// The statistics of diff output.
pub open spec fn diff_stats(output: Seq<char>) -> Seq<char> {
    if output.len() == 0 {
        "(no changes)"@
    } else {
        let ls = lines_of(output);
        let st = diff_scan(ls);
        let files = distinct(st.files);
        let n = files.len();
        if n == 0 {
            if !has_index_line(ls) {
                output
            } else {
                "(no changes)"@
            }
        } else {
            join(
                seq![decimal(n) + " file"@ + plural(n) + " changed"@] + (if st.added > 0 {
                    seq![decimal(st.added) + " insertion"@ + plural(st.added)]
                } else {
                    Seq::empty()
                }) + (if st.deleted > 0 {
                    seq![decimal(st.deleted) + " deletion"@ + plural(st.deleted)]
                } else {
                    Seq::empty()
                }) + (if n <= 10 {
                    seq!["\n"@ + join(sort_lex(files), "\n"@)]
                } else {
                    Seq::empty()
                }),
                ", "@,
            )
        }
    }
}

/// What the diff module makes of `output`.
pub open spec fn diff_compress(output: Seq<char>, exit_code: i32) -> Seq<char> {
    if exit_code != 0 && !has_sub(output, "diff --git"@) && exit_code >= 2 {
        error_only(output)
    } else if output.len() == 0 {
        "(no differences)"@
    } else if lines_of(output).len() <= 20 {
        output
    } else {
        diff_stats(output)
    }
}

fn plural_str(n: usize) -> (r: &'static str)
    ensures
        r@ == plural(n as nat),
{
    if n > 1 {
        "s"
    } else {
        ""
    }
}

fn count_part(n: usize, label: &str) -> (r: Vec<char>)
    ensures
        r@ == decimal(n as nat) + label@ + plural(n as nat),
{
    let mut p: Vec<char> = Vec::new();
    push_decimal(&mut p, n);
    push_str(&mut p, label);
    push_str(&mut p, plural_str(n));
    p
}

impl DiffModule {
    pub fn new() -> (r: Self) {
        Self { error_strategy: ErrorOnly }
    }

    /// A summary of diff output: files, insertions, deletions.
    pub fn extract_diff_stats(&self, output: &str) -> (r: String)
        ensures
            r@ == diff_stats(output@),
    {
        let v = to_chars(output);
        if v.len() == 0 {
            return String::from_str("(no changes)");
        }
        let ls = lines(&v);
        let ghost lv = views(ls@);
        let mut files: Vec<Vec<char>> = Vec::new();
        let mut added: usize = 0;
        let mut deleted: usize = 0;
        let mut has_index = false;
        let mut i: usize = 0;
        assert(views(files@) =~= distinct(Seq::<Seq<char>>::empty()));
        while i < ls.len()
            invariant
                i <= ls.len(),
                lv == views(ls@),
                views(files@) == distinct(diff_scan(lv.take(i as int)).files),
                added == diff_scan(lv.take(i as int)).added,
                deleted == diff_scan(lv.take(i as int)).deleted,
                added + deleted <= i,
                has_index == has_index_line(lv.take(i as int)),
            decreases ls.len() - i,
        {
            let line = &ls[i];
            assert(lv.take(i + 1).drop_last() == lv.take(i as int));
            assert(lv[i as int] == line@);
            let ghost st0 = diff_scan(lv.take(i as int));
            if starts_with_str(line, "+++") || starts_with_str(line, "---") {
                let ws = split_whitespace(line);
                if ws.len() > 1 {
                    assert(views(ws@)[1] == ws@[1]@);
                    if !starts_with_str(&ws[1], "/dev/null") {
                        let a = strip_all_prefix_exec(&ws[1], "a/");
                        let b = strip_all_prefix_exec(&a, "b/");
                        add_distinct(&mut files, b, Ghost(st0.files));
                    }
                }
            } else if starts_with_str(line, "+") && !starts_with_str(line, "++") {
                added += 1;
            } else if starts_with_str(line, "-") && !starts_with_str(line, "--") {
                deleted += 1;
            }
            let idx = starts_with_str(line, "index ") || starts_with_str(line, "diff --git");
            proof {
                let p = lv.take(i as int);
                let q = lv.take(i + 1);
                if has_index_line(p) {
                    let k = choose|k: int|
                        0 <= k < p.len() && (is_prefix("index "@, #[trigger] p[k]) || is_prefix(
                            "diff --git"@,
                            p[k],
                        ));
                    assert(q[k] == p[k]);
                }
                if idx {
                    assert(q[i as int] == line@);
                }
                if has_index_line(q) && !idx {
                    let k = choose|k: int|
                        0 <= k < q.len() && (is_prefix("index "@, #[trigger] q[k]) || is_prefix(
                            "diff --git"@,
                            q[k],
                        ));
                    assert(k != i);
                    assert(p[k] == q[k]);
                }
            }
            has_index = has_index || idx;
            i += 1;
        }
        assert(lv.take(ls.len() as int) == lv);
        let n = files.len();
        if n == 0 {
            if !has_index {
                return from_chars(&v);
            }
            return String::from_str("(no changes)");
        }
        let mut parts: Vec<Vec<char>> = Vec::new();
        let mut p = count_part(n, " file");
        push_str(&mut p, " changed");
        parts.push(p);
        assert(views(parts@) =~= seq![p@]);
        if added > 0 {
            let q = count_part(added, " insertion");
            let ghost p0 = parts@;
            parts.push(q);
            proof {
                lemma_views_push(p0, q);
            }
        }
        if deleted > 0 {
            let q = count_part(deleted, " deletion");
            let ghost p0 = parts@;
            parts.push(q);
            proof {
                lemma_views_push(p0, q);
            }
        }
        if n <= 10 {
            let sorted = sort_lex_exec(&files);
            let j = join_str(&sorted, "\n");
            let mut q = to_chars("\n");
            push_all(&mut q, &j);
            let ghost p0 = parts@;
            parts.push(q);
            proof {
                lemma_views_push(p0, q);
            }
        }
        let ghost st = diff_scan(lv);
        assert(views(parts@) =~= seq![decimal(n as nat) + " file"@ + plural(n as nat) + " changed"@]
            + (if st.added > 0 {
            seq![decimal(st.added) + " insertion"@ + plural(st.added)]
        } else {
            Seq::empty()
        }) + (if st.deleted > 0 {
            seq![decimal(st.deleted) + " deletion"@ + plural(st.deleted)]
        } else {
            Seq::empty()
        }) + (if n <= 10 {
            seq!["\n"@ + join(sort_lex(distinct(st.files)), "\n"@)]
        } else {
            Seq::empty()
        }));
        let j = join_str(&parts, ", ");
        from_chars(&j)
    }
}

impl CommandModule for DiffModule {
    open spec fn spec_name(&self) -> Seq<char> {
        "diff"@
    }

    open spec fn spec_strategy(&self) -> Seq<char> {
        "stats_extraction"@
    }

    open spec fn spec_compress(&self, output: Seq<char>, context: ContextView) -> Seq<char> {
        diff_compress(output, context.exit_code)
    }

    open spec fn accepts(&self, output: Seq<char>, context: ContextView) -> bool {
        true
    }


    fn name(&self) -> (r: &'static str) {
        "diff"
    }

    fn strategy(&self) -> (r: &'static str) {
        "stats_extraction"
    }

    fn compress(&self, output: &str, context: &Context) -> (r: Result<String, RtkError>) {
        let v = to_chars(output);
        if context.exit_code != 0 && !contains_str(&v, "diff --git") {
            if context.exit_code >= 2 {
                return Ok(error_only_exec(output));
            }
        }
        if v.len() == 0 {
            return Ok(String::from_str("(no differences)"));
        }
        let ls = lines(&v);
        if ls.len() <= 20 {
            return Ok(from_chars(&v));
        }
        Ok(self.extract_diff_stats(output))
    }
}

} // verus!
