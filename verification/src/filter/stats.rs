//! Summarize `git status`-style output as counts per change kind.

use super::Strategy;
use crate::text::{
    contains_str, decimal, from_chars, has_sub, is_prefix, join, join_str, lemma_views_push, lines,
    lines_of, push_decimal, push_str, starts_with_str, to_chars, trim, trim_of, views,
};
use crate::RtkError;
use vstd::prelude::*;

verus! {

/// Counts modified, added, deleted and untracked entries of a status listing.
pub struct StatsExtraction;

/// The kind of a status line: 1 modified, 2 added, 3 deleted, 4 untracked,
/// 0 none of these.
pub open spec fn status_kind(line: Seq<char>) -> int {
    let t = trim(line);
    if is_prefix("M "@, t) || is_prefix(" M "@, t) {
        1
    } else if is_prefix("A "@, t) || is_prefix(" A "@, t) {
        2
    } else if is_prefix("D "@, t) || is_prefix(" D "@, t) {
        3
    } else if is_prefix("?? "@, t) {
        4
    } else {
        0
    }
}

/// Number of lines of `ls` of kind `k`.
pub open spec fn count_kind(ls: Seq<Seq<char>>, k: int) -> nat
    decreases ls.len(),
{
    if ls.len() == 0 {
        0
    } else {
        count_kind(ls.drop_last(), k) + if status_kind(ls.last()) == k {
            1nat
        } else {
            0nat
        }
    }
}

/// `"<n><label>"` as a one-element list when `n > 0`, else nothing.
pub open spec fn count_part(n: nat, label: Seq<char>) -> Seq<Seq<char>> {
    if n > 0 {
        seq![decimal(n) + label]
    } else {
        Seq::empty()
    }
}

/// What the stats strategy makes of `input`.
pub open spec fn stats_summary(input: Seq<char>) -> Seq<char> {
    if input.len() == 0 {
        "(empty)"@
    } else {
        let ls = lines_of(input);
        let m = count_kind(ls, 1);
        let a = count_kind(ls, 2);
        let d = count_kind(ls, 3);
        let u = count_kind(ls, 4);
        let total = m + a + d + u;
        if total == 0 {
            if has_sub(input, "nothing to commit"@) || has_sub(input, "working tree clean"@) {
                "(clean)"@
            } else {
                input
            }
        } else {
            join(
                seq![decimal(total) + " files changed"@] + count_part(m, " modified"@) + count_part(
                    a,
                    " added"@,
                ) + count_part(d, " deleted"@) + count_part(u, " untracked"@),
                ", "@,
            )
        }
    }
}

/// The kind of a status line.
pub fn status_kind_exec(line: &Vec<char>) -> (r: u8)
    ensures
        r as int == status_kind(line@),
{
    let t = trim_of(line);
    if starts_with_str(&t, "M ") || starts_with_str(&t, " M ") {
        1
    } else if starts_with_str(&t, "A ") || starts_with_str(&t, " A ") {
        2
    } else if starts_with_str(&t, "D ") || starts_with_str(&t, " D ") {
        3
    } else if starts_with_str(&t, "?? ") {
        4
    } else {
        0
    }
}

/// Appends `"<n><label>"` to `parts` when `n > 0`.
pub fn push_count_part(parts: &mut Vec<Vec<char>>, n: usize, label: &str)
    ensures
        views(final(parts)@) == views(old(parts)@) + count_part(n as nat, label@),
{
    if n > 0 {
        let mut p: Vec<char> = Vec::new();
        push_decimal(&mut p, n);
        push_str(&mut p, label);
        let ghost p0 = parts@;
        parts.push(p);
        proof {
            lemma_views_push(p0, p);
        }
    } else {
        assert(views(parts@) + Seq::<Seq<char>>::empty() == views(parts@));
    }
}

/// The status summary of `input`.
pub fn stats_summary_exec(input: &str) -> (r: String)
    ensures
        r@ == stats_summary(input@),
{
    let v = to_chars(input);
    if v.len() == 0 {
        return String::from_str("(empty)");
    }
    let ls = lines(&v);
    let ghost lv = views(ls@);
    let mut m: usize = 0;
    let mut a: usize = 0;
    let mut d: usize = 0;
    let mut u: usize = 0;
    let mut i: usize = 0;
    while i < ls.len()
        invariant
            i <= ls.len(),
            lv == views(ls@),
            m == count_kind(lv.take(i as int), 1),
            a == count_kind(lv.take(i as int), 2),
            d == count_kind(lv.take(i as int), 3),
            u == count_kind(lv.take(i as int), 4),
            m + a + d + u <= i,
        decreases ls.len() - i,
    {
        assert(lv.take(i + 1).drop_last() == lv.take(i as int));
        let k = status_kind_exec(&ls[i]);
        if k == 1 {
            m += 1;
        } else if k == 2 {
            a += 1;
        } else if k == 3 {
            d += 1;
        } else if k == 4 {
            u += 1;
        }
        i += 1;
    }
    assert(lv.take(ls.len() as int) == lv);
    let total = m + a + d + u;
    if total == 0 {
        if contains_str(&v, "nothing to commit") || contains_str(&v, "working tree clean") {
            return String::from_str("(clean)");
        }
        return from_chars(&v);
    }
    let mut first: Vec<char> = Vec::new();
    push_decimal(&mut first, total);
    push_str(&mut first, " files changed");
    let mut parts: Vec<Vec<char>> = Vec::new();
    parts.push(first);
    assert(views(parts@) == seq![first@]);
    push_count_part(&mut parts, m, " modified");
    push_count_part(&mut parts, a, " added");
    push_count_part(&mut parts, d, " deleted");
    push_count_part(&mut parts, u, " untracked");
    let j = join_str(&parts, ", ");
    from_chars(&j)
}

impl Strategy for StatsExtraction {
    open spec fn spec_name(&self) -> Seq<char> {
        "stats_extraction"@
    }

    open spec fn spec_compress(&self, input: Seq<char>) -> Seq<char> {
        stats_summary(input)
    }

    fn name(&self) -> (r: &'static str) {
        "stats_extraction"
    }

    fn compress(&self, input: &str) -> (r: Result<String, RtkError>) {
        Ok(stats_summary_exec(input))
    }
}

} // verus!
