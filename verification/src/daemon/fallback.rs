//! The fallback compression of output that no module handles: a cut to
//! about a thousand bytes, then its error lines when it has any.

use crate::text::{
    contains_str, copy, from_chars, has_sub, join, join_str, lemma_views_push, lines,
    lines_of, lower, lowercase, push_str, slice_of, to_chars, utf8_len, utf8_width, views,
};
use vstd::prelude::*;

verus! {

/// The first index from `i` on at which the text before it takes at least
/// `n` bytes (the length when there is none).
pub open spec fn first_at_least(s: Seq<char>, n: nat, i: nat) -> nat
    decreases s.len() - i,
{
    if i >= s.len() || utf8_len(s.take(i as int)) >= n {
        i
    } else {
        first_at_least(s, n, i + 1)
    }
}

/// The byte offset the fallback cuts at: the end of the last character that
/// starts within the first thousand bytes, less the marker's fifteen bytes.
pub open spec fn fallback_cut(s: Seq<char>) -> nat {
    let safe = utf8_len(s.take(first_at_least(s, 1000, 0) as int));
    if safe >= 15 {
        (safe - 15) as nat
    } else {
        0
    }
}

/// The cut falls between two characters (or the output needs no cut).
pub open spec fn fallback_cut_ok(s: Seq<char>) -> bool {
    utf8_len(s) <= 1000 || utf8_len(s.take(first_at_least(s, fallback_cut(s), 0) as int))
        == fallback_cut(s)
}

/// The output cut for the fallback, with a marker where it was cut.
pub open spec fn fallback_truncated(s: Seq<char>) -> Seq<char> {
    if utf8_len(s) > 1000 {
        s.take(first_at_least(s, fallback_cut(s), 0) as int) + "...\n[TRUNCATED]"@
    } else {
        s
    }
}

/// A line that reports an error, a failure, a warning or an exception.
pub open spec fn is_problem_line(l: Seq<char>) -> bool {
    has_sub(lowercase(l), "error"@) || has_sub(lowercase(l), "failed"@) || has_sub(
        lowercase(l),
        "warning"@,
    ) || has_sub(lowercase(l), "exception"@)
}

/// The problem lines of `ls`.
pub open spec fn problem_lines(ls: Seq<Seq<char>>) -> Seq<Seq<char>>
    decreases ls.len(),
{
    if ls.len() == 0 {
        Seq::empty()
    } else if is_problem_line(ls.last()) {
        problem_lines(ls.drop_last()).push(ls.last())
    } else {
        problem_lines(ls.drop_last())
    }
}

/// The problem lines of the output, if it has any.
pub open spec fn output_errors(s: Seq<char>) -> Option<Seq<char>> {
    let es = problem_lines(lines_of(s));
    if es.len() == 0 {
        None
    } else {
        Some(join(es, "\n"@))
    }
}

/// The fallback compression of an output.
pub open spec fn fallback_compressed(s: Seq<char>) -> Seq<char> {
    let t = fallback_truncated(s);
    match output_errors(t) {
        Some(e) => e,
        None => t,
    }
}

/// The first index at which the text before it takes at least `n` bytes,
/// with the byte length of that text.
fn first_at_least_exec(s: &Vec<char>, n: usize) -> (r: (usize, usize))
    requires
        n <= 1000,
    ensures
        r.0 == first_at_least(s@, n as nat, 0),
        r.1 == utf8_len(s@.take(r.0 as int)),
        r.0 <= s.len(),
        r.1 <= n + 3,
{
    let mut i: usize = 0;
    let mut bytes: usize = 0;
    while i < s.len() && bytes < n
        invariant
            i <= s.len(),
            bytes == utf8_len(s@.take(i as int)),
            first_at_least(s@, n as nat, 0) == first_at_least(s@, n as nat, i as nat),
            i > 0 ==> bytes < n + 4,
            i == 0 ==> bytes == 0,
            n <= 1000,
        decreases s.len() - i,
    {
        assert(s@.take(i + 1).drop_last() == s@.take(i as int));
        let u = s[i] as u32;
        let w: usize = if u < 0x80 {
            1
        } else if u < 0x800 {
            2
        } else if u < 0x10000 {
            3
        } else {
            4
        };
        assert(w == utf8_width(s@[i as int]));
        bytes = bytes + w;
        i += 1;
    }
    (i, bytes)
}

/// Whether the output takes more than a thousand bytes.
fn longer_than_limit(s: &Vec<char>) -> (r: bool)
    ensures
        r == (utf8_len(s@) > 1000),
{
    !crate::text::utf8_len_below(s, 1001)
}

/// The error lines of a text, if it has any.
pub fn extract_errors(output: &str) -> (r: Option<String>)
    ensures
        crate::text::opt_view(r) == output_errors(output@),
{
    let v = to_chars(output);
    let ls = lines(&v);
    let ghost lv = views(ls@);
    let mut es: Vec<Vec<char>> = Vec::new();
    let mut i: usize = 0;
    assert(views(es@) =~= problem_lines(lv.take(0)));
    while i < ls.len()
        invariant
            i <= ls.len(),
            lv == views(ls@),
            views(es@) == problem_lines(lv.take(i as int)),
        decreases ls.len() - i,
    {
        assert(lv.take(i + 1).drop_last() == lv.take(i as int));
        assert(lv[i as int] == ls@[i as int]@);
        let low = lower(&ls[i]);
        if contains_str(&low, "error") || contains_str(&low, "failed") || contains_str(
            &low,
            "warning",
        ) || contains_str(&low, "exception") {
            let c = copy(&ls[i]);
            let ghost e0 = es@;
            es.push(c);
            proof {
                lemma_views_push(e0, c);
            }
        }
        i += 1;
    }
    assert(lv.take(ls.len() as int) == lv);
    if es.len() == 0 {
        None
    } else {
        let j = join_str(&es, "\n");
        Some(from_chars(&j))
    }
}

/// The fallback compression of an output.
pub fn fallback_text(output: &str) -> (r: String)
    requires
        fallback_cut_ok(output@),
    ensures
        r@ == fallback_compressed(output@),
{
    let v = to_chars(output);
    let t = if longer_than_limit(&v) {
        let (_, safe) = first_at_least_exec(&v, 1000);
        let cut: usize = if safe >= 15 {
            safe - 15
        } else {
            0
        };
        let (j, _) = first_at_least_exec(&v, cut);
        let mut t = slice_of(&v, 0, j);
        push_str(&mut t, "...\n[TRUNCATED]");
        from_chars(&t)
    } else {
        from_chars(&v)
    };
    match extract_errors(t.as_str()) {
        Some(e) => e,
        None => t,
    }
}

/// The fallback compression of an output, or `None` when the cut would fall
/// inside a character.
pub fn fallback_text_checked(output: &str) -> (r: Option<String>)
    ensures
        r is Some <==> fallback_cut_ok(output@),
        r matches Some(s) ==> s@ == fallback_compressed(output@),
{
    let v = to_chars(output);
    if longer_than_limit(&v) {
        let (_, safe) = first_at_least_exec(&v, 1000);
        let cut: usize = if safe >= 15 {
            safe - 15
        } else {
            0
        };
        let (_, at) = first_at_least_exec(&v, cut);
        if at != cut {
            return None;
        }
    }
    Some(fallback_text(output))
}

} // verus!
