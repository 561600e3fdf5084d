//! Keep only the lines that report errors.

use super::Strategy;
use crate::text::{
    contains_str, copy, eq_str, from_chars, has_sub, is_prefix, join, join_str, lemma_views_push,
    lines, lines_of, lower, lowercase, split_whitespace, starts_with_str, to_chars, trim,
    trim_of, views, words,
};
use crate::RtkError;
use vstd::prelude::*;

verus! {

/// Keeps the lines that look like errors, at most fifty of them.
pub struct ErrorOnly;

/// A word of a lowercased line that marks an error on its own.
pub open spec fn is_error_word(w: Seq<char>) -> bool {
    w == "error"@ || is_prefix("error:"@, w) || w == "failed"@
}

/// Whether some word of `low` marks an error.
pub open spec fn has_error_word(low: Seq<char>) -> bool {
    exists|k: int| 0 <= k < words(low).len() && is_error_word(#[trigger] words(low)[k])
}

/// Whether a line reports an error: it matches an error pattern (case
/// insensitively) and none of the "no errors" phrases.
pub open spec fn is_error_line(line: Seq<char>) -> bool {
    let low = lowercase(line);
    let t = trim(low);
    let has_error = is_prefix("error"@, t) || is_prefix("fatal"@, t) || has_sub(low, "error:"@)
        || has_sub(low, "error]"@) || has_sub(low, "\"error\""@) || has_sub(low, "failed:"@)
        || has_sub(low, "exception:"@) || has_sub(low, "panic"@) || has_error_word(low);
    let false_positive = has_sub(low, "no errors"@) || has_sub(low, "0 errors"@) || has_sub(
        low,
        "no error"@,
    ) || has_sub(low, "without error"@);
    has_error && !false_positive
}

/// The error lines among `ls`, in order.
pub open spec fn error_lines(ls: Seq<Seq<char>>) -> Seq<Seq<char>>
    decreases ls.len(),
{
    if ls.len() == 0 {
        Seq::empty()
    } else if is_error_line(ls.last()) {
        error_lines(ls.drop_last()).push(ls.last())
    } else {
        error_lines(ls.drop_last())
    }
}

/// The first `n` elements of `s` (all of them when there are fewer).
pub open spec fn first_n<T>(s: Seq<T>, n: nat) -> Seq<T> {
    if s.len() > n {
        s.take(n as int)
    } else {
        s
    }
}

/// What the error-only strategy makes of `input`.
pub open spec fn error_only(input: Seq<char>) -> Seq<char> {
    if input.len() == 0 {
        "(empty)"@
    } else {
        let errs = error_lines(lines_of(input));
        if errs.len() == 0 {
            "(no errors)"@
        } else {
            join(first_n(errs, 50), "\n"@)
        }
    }
}

/// Whether some word of `low` marks an error.
fn has_error_word_exec(low: &Vec<char>) -> (r: bool)
    ensures
        r == has_error_word(low@),
{
    let ws = split_whitespace(low);
    let mut i: usize = 0;
    while i < ws.len()
        invariant
            i <= ws.len(),
            views(ws@) == words(low@),
            forall|k: int| 0 <= k < i ==> !is_error_word(#[trigger] words(low@)[k]),
        decreases ws.len() - i,
    {
        let w = &ws[i];
        assert(w@ == words(low@)[i as int]);
        if eq_str(w, "error") || starts_with_str(w, "error:") || eq_str(w, "failed") {
            return true;
        }
        i += 1;
    }
    false
}

/// Whether `line` reports an error.
pub fn is_error_line_exec(line: &Vec<char>) -> (r: bool)
    ensures
        r == is_error_line(line@),
{
    let low = lower(line);
    let t = trim_of(&low);
    let has_error = starts_with_str(&t, "error") || starts_with_str(&t, "fatal") || contains_str(
        &low,
        "error:",
    ) || contains_str(&low, "error]") || contains_str(&low, "\"error\"") || contains_str(
        &low,
        "failed:",
    ) || contains_str(&low, "exception:") || contains_str(&low, "panic")
        || has_error_word_exec(&low);
    let false_positive = contains_str(&low, "no errors") || contains_str(&low, "0 errors")
        || contains_str(&low, "no error") || contains_str(&low, "without error");
    has_error && !false_positive
}

/// The error lines of `input`, at most fifty, joined by newlines.
pub fn error_only_exec(input: &str) -> (r: String)
    ensures
        r@ == error_only(input@),
{
    let v = to_chars(input);
    if v.len() == 0 {
        return String::from_str("(empty)");
    }
    let ls = lines(&v);
    let ghost lv = views(ls@);
    let mut errs: Vec<Vec<char>> = Vec::new();
    let mut i: usize = 0;
    while i < ls.len()
        invariant
            i <= ls.len(),
            lv == views(ls@),
            views(errs@) == error_lines(lv.take(i as int)),
        decreases ls.len() - i,
    {
        assert(lv.take(i + 1).drop_last() == lv.take(i as int));
        if is_error_line_exec(&ls[i]) {
            let l = copy(&ls[i]);
            let ghost e0 = errs@;
            errs.push(l);
            proof {
                lemma_views_push(e0, l);
            }
        }
        i += 1;
    }
    assert(lv.take(ls.len() as int) == lv);
    if errs.len() == 0 {
        return String::from_str("(no errors)");
    }
    if errs.len() > 50 {
        let ghost ev = views(errs@);
        errs.truncate(50);
        assert(views(errs@) == ev.take(50));
    }
    let j = join_str(&errs, "\n");
    from_chars(&j)
}

impl Strategy for ErrorOnly {
    open spec fn spec_name(&self) -> Seq<char> {
        "error_only"@
    }

    open spec fn spec_compress(&self, input: Seq<char>) -> Seq<char> {
        error_only(input)
    }

    fn name(&self) -> (r: &'static str) {
        "error_only"
    }

    fn compress(&self, input: &str) -> (r: Result<String, RtkError>) {
        Ok(error_only_exec(input))
    }
}

} // verus!
