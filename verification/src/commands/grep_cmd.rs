//! `grep` output: passed through when short, otherwise match counts per file.

use crate::commands::CommandModule;
use crate::filter::error_only::first_n;
use crate::filter::grouping::{render_kvs, render_top, sort_desc, sort_exec, tally, tally_of};
use crate::text::{
    before_first, before_first_exec, contains_char, decimal, from_chars, has_sub, join, join_str,
    lemma_views_push, lines, lines_of, push_all, push_decimal, push_str, to_chars, trim, trim_of,
    utf8_len, utf8_len_below, views,
};
use crate::{Context, ContextView, RtkError};
use vstd::prelude::*;

verus! {

/// Compression module for `grep`.
pub struct GrepModule;

/// The file name of a `file:...` match line, if it names one (non-empty and
/// shorter than 256 bytes).
pub open spec fn grep_file(line: Seq<char>) -> Option<Seq<char>> {
    if has_sub(line, seq![':']) {
        let f = before_first(line, ':');
        if f.len() > 0 && utf8_len(f) < 256 {
            Some(f)
        } else {
            None
        }
    } else {
        None
    }
}

/// Whether a line counts as a match.
pub open spec fn is_grep_match(line: Seq<char>) -> bool {
    if has_sub(line, seq![':']) {
        grep_file(line) is Some
    } else {
        trim(line).len() > 0
    }
}

/// The file names of the match lines of `ls`, in order.
pub open spec fn grep_files(ls: Seq<Seq<char>>) -> Seq<Seq<char>>
    decreases ls.len(),
{
    if ls.len() == 0 {
        Seq::empty()
    } else {
        match grep_file(ls.last()) {
            Some(f) => grep_files(ls.drop_last()).push(f),
            None => grep_files(ls.drop_last()),
        }
    }
}

/// Number of match lines of `ls`.
pub open spec fn grep_total(ls: Seq<Seq<char>>) -> nat
    decreases ls.len(),
{
    if ls.len() == 0 {
        0
    } else {
        grep_total(ls.drop_last()) + if is_grep_match(ls.last()) {
            1nat
        } else {
            0nat
        }
    }
}

/// The match statistics of grep output.
pub open spec fn grep_stats(output: Seq<char>) -> Seq<char> {
    if output.len() == 0 {
        "(no matches)"@
    } else {
        let ls = lines_of(output);
        let total = grep_total(ls);
        if total == 0 {
            "(no matches)"@
        } else {
            let sorted = sort_desc(tally(grep_files(ls)));
            let head = decimal(total) + " matches"@;
            if sorted.len() == 0 {
                head
            } else {
                let n = sorted.len();
                head + " "@ + "in "@ + decimal(n) + " file"@ + (if n > 1 {
                    "s"@
                } else {
                    ""@
                }) + " "@ + "\n"@ + join(render_kvs(first_n(sorted, 5), ""@), "\n"@)
            }
        }
    }
}

/// What the grep module makes of `output`.
pub open spec fn grep_compress(output: Seq<char>) -> Seq<char> {
    if output.len() == 0 {
        "(no matches)"@
    } else if lines_of(output).len() <= 10 {
        output
    } else {
        grep_stats(output)
    }
}

impl GrepModule {
    pub fn new() -> (r: Self) {
        GrepModule
    }

    /// Match counts per file of grep output.
    pub fn extract_match_stats(&self, output: &str) -> (r: String)
        ensures
            r@ == grep_stats(output@),
    {
        let v = to_chars(output);
        if v.len() == 0 {
            return String::from_str("(no matches)");
        }
        let ls = lines(&v);
        let ghost lv = views(ls@);
        let mut files: Vec<Vec<char>> = Vec::new();
        let mut total: usize = 0;
        let mut i: usize = 0;
        while i < ls.len()
            invariant
                i <= ls.len(),
                lv == views(ls@),
                views(files@) == grep_files(lv.take(i as int)),
                total == grep_total(lv.take(i as int)),
                total <= i,
            decreases ls.len() - i,
        {
            let line = &ls[i];
            assert(lv.take(i + 1).drop_last() == lv.take(i as int));
            assert(lv[i as int] == line@);
            if contains_char(line, ':') {
                let f = before_first_exec(line, ':');
                if f.len() > 0 && utf8_len_below(&f, 256) {
                    let ghost f0 = files@;
                    files.push(f);
                    proof {
                        lemma_views_push(f0, f);
                    }
                    total += 1;
                }
            } else {
                let t = trim_of(line);
                if t.len() > 0 {
                    total += 1;
                }
            }
            i += 1;
        }
        assert(lv.take(ls.len() as int) == lv);
        if total == 0 {
            return String::from_str("(no matches)");
        }
        let (keys, counts) = tally_of(&files);
        let (sk, sc) = sort_exec(keys, counts);
        let mut r: Vec<char> = Vec::new();
        push_decimal(&mut r, total);
        push_str(&mut r, " matches");
        if sk.len() > 0 {
            let n = sk.len();
            push_str(&mut r, " ");
            push_str(&mut r, "in ");
            push_decimal(&mut r, n);
            push_str(&mut r, " file");
            if n > 1 {
                push_str(&mut r, "s");
            } else {
                push_str(&mut r, "");
            }
            push_str(&mut r, " ");
            push_str(&mut r, "\n");
            let top = render_top(&sk, &sc, 5, "");
            let j = join_str(&top, "\n");
            push_all(&mut r, &j);
        }
        from_chars(&r)
    }
}

impl CommandModule for GrepModule {
    open spec fn spec_name(&self) -> Seq<char> {
        "grep"@
    }

    open spec fn spec_strategy(&self) -> Seq<char> {
        "grouping_by_pattern"@
    }

    open spec fn spec_compress(&self, output: Seq<char>, context: ContextView) -> Seq<char> {
        grep_compress(output)
    }

    open spec fn accepts(&self, output: Seq<char>, context: ContextView) -> bool {
        true
    }


    fn name(&self) -> (r: &'static str) {
        "grep"
    }

    fn strategy(&self) -> (r: &'static str) {
        "grouping_by_pattern"
    }

    fn compress(&self, output: &str, context: &Context) -> (r: Result<String, RtkError>) {
        let v = to_chars(output);
        if v.len() == 0 {
            return Ok(String::from_str("(no matches)"));
        }
        let ls = lines(&v);
        if ls.len() <= 10 {
            return Ok(from_chars(&v));
        }
        Ok(self.extract_match_stats(output))
    }
}

} // verus!
