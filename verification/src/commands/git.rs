//! `git` output, summarized per subcommand.

use crate::commands::CommandModule;
use crate::filter::error_only::error_only;
use crate::filter::grouping::{add_distinct, distinct, grouping};
use crate::filter::stats::stats_summary;
use crate::filter::{ErrorOnly, GroupingByPattern, StatsExtraction, Strategy};
use crate::text::{
    before_first, before_first_exec, copy, count_nonblank, count_nonblank_exec, decimal,
    eq_str, from_chars, has_sub, is_prefix, join, join_str, lemma_views_push, lines, lines_of,
    lower, lowercase, push_decimal, push_str, split_whitespace, starts_with_str, strip_all_prefix,
    strip_all_prefix_exec, strip_prefix_str, to_chars, trim, trim_of, views, words,
};
use crate::{Context, ContextView, RtkError};
use vstd::prelude::*;

verus! {

/// Compression module for `git`.
pub struct GitModule {
    stats_strategy: StatsExtraction,
    error_strategy: ErrorOnly,
    grouping_strategy: GroupingByPattern,
}

// ---------------------------------------------------------------------
// Specification
// ---------------------------------------------------------------------

/// The first non-flag word of `parts` from index `i` on; `-C` and `-c`
/// take an argument.
pub open spec fn git_sub_from(parts: Seq<Seq<char>>, i: int) -> Option<Seq<char>>
    decreases parts.len() - i,
{
    if i < 1 || i >= parts.len() {
        None
    } else if is_prefix("-"@, parts[i]) {
        if parts[i] == "-C"@ || parts[i] == "-c"@ {
            if i + 2 >= parts.len() {
                None
            } else {
                git_sub_from(parts, i + 2)
            }
        } else {
            git_sub_from(parts, i + 1)
        }
    } else {
        Some(parts[i])
    }
}

/// The git subcommand of a command line.
pub open spec fn git_subcommand(command: Seq<char>) -> Option<Seq<char>> {
    let parts = words(command);
    if parts.len() == 0 || lowercase(parts[0]) != "git"@ {
        None
    } else {
        git_sub_from(parts, 1)
    }
}

/// The file named by a diff header line (`+++ x` or `--- x`), if it names one.
pub open spec fn diff_header_file(line: Seq<char>) -> Option<Seq<char>> {
    let rest = if is_prefix("+++ "@, line) {
        Some(line.skip("+++ "@.len() as int))
    } else if is_prefix("--- "@, line) {
        Some(line.skip("--- "@.len() as int))
    } else {
        None
    };
    match rest {
        Some(r) => if is_prefix("/dev/null"@, r) {
            None
        } else {
            Some(strip_all_prefix(strip_all_prefix(r, "a/"@), "b/"@))
        },
        None => None,
    }
}

/// A diff line that is a header (`+++ `/`--- `).
pub open spec fn is_diff_header(line: Seq<char>) -> bool {
    is_prefix("+++ "@, line) || is_prefix("--- "@, line)
}

/// The files named by the diff headers of `ls`, in order.
pub open spec fn diff_files(ls: Seq<Seq<char>>) -> Seq<Seq<char>>
    decreases ls.len(),
{
    if ls.len() == 0 {
        Seq::empty()
    } else {
        match diff_header_file(ls.last()) {
            Some(f) => diff_files(ls.drop_last()).push(f),
            None => diff_files(ls.drop_last()),
        }
    }
}

/// Number of added (`+`, not `++`) lines that are not headers.
pub open spec fn diff_added(ls: Seq<Seq<char>>) -> nat
    decreases ls.len(),
{
    if ls.len() == 0 {
        0
    } else {
        let l = ls.last();
        diff_added(ls.drop_last()) + if !is_diff_header(l) && is_prefix("+"@, l) && !is_prefix(
            "++"@,
            l,
        ) {
            1nat
        } else {
            0nat
        }
    }
}

/// Number of deleted (`-`, not `--`) lines that are not headers.
pub open spec fn diff_deleted(ls: Seq<Seq<char>>) -> nat
    decreases ls.len(),
{
    if ls.len() == 0 {
        0
    } else {
        let l = ls.last();
        diff_deleted(ls.drop_last()) + if !is_diff_header(l) && !(is_prefix("+"@, l) && !is_prefix(
            "++"@,
            l,
        )) && is_prefix("-"@, l) && !is_prefix("--"@, l) {
            1nat
        } else {
            0nat
        }
    }
}

/// The summary of a diff.
pub open spec fn git_diff_summary(output: Seq<char>) -> Seq<char> {
    if output.len() == 0 {
        "(no changes)"@
    } else {
        let ls = lines_of(output);
        let files = distinct(diff_files(ls));
        if files.len() == 0 {
            "(no changes)"@
        } else {
            let a = diff_added(ls);
            let d = diff_deleted(ls);
            join(
                seq![decimal(files.len()) + " files changed"@] + (if a > 0 {
                    seq![decimal(a) + " insertions(+)"@]
                } else {
                    Seq::empty()
                }) + (if d > 0 {
                    seq![decimal(d) + " deletions(-)"@]
                } else {
                    Seq::empty()
                }),
                ", "@,
            )
        }
    }
}

/// Number of lines starting with `commit `.
pub open spec fn commit_count(ls: Seq<Seq<char>>) -> nat
    decreases ls.len(),
{
    if ls.len() == 0 {
        0
    } else {
        commit_count(ls.drop_last()) + if is_prefix("commit "@, ls.last()) {
            1nat
        } else {
            0nat
        }
    }
}

/// The author named by an `Author: ` line, if any.
pub open spec fn author_of(line: Seq<char>) -> Option<Seq<char>> {
    if is_prefix("Author: "@, line) {
        let name = trim(before_first(line.skip("Author: "@.len() as int), '<'));
        if name.len() > 0 {
            Some(name)
        } else {
            None
        }
    } else {
        None
    }
}

/// The authors named in `ls`, in order.
pub open spec fn authors(ls: Seq<Seq<char>>) -> Seq<Seq<char>>
    decreases ls.len(),
{
    if ls.len() == 0 {
        Seq::empty()
    } else {
        match author_of(ls.last()) {
            Some(a) => authors(ls.drop_last()).push(a),
            None => authors(ls.drop_last()),
        }
    }
}

/// The summary of a log.
pub open spec fn git_log_summary(output: Seq<char>) -> Seq<char> {
    if output.len() == 0 {
        "(no commits)"@
    } else {
        let ls = lines_of(output);
        let c = commit_count(ls);
        if c == 0 {
            let n = count_nonblank(ls);
            if n > 0 {
                decimal(n) + " commits"@
            } else {
                "(no commits)"@
            }
        } else {
            let u = distinct(authors(ls)).len();
            if u > 0 {
                decimal(c) + " commits"@ + ", "@ + "by "@ + decimal(u) + " author"@ + (if u > 1 {
                    "s"@
                } else {
                    ""@
                })
            } else {
                decimal(c) + " commits"@
            }
        }
    }
}

/// A push progress line, dropped from the summary.
pub open spec fn is_push_noise(line: Seq<char>) -> bool {
    let low = lowercase(line);
    has_sub(low, "writing objects"@) || has_sub(low, "counting objects"@) || has_sub(
        low,
        "compressing objects"@,
    ) || is_prefix("remote: processing"@, low) || trim(line).len() == 0
}

/// The lines of `ls` that are not push noise.
pub open spec fn push_lines(ls: Seq<Seq<char>>) -> Seq<Seq<char>>
    decreases ls.len(),
{
    if ls.len() == 0 {
        Seq::empty()
    } else if is_push_noise(ls.last()) {
        push_lines(ls.drop_last())
    } else {
        push_lines(ls.drop_last()).push(ls.last())
    }
}

/// The summary of a successful push.
pub open spec fn git_push_summary(output: Seq<char>) -> Seq<char> {
    let kept = push_lines(lines_of(output));
    if kept.len() == 0 {
        "(pushed successfully)"@
    } else {
        join(kept, "\n"@)
    }
}

/// What the git module makes of `output` for subcommand `sub`.
/// The subcommand is compared in lowercase (`GIT STATUS` is `git status`).
pub open spec fn git_compress(output: Seq<char>, sub: Option<Seq<char>>, exit_code: i32) -> Seq<char> {
    match sub {
        Some(raw) => {
            let s = lowercase(raw);
            if s == "status"@ {
            stats_summary(output)
        } else if s == "diff"@ {
            git_diff_summary(output)
        } else if s == "log"@ {
            git_log_summary(output)
        } else if s == "add"@ || s == "commit"@ || s == "checkout"@ {
            if exit_code == 0 {
                Seq::empty()
            } else {
                error_only(output)
            }
        } else if s == "push"@ {
            if exit_code == 0 {
                git_push_summary(output)
            } else {
                error_only(output)
            }
        } else if s == "branch"@ {
            if output.len() == 0 {
                "(no branches)"@
            } else {
                grouping(output)
            }
        } else {
            stats_summary(output)
        }
        },
        None => stats_summary(output),
    }
}

/// The command line of a context, if any.
pub open spec fn context_command(context: ContextView) -> Option<Seq<char>> {
    context.command
}

/// The git subcommand of a context's command line.
pub open spec fn context_git_subcommand(context: ContextView) -> Option<Seq<char>> {
    match context_command(context) {
        Some(c) => git_subcommand(c),
        None => None,
    }
}

// ---------------------------------------------------------------------
// Executable
// ---------------------------------------------------------------------

impl GitModule {
    pub fn new() -> (r: Self) {
        Self {
            stats_strategy: StatsExtraction,
            error_strategy: ErrorOnly,
            grouping_strategy: GroupingByPattern,
        }
    }

    /// The git subcommand of a command line, skipping global flags.
    pub fn detect_subcommand(&self, command: &str) -> (r: Option<String>)
        ensures
            match r {
                Some(s) => git_subcommand(command@) == Some(s@),
                None => git_subcommand(command@) is None,
            },
    {
        let v = to_chars(command);
        let parts = split_whitespace(&v);
        let ghost pv = views(parts@);
        if parts.len() == 0 {
            return None;
        }
        let p0 = lower(&parts[0]);
        if !eq_str(&p0, "git") {
            return None;
        }
        let mut i: usize = 1;
        while i < parts.len()
            invariant
                1 <= i,
                pv == views(parts@),
                pv == words(command@),
                git_subcommand(command@) == git_sub_from(pv, i as int),
            decreases parts.len() - i,
        {
            let part = &parts[i];
            assert(pv[i as int] == part@);
            if starts_with_str(part, "-") {
                if eq_str(part, "-C") || eq_str(part, "-c") {
                    if parts.len() - i <= 2 {
                        return None;
                    }
                    i += 2;
                } else {
                    i += 1;
                }
            } else {
                return Some(from_chars(part));
            }
        }
        None
    }

    /// Summary of `git diff`: files changed, insertions and deletions.
    pub fn handle_diff(&self, output: &str) -> (r: String)
        ensures
            r@ == git_diff_summary(output@),
    {
        let v = to_chars(output);
        if v.len() == 0 {
            return String::from_str("(no changes)");
        }
        let ls = lines(&v);
        let ghost lv = views(ls@);
        let mut added: usize = 0;
        let mut deleted: usize = 0;
        let mut files: Vec<Vec<char>> = Vec::new();
        let mut i: usize = 0;
        assert(views(files@) =~= distinct(diff_files(lv.take(0))));
        while i < ls.len()
            invariant
                i <= ls.len(),
                lv == views(ls@),
                views(files@) == distinct(diff_files(lv.take(i as int))),
                added == diff_added(lv.take(i as int)),
                deleted == diff_deleted(lv.take(i as int)),
                added + deleted <= i,
            decreases ls.len() - i,
        {
            let line = &ls[i];
            assert(lv.take(i + 1).drop_last() == lv.take(i as int));
            assert(lv[i as int] == line@);
            let rest = match strip_prefix_str(line, "+++ ") {
                Some(r) => Some(r),
                None => strip_prefix_str(line, "--- "),
            };
            match rest {
                Some(r) => {
                    if !starts_with_str(&r, "/dev/null") {
                        let a = strip_all_prefix_exec(&r, "a/");
                        let b = strip_all_prefix_exec(&a, "b/");
                        add_distinct(&mut files, b, Ghost(diff_files(lv.take(i as int))));
                    }
                },
                None => {
                    if starts_with_str(line, "+") && !starts_with_str(line, "++") {
                        added += 1;
                    } else if starts_with_str(line, "-") && !starts_with_str(line, "--") {
                        deleted += 1;
                    }
                },
            }
            i += 1;
        }
        assert(lv.take(ls.len() as int) == lv);
        if files.len() == 0 {
            return String::from_str("(no changes)");
        }
        let mut parts: Vec<Vec<char>> = Vec::new();
        let mut p: Vec<char> = Vec::new();
        push_decimal(&mut p, files.len());
        push_str(&mut p, " files changed");
        parts.push(p);
        assert(views(parts@) == seq![p@]);
        if added > 0 {
            let mut q: Vec<char> = Vec::new();
            push_decimal(&mut q, added);
            push_str(&mut q, " insertions(+)");
            let ghost p0 = parts@;
            parts.push(q);
            proof {
                lemma_views_push(p0, q);
            }
        }
        if deleted > 0 {
            let mut q: Vec<char> = Vec::new();
            push_decimal(&mut q, deleted);
            push_str(&mut q, " deletions(-)");
            let ghost p0 = parts@;
            parts.push(q);
            proof {
                lemma_views_push(p0, q);
            }
        }
        assert(views(parts@) =~= seq![decimal(files.len() as nat) + " files changed"@] + (if added
            > 0 {
            seq![decimal(added as nat) + " insertions(+)"@]
        } else {
            Seq::empty()
        }) + (if deleted > 0 {
            seq![decimal(deleted as nat) + " deletions(-)"@]
        } else {
            Seq::empty()
        }));
        let j = join_str(&parts, ", ");
        from_chars(&j)
    }

    /// Summary of `git log`: commits and distinct authors.
    pub fn handle_log(&self, output: &str) -> (r: String)
        ensures
            r@ == git_log_summary(output@),
    {
        let v = to_chars(output);
        if v.len() == 0 {
            return String::from_str("(no commits)");
        }
        let ls = lines(&v);
        let ghost lv = views(ls@);
        let mut commits: usize = 0;
        let mut people: Vec<Vec<char>> = Vec::new();
        let mut i: usize = 0;
        assert(views(people@) =~= distinct(authors(lv.take(0))));
        while i < ls.len()
            invariant
                i <= ls.len(),
                lv == views(ls@),
                commits == commit_count(lv.take(i as int)),
                commits <= i,
                views(people@) == distinct(authors(lv.take(i as int))),
            decreases ls.len() - i,
        {
            let line = &ls[i];
            assert(lv.take(i + 1).drop_last() == lv.take(i as int));
            assert(lv[i as int] == line@);
            if starts_with_str(line, "commit ") {
                commits += 1;
            }
            match strip_prefix_str(line, "Author: ") {
                Some(rest) => {
                    let before = before_first_exec(&rest, '<');
                    let name = trim_of(&before);
                    if name.len() > 0 {
                        add_distinct(&mut people, name, Ghost(authors(lv.take(i as int))));
                    }
                },
                None => {},
            }
            i += 1;
        }
        assert(lv.take(ls.len() as int) == lv);
        if commits == 0 {
            let n = count_nonblank_exec(&ls);
            if n > 0 {
                let mut r: Vec<char> = Vec::new();
                push_decimal(&mut r, n);
                push_str(&mut r, " commits");
                return from_chars(&r);
            }
            return String::from_str("(no commits)");
        }
        let mut r: Vec<char> = Vec::new();
        push_decimal(&mut r, commits);
        push_str(&mut r, " commits");
        let u = people.len();
        if u > 0 {
            push_str(&mut r, ", ");
            push_str(&mut r, "by ");
            push_decimal(&mut r, u);
            push_str(&mut r, " author");
            if u > 1 {
                push_str(&mut r, "s");
            } else {
                push_str(&mut r, "");
            }
        }
        from_chars(&r)
    }

    /// Summary of a successful `git push`: the lines that are not progress.
    pub fn handle_push_success(&self, output: &str) -> (r: String)
        ensures
            r@ == git_push_summary(output@),
    {
        let ls = crate::text::str_lines(output);
        let ghost lv = views(ls@);
        let mut kept: Vec<Vec<char>> = Vec::new();
        let mut i: usize = 0;
        while i < ls.len()
            invariant
                i <= ls.len(),
                lv == views(ls@),
                lv == lines_of(output@),
                views(kept@) == push_lines(lv.take(i as int)),
            decreases ls.len() - i,
        {
            let line = &ls[i];
            assert(lv.take(i + 1).drop_last() == lv.take(i as int));
            assert(lv[i as int] == line@);
            let low = lower(line);
            let t = trim_of(line);
            let noise = crate::text::contains_str(&low, "writing objects")
                || crate::text::contains_str(&low, "counting objects")
                || crate::text::contains_str(&low, "compressing objects") || starts_with_str(
                &low,
                "remote: processing",
            ) || t.len() == 0;
            if !noise {
                let l = copy(line);
                let ghost k0 = kept@;
                kept.push(l);
                proof {
                    lemma_views_push(k0, l);
                }
            }
            i += 1;
        }
        assert(lv.take(ls.len() as int) == lv);
        if kept.len() == 0 {
            return String::from_str("(pushed successfully)");
        }
        let j = join_str(&kept, "\n");
        from_chars(&j)
    }

    /// Output of a subcommand that is silent on success.
    fn silent_unless_failed(&self, output: &str, exit_code: i32) -> (r: String)
        ensures
            r@ == if exit_code == 0 {
                Seq::empty()
            } else {
                error_only(output@)
            },
    {
        if exit_code == 0 {
            String::new()
        } else {
            crate::filter::error_only::error_only_exec(output)
        }
    }
}

impl CommandModule for GitModule {
    open spec fn spec_name(&self) -> Seq<char> {
        "git"@
    }

    open spec fn spec_strategy(&self) -> Seq<char> {
        "multi_strategy"@
    }

    open spec fn spec_compress(&self, output: Seq<char>, context: ContextView) -> Seq<char> {
        git_compress(output, context_git_subcommand(context), context.exit_code)
    }

    open spec fn accepts(&self, output: Seq<char>, context: ContextView) -> bool {
        true
    }


    fn name(&self) -> (r: &'static str) {
        "git"
    }

    fn strategy(&self) -> (r: &'static str) {
        "multi_strategy"
    }

    fn compress(&self, output: &str, context: &Context) -> (r: Result<String, RtkError>) {
        let sub = match &context.command {
            Some(cmd) => self.detect_subcommand(cmd.as_str()),
            None => None,
        };
        let r = match sub {
            Some(s) => {
                let sv = lower(&to_chars(s.as_str()));
                if eq_str(&sv, "status") {
                    crate::filter::stats::stats_summary_exec(output)
                } else if eq_str(&sv, "diff") {
                    self.handle_diff(output)
                } else if eq_str(&sv, "log") {
                    self.handle_log(output)
                } else if eq_str(&sv, "add") || eq_str(&sv, "commit") || eq_str(&sv, "checkout") {
                    self.silent_unless_failed(output, context.exit_code)
                } else if eq_str(&sv, "push") {
                    if context.exit_code == 0 {
                        self.handle_push_success(output)
                    } else {
                        crate::filter::error_only::error_only_exec(output)
                    }
                } else if eq_str(&sv, "branch") {
                    let ov = to_chars(output);
                    if ov.len() == 0 {
                        String::from_str("(no branches)")
                    } else {
                        crate::filter::grouping::grouping_exec(output)
                    }
                } else {
                    crate::filter::stats::stats_summary_exec(output)
                }
            },
            None => crate::filter::stats::stats_summary_exec(output),
        };
        Ok(r)
    }
}

} // verus!
