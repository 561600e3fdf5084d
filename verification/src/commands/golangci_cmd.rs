//! `golangci-lint` output: issues counted per linter and per file.

use crate::commands::git::context_command;
use crate::commands::CommandModule;
use crate::filter::error_only::first_n;
use crate::filter::grouping::{entries, grouping, grouping_exec, sort_desc, sort_exec, tally, tally_of, Group};
use crate::filter::GroupingByPattern;
use crate::text::{
    after_last_char, after_last_char_exec, alphanumeric, before_first, before_first_exec,
    char_is_alphanumeric, contains_str, copy, decimal, ends_with_str, eq_chars, eq_str, find_last,
    from_chars, has_sub, is_prefix, is_suffix, join, join_str, lemma_views_push, lines, lines_of, lower,
    lowercase, pairs_view, push_all, push_decimal, push_str, rfind, slice_of, split_whitespace,
    starts_with_str, str_lines, take_pieces, to_chars, trim, trim_of, utf8_len, utf8_len_below,
    views, words,
};
use crate::{Context, ContextView, RtkError};
use vstd::prelude::*;

verus! {

/// Compression module for `golangci-lint`.
pub struct GolangciModule {
    grouping_strategy: GroupingByPattern,
}

// ---------------------------------------------------------------------
// Specification
// ---------------------------------------------------------------------

/// A character allowed in a linter name.
pub open spec fn is_linter_char(c: char) -> bool {
    alphanumeric(c) || c == '-' || c == '_'
}

/// The linter that reported an issue line: the name in its final
/// parentheses, else one named in the message, else `other`.
pub open spec fn linter_of(t: Seq<char>) -> Seq<char> {
    if has_sub(t, "("@) && is_suffix(")"@, t) {
        match find_last(t, "("@) {
            Some(start) => if start + 1 <= t.len() - 1 {
                let x = t.subrange(start + 1, t.len() - 1);
                if x.len() > 0 && forall|i: int| 0 <= i < x.len() ==> is_linter_char(#[trigger] x[i]) {
                    x
                } else {
                    "other"@
                }
            } else {
                "other"@
            },
            None => "other"@,
        }
    } else if has_sub(t, "errcheck"@) {
        "errcheck"@
    } else if has_sub(t, "govet"@) {
        "govet"@
    } else if has_sub(t, "staticcheck"@) {
        "staticcheck"@
    } else if has_sub(t, "ineffassign"@) {
        "ineffassign"@
    } else {
        "other"@
    }
}

/// An issue counted as an error rather than a warning.
pub open spec fn is_error_issue(t: Seq<char>) -> bool {
    has_sub(lowercase(t), "error"@) || has_sub(lowercase(t), "fatal"@)
}

/// What a scan of lint output has found so far.
pub struct LintScan {
    /// Each issue as its linter and its line.
    pub issues: Seq<(Seq<char>, Seq<char>)>,
    /// The file of each issue.
    pub files: Seq<Seq<char>>,
    pub errors: nat,
    pub warnings: nat,
}

/// The scan after one more line: a line naming a `.go:` position is an issue.
pub open spec fn lint_step(st: LintScan, line: Seq<char>) -> LintScan {
    let t = trim(line);
    if t.len() > 0 && has_sub(t, ".go:"@) {
        LintScan {
            issues: st.issues.push((linter_of(t), t)),
            files: st.files.push(before_first(t, ':')),
            errors: if is_error_issue(t) {
                st.errors + 1
            } else {
                st.errors
            },
            warnings: if is_error_issue(t) {
                st.warnings
            } else {
                st.warnings + 1
            },
        }
    } else {
        st
    }
}

/// The scan over `ls`.
pub open spec fn lint_scan(ls: Seq<Seq<char>>) -> LintScan
    decreases ls.len(),
{
    if ls.len() == 0 {
        LintScan { issues: Seq::empty(), files: Seq::empty(), errors: 0, warnings: 0 }
    } else {
        lint_step(lint_scan(ls.drop_last()), ls.last())
    }
}

/// The linter of each issue.
pub open spec fn issue_linters(issues: Seq<(Seq<char>, Seq<char>)>) -> Seq<Seq<char>> {
    Seq::new(issues.len(), |i: int| issues[i].0)
}

/// The lines of the issues reported by linter `l`, in order.
pub open spec fn lines_for(issues: Seq<(Seq<char>, Seq<char>)>, l: Seq<char>) -> Seq<Seq<char>>
    decreases issues.len(),
{
    if issues.len() == 0 {
        Seq::empty()
    } else if issues.last().0 == l {
        lines_for(issues.drop_last(), l).push(issues.last().1)
    } else {
        lines_for(issues.drop_last(), l)
    }
}

/// A line cut to 97 characters and `...` when it takes more than 100 bytes.
pub open spec fn shorten(x: Seq<char>) -> Seq<char> {
    if utf8_len(x) > 100 {
        first_n(x, 97) + "..."@
    } else {
        x
    }
}

/// The shown examples of one linter: its first three issues.
pub open spec fn example_lines(ls: Seq<Seq<char>>) -> Seq<Seq<char>> {
    Seq::new(first_n(ls, 3).len(), |i: int| "    "@ + shorten(first_n(ls, 3)[i]))
}

/// The block of one linter: its count, its first three issues, and how many
/// more there are.
pub open spec fn linter_block(issues: Seq<(Seq<char>, Seq<char>)>, g: Group) -> Seq<Seq<char>> {
    seq!["  "@ + g.0 + ": "@ + decimal(g.1) + " issue(s)"@] + example_lines(lines_for(issues, g.0))
        + if g.1 > 3 {
        seq!["    ... and "@ + decimal((g.1 - 3) as nat) + " more"@]
    } else {
        Seq::empty()
    }
}

/// The blocks of the groups `gs`, in order.
pub open spec fn linter_blocks(issues: Seq<(Seq<char>, Seq<char>)>, gs: Seq<Group>) -> Seq<Seq<char>>
    decreases gs.len(),
{
    if gs.len() == 0 {
        Seq::empty()
    } else {
        linter_blocks(issues, gs.drop_last()) + linter_block(issues, gs.last())
    }
}

/// The line of one file group, named by the file's last path component.
pub open spec fn file_line(g: Group) -> Seq<char> {
    "  "@ + after_last_char(g.0, '/') + ": "@ + decimal(g.1) + " issue(s)"@
}

/// The per-file part, shown when the issues span more than one file.
pub open spec fn file_part(files: Seq<Seq<char>>) -> Seq<Seq<char>> {
    let gs = sort_desc(tally(files));
    if tally(files).len() > 1 {
        seq![Seq::empty(), "By file:"@] + Seq::new(
            first_n(gs, 10).len(),
            |i: int| file_line(first_n(gs, 10)[i]),
        ) + if gs.len() > 10 {
            seq!["  ... and "@ + decimal((gs.len() - 10) as nat) + " more files"@]
        } else {
            Seq::empty()
        }
    } else {
        Seq::empty()
    }
}

/// The summary lines of a scan with issues.
pub open spec fn lint_report(st: LintScan) -> Seq<Seq<char>> {
    seq![
        "Total: "@ + decimal(st.issues.len()) + " issue(s) ("@ + decimal(st.errors) + " errors, "@
            + decimal(st.warnings) + " warnings)"@,
    ] + seq![Seq::empty(), "By linter:"@] + linter_blocks(
        st.issues,
        first_n(sort_desc(tally(issue_linters(st.issues))), 10),
    ) + file_part(st.files)
}

/// Summary of `golangci-lint run` output.
pub open spec fn golangci_run(output: Seq<char>) -> Seq<char> {
    if trim(output).len() == 0 {
        "(no issues)"@
    } else {
        let st = lint_scan(lines_of(output));
        if st.issues.len() == 0 {
            if has_sub(lowercase(output), "0 issues"@) || has_sub(output, "no issues"@) {
                "(no issues)"@
            } else {
                grouping(output)
            }
        } else {
            join(lint_report(st), "\n"@)
        }
    }
}

/// The lines of a linter listing that name a linter.
pub open spec fn listed_linters(ls: Seq<Seq<char>>) -> Seq<Seq<char>>
    decreases ls.len(),
{
    if ls.len() == 0 {
        Seq::empty()
    } else if trim(ls.last()).len() > 0 && !is_prefix(" "@, ls.last()) {
        listed_linters(ls.drop_last()).push(ls.last())
    } else {
        listed_linters(ls.drop_last())
    }
}

/// Summary of `golangci-lint linters` output.
pub open spec fn golangci_linters(output: Seq<char>) -> Seq<char> {
    let ls = listed_linters(lines_of(output));
    if ls.len() == 0 {
        "(no linters configured)"@
    } else {
        join(
            seq![decimal(ls.len()) + " linters available"@] + Seq::new(
                first_n(ls, 10).len(),
                |i: int| "  "@ + trim(first_n(ls, 10)[i]),
            ) + if ls.len() > 10 {
                seq!["  ... and "@ + decimal((ls.len() - 10) as nat) + " more"@]
            } else {
                Seq::empty()
            },
            "\n"@,
        )
    }
}

/// The subcommand of a `golangci-lint` command line.
pub open spec fn golangci_subcommand(command: Seq<char>) -> Option<Seq<char>> {
    let p = words(command);
    if p.len() >= 2 && p[0] == "golangci-lint"@ {
        Some(p[1])
    } else {
        None
    }
}

/// What the golangci-lint module makes of `output` in `context`.
pub open spec fn golangci_compress(output: Seq<char>, context: ContextView) -> Seq<char> {
    let sub = match context_command(context) {
        Some(c) => golangci_subcommand(c),
        None => None,
    };
    if sub == Some("linters"@) {
        golangci_linters(output)
    } else {
        golangci_run(output)
    }
}

// ---------------------------------------------------------------------
// Executable
// ---------------------------------------------------------------------

fn linter_of_exec(t: &Vec<char>) -> (r: Vec<char>)
    ensures
        r@ == linter_of(t@),
{
    let op = to_chars("(");
    if contains_str(t, "(") && ends_with_str(t, ")") {
        match rfind(t, &op) {
            Some(start) => {
                if t.len() >= 1 && start < t.len() - 1 {
                    let x = slice_of(t, start + 1, t.len() - 1);
                    let mut ok = x.len() > 0;
                    let mut i: usize = 0;
                    while i < x.len()
                        invariant
                            i <= x.len(),
                            ok == (x.len() > 0 && forall|j: int|
                                0 <= j < i ==> is_linter_char(#[trigger] x@[j])),
                        decreases x.len() - i,
                    {
                        let c = x[i];
                        if !(char_is_alphanumeric(c) || c == '-' || c == '_') {
                            ok = false;
                        }
                        i += 1;
                    }
                    if ok {
                        return x;
                    }
                    return to_chars("other");
                }
                to_chars("other")
            },
            None => to_chars("other"),
        }
    } else if contains_str(t, "errcheck") {
        to_chars("errcheck")
    } else if contains_str(t, "govet") {
        to_chars("govet")
    } else if contains_str(t, "staticcheck") {
        to_chars("staticcheck")
    } else if contains_str(t, "ineffassign") {
        to_chars("ineffassign")
    } else {
        to_chars("other")
    }
}

fn lines_for_exec(linters: &Vec<Vec<char>>, lines: &Vec<Vec<char>>, l: &Vec<char>) -> (r: Vec<
    Vec<char>,
>)
    requires
        linters.len() == lines.len(),
    ensures
        views(r@) == lines_for(pairs_view(linters@, lines@), l@),
{
    let ghost iv = pairs_view(linters@, lines@);
    let mut out: Vec<Vec<char>> = Vec::new();
    let mut i: usize = 0;
    assert(views(out@) =~= lines_for(iv.take(0), l@));
    while i < linters.len()
        invariant
            i <= linters.len(),
            linters.len() == lines.len(),
            iv == pairs_view(linters@, lines@),
            views(out@) == lines_for(iv.take(i as int), l@),
        decreases linters.len() - i,
    {
        assert(iv.take(i + 1).drop_last() == iv.take(i as int));
        assert(iv[i as int] == (linters@[i as int]@, lines@[i as int]@));
        if eq_chars(&linters[i], l) {
            let c = copy(&lines[i]);
            let ghost o0 = out@;
            out.push(c);
            proof {
                lemma_views_push(o0, c);
            }
        }
        i += 1;
    }
    assert(iv.take(linters.len() as int) == iv);
    out
}

fn shorten_exec(x: &Vec<char>) -> (r: Vec<char>)
    ensures
        r@ == shorten(x@),
{
    if !utf8_len_below(x, 101) {
        let n: usize = if x.len() > 97 {
            97
        } else {
            x.len()
        };
        let mut r = slice_of(x, 0, n);
        assert(r@ == first_n(x@, 97));
        push_str(&mut r, "...");
        r
    } else {
        copy(x)
    }
}

/// Appends the block of one linter group.
fn push_linter_block(
    parts: &mut Vec<Vec<char>>,
    linters: &Vec<Vec<char>>,
    lines: &Vec<Vec<char>>,
    name: &Vec<char>,
    count: usize,
)
    requires
        linters.len() == lines.len(),
    ensures
        views(final(parts)@) == views(old(parts)@) + linter_block(
            pairs_view(linters@, lines@),
            (name@, count as nat),
        ),
{
    let ghost base = views(parts@);
    let mut h = to_chars("  ");
    push_all(&mut h, name);
    push_str(&mut h, ": ");
    push_decimal(&mut h, count);
    push_str(&mut h, " issue(s)");
    let ghost p0 = parts@;
    parts.push(h);
    proof {
        lemma_views_push(p0, h);
    }
    let matching = lines_for_exec(linters, lines, name);
    let shown = take_pieces(&matching, 3);
    let ghost ex = example_lines(views(matching@));
    let ghost head = views(parts@);
    let mut i: usize = 0;
    while i < shown.len()
        invariant
            i <= shown.len(),
            views(shown@) == first_n(views(matching@), 3),
            ex == example_lines(views(matching@)),
            views(parts@) == head + ex.take(i as int),
        decreases shown.len() - i,
    {
        let mut l = to_chars("    ");
        let s = shorten_exec(&shown[i]);
        push_all(&mut l, &s);
        assert(views(shown@)[i as int] == shown@[i as int]@);
        let ghost q0 = parts@;
        parts.push(l);
        proof {
            lemma_views_push(q0, l);
        }
        assert(ex.take(i + 1) == ex.take(i as int).push(ex[i as int]));
        i += 1;
    }
    assert(ex.take(shown.len() as int) == ex);
    if count > 3 {
        let mut m = to_chars("    ... and ");
        push_decimal(&mut m, count - 3);
        push_str(&mut m, " more");
        let ghost q1 = parts@;
        parts.push(m);
        proof {
            lemma_views_push(q1, m);
        }
    }
    assert(views(parts@) =~= base + linter_block(pairs_view(linters@, lines@), (name@, count as nat)));
}

/// Appends the per-file part.
fn push_file_part(parts: &mut Vec<Vec<char>>, files: &Vec<Vec<char>>)
    ensures
        views(final(parts)@) == views(old(parts)@) + file_part(views(files@)),
{
    let ghost base = views(parts@);
    let (keys, counts) = tally_of(files);
    if keys.len() <= 1 {
        assert(base + Seq::<Seq<char>>::empty() == base);
        return;
    }
    let nkeys = keys.len();
    let (sk, sc) = sort_exec(keys, counts);
    let ghost gs = sort_desc(tally(views(files@)));
    assert(entries(sk@, sc@) == gs);
    let e: Vec<char> = Vec::new();
    let ghost p0 = parts@;
    parts.push(e);
    proof {
        lemma_views_push(p0, e);
    }
    let h = to_chars("By file:");
    let ghost p1 = parts@;
    parts.push(h);
    proof {
        lemma_views_push(p1, h);
    }
    let ghost head = base + seq![Seq::<char>::empty(), "By file:"@];
    assert(views(parts@) =~= head);
    let ghost top = first_n(gs, 10);
    let m: usize = if sk.len() > 10 {
        10
    } else {
        sk.len()
    };
    let mut i: usize = 0;
    while i < m
        invariant
            m <= sk.len(),
            sk.len() == sc.len(),
            gs == entries(sk@, sc@),
            top == first_n(gs, 10),
            top.len() == m,
            i <= m,
            views(parts@) == head + Seq::new(i as nat, |j: int| file_line(top[j])),
        decreases m - i,
    {
        let mut l = to_chars("  ");
        let f = after_last_char_exec(&sk[i], '/');
        push_all(&mut l, &f);
        push_str(&mut l, ": ");
        push_decimal(&mut l, sc[i]);
        push_str(&mut l, " issue(s)");
        assert(top[i as int] == (sk@[i as int]@, sc@[i as int] as nat));
        let ghost q0 = parts@;
        parts.push(l);
        proof {
            lemma_views_push(q0, l);
        }
        assert(views(parts@) =~= head + Seq::new((i + 1) as nat, |j: int| file_line(top[j])));
        i += 1;
    }
    if sk.len() > 10 {
        let mut l = to_chars("  ... and ");
        push_decimal(&mut l, sk.len() - 10);
        push_str(&mut l, " more files");
        let ghost q1 = parts@;
        parts.push(l);
        proof {
            lemma_views_push(q1, l);
        }
    }
    assert(views(parts@) =~= base + file_part(views(files@)));
}

/// One line of the lint scan.
fn lint_step_exec(
    linters: &mut Vec<Vec<char>>,
    issue_lines: &mut Vec<Vec<char>>,
    files: &mut Vec<Vec<char>>,
    errors: &mut usize,
    warnings: &mut usize,
    line: &Vec<char>,
)
    requires
        old(linters).len() == old(issue_lines).len(),
        *old(errors) + *old(warnings) < usize::MAX,
    ensures
        final(linters).len() == final(issue_lines).len(),
        *final(errors) + *final(warnings) <= *old(errors) + *old(warnings) + 1,
        (LintScan {
            issues: pairs_view(final(linters)@, final(issue_lines)@),
            files: views(final(files)@),
            errors: *final(errors) as nat,
            warnings: *final(warnings) as nat,
        }) == lint_step(
            LintScan {
                issues: pairs_view(old(linters)@, old(issue_lines)@),
                files: views(old(files)@),
                errors: *old(errors) as nat,
                warnings: *old(warnings) as nat,
            },
            line@,
        ),
{
    let t = trim_of(line);
    if t.len() > 0 && contains_str(&t, ".go:") {
        let ghost iv0 = pairs_view(linters@, issue_lines@);
        let lt = linter_of_exec(&t);
        linters.push(lt);
        let tc = copy(&t);
        issue_lines.push(tc);
        assert(pairs_view(linters@, issue_lines@) =~= iv0.push((linter_of(t@), t@)));
        let f = before_first_exec(&t, ':');
        let ghost f0 = files@;
        files.push(f);
        proof {
            lemma_views_push(f0, f);
        }
        let low = lower(&t);
        if contains_str(&low, "error") || contains_str(&low, "fatal") {
            *errors = *errors + 1;
        } else {
            *warnings = *warnings + 1;
        }
    }
}

/// The issues, their files and the error and warning counts of `ls`.
#[verifier::spinoff_prover]
fn lint_scan_exec(ls: &Vec<Vec<char>>) -> (r: (Vec<Vec<char>>, Vec<Vec<char>>, Vec<Vec<char>>, usize, usize))
    ensures
        r.0.len() == r.1.len(),
        (LintScan {
            issues: pairs_view(r.0@, r.1@),
            files: views(r.2@),
            errors: r.3 as nat,
            warnings: r.4 as nat,
        }) == lint_scan(views(ls@)),
{
    let ghost lv = views(ls@);
    let mut linters: Vec<Vec<char>> = Vec::new();
    let mut issue_lines: Vec<Vec<char>> = Vec::new();
    let mut files: Vec<Vec<char>> = Vec::new();
    let mut errors: usize = 0;
    let mut warnings: usize = 0;
    let mut i: usize = 0;
    assert(pairs_view(linters@, issue_lines@) =~= Seq::<(Seq<char>, Seq<char>)>::empty());
    assert(views(files@) =~= Seq::<Seq<char>>::empty());
    assert(lv.take(0) =~= Seq::<Seq<char>>::empty());
    assert(lint_scan(lv.take(0)) == LintScan {
        issues: Seq::empty(),
        files: Seq::empty(),
        errors: 0,
        warnings: 0,
    });
    while i < ls.len()
        invariant
            i <= ls.len(),
            lv == views(ls@),
            linters.len() == issue_lines.len(),
            errors + warnings <= i,
            (LintScan {
                issues: pairs_view(linters@, issue_lines@),
                files: views(files@),
                errors: errors as nat,
                warnings: warnings as nat,
            }) == lint_scan(lv.take(i as int)),
        decreases ls.len() - i,
    {
        assert(lv.take(i + 1).drop_last() == lv.take(i as int));
        assert(lv[i as int] == ls@[i as int]@);
        lint_step_exec(&mut linters, &mut issue_lines, &mut files, &mut errors, &mut warnings, &ls[i]);
        i += 1;
    }
    assert(lv.take(ls.len() as int) == lv);
    (linters, issue_lines, files, errors, warnings)
}

/// Appends the blocks of the ten linters with the most issues.
fn push_linter_groups(parts: &mut Vec<Vec<char>>, linters: &Vec<Vec<char>>, lines: &Vec<Vec<char>>)
    requires
        linters.len() == lines.len(),
    ensures
        views(final(parts)@) == views(old(parts)@) + linter_blocks(
            pairs_view(linters@, lines@),
            first_n(sort_desc(tally(views(linters@))), 10),
        ),
{
    let ghost head = views(parts@);
    let ghost iv = pairs_view(linters@, lines@);
    let (keys, counts) = tally_of(linters);
    let (sk, sc) = sort_exec(keys, counts);
    let ghost top = first_n(entries(sk@, sc@), 10);
    let m: usize = if sk.len() > 10 {
        10
    } else {
        sk.len()
    };
    let mut k: usize = 0;
    assert(head + linter_blocks(iv, top.take(0)) =~= head);
    while k < m
        invariant
            m <= sk.len(),
            sk.len() == sc.len(),
            linters.len() == lines.len(),
            iv == pairs_view(linters@, lines@),
            top == first_n(entries(sk@, sc@), 10),
            top.len() == m,
            k <= m,
            views(parts@) == head + linter_blocks(iv, top.take(k as int)),
        decreases m - k,
    {
        assert(top[k as int] == (sk@[k as int]@, sc@[k as int] as nat));
        assert(top.take(k + 1).drop_last() == top.take(k as int));
        push_linter_block(parts, linters, lines, &sk[k], sc[k]);
        k += 1;
    }
    assert(top.take(m as int) == top);
}

impl GolangciModule {
    pub fn new() -> (r: Self) {
        Self { grouping_strategy: GroupingByPattern }
    }

    /// Summary of lint output: the totals, the issues per linter and per file.
    #[verifier::spinoff_prover]
    #[verifier::rlimit(40)]
    fn parse_lint_output(&self, output: &str) -> (r: String)
        ensures
            r@ == golangci_run(output@),
    {
        let v = to_chars(output);
        let tv = trim_of(&v);
        if tv.len() == 0 {
            return String::from_str("(no issues)");
        }
        let ls = lines(&v);
        let (linters, issue_lines, files, errors, warnings) = lint_scan_exec(&ls);
        let ghost st = lint_scan(views(ls@));
        if linters.len() == 0 {
            let low = lower(&v);
            if contains_str(&low, "0 issues") || contains_str(&v, "no issues") {
                return String::from_str("(no issues)");
            }
            return grouping_exec(output);
        }
        let mut parts: Vec<Vec<char>> = Vec::new();
        let mut first = to_chars("Total: ");
        push_decimal(&mut first, linters.len());
        push_str(&mut first, " issue(s) (");
        push_decimal(&mut first, errors);
        push_str(&mut first, " errors, ");
        push_decimal(&mut first, warnings);
        push_str(&mut first, " warnings)");
        parts.push(first);
        parts.push(Vec::new());
        parts.push(to_chars("By linter:"));
        assert(views(parts@) =~= seq![first@, Seq::<char>::empty(), "By linter:"@]);
        assert(views(linters@) =~= issue_linters(st.issues));
        push_linter_groups(&mut parts, &linters, &issue_lines);
        push_file_part(&mut parts, &files);
        assert(views(parts@) =~= lint_report(st));
        let r = join_str(&parts, "\n");
        from_chars(&r)
    }

    /// Summary of `golangci-lint linters` output: how many linters are
    /// listed, and the first ten.
    fn handle_linters(&self, output: &str) -> (r: String)
        ensures
            r@ == golangci_linters(output@),
    {
        let ls = str_lines(output);
        let ghost lv = views(ls@);
        let mut listed: Vec<Vec<char>> = Vec::new();
        let mut i: usize = 0;
        assert(views(listed@) =~= listed_linters(lv.take(0)));
        while i < ls.len()
            invariant
                i <= ls.len(),
                lv == views(ls@),
                views(listed@) == listed_linters(lv.take(i as int)),
            decreases ls.len() - i,
        {
            assert(lv.take(i + 1).drop_last() == lv.take(i as int));
            assert(lv[i as int] == ls@[i as int]@);
            let t = trim_of(&ls[i]);
            if t.len() > 0 && !starts_with_str(&ls[i], " ") {
                let c = copy(&ls[i]);
                let ghost o0 = listed@;
                listed.push(c);
                proof {
                    lemma_views_push(o0, c);
                }
            }
            i += 1;
        }
        assert(lv.take(ls.len() as int) == lv);
        let ghost lsd = views(listed@);
        if listed.len() == 0 {
            return String::from_str("(no linters configured)");
        }
        let mut parts: Vec<Vec<char>> = Vec::new();
        let mut h: Vec<char> = Vec::new();
        push_decimal(&mut h, listed.len());
        push_str(&mut h, " linters available");
        parts.push(h);
        let ghost head = seq![h@];
        assert(views(parts@) =~= head);
        let shown = take_pieces(&listed, 10);
        let ghost sv = views(shown@);
        let mut j: usize = 0;
        while j < shown.len()
            invariant
                j <= shown.len(),
                sv == views(shown@),
                sv == first_n(lsd, 10),
                views(parts@) == head + Seq::new(j as nat, |q: int| "  "@ + trim(sv[q])),
            decreases shown.len() - j,
        {
            let mut l = to_chars("  ");
            let t = trim_of(&shown[j]);
            push_all(&mut l, &t);
            assert(sv[j as int] == shown@[j as int]@);
            let ghost q0 = parts@;
            parts.push(l);
            proof {
                lemma_views_push(q0, l);
            }
            assert(views(parts@) =~= head + Seq::new((j + 1) as nat, |q: int| "  "@ + trim(sv[q])));
            j += 1;
        }
        if listed.len() > 10 {
            let mut l = to_chars("  ... and ");
            push_decimal(&mut l, listed.len() - 10);
            push_str(&mut l, " more");
            let ghost q1 = parts@;
            parts.push(l);
            proof {
                lemma_views_push(q1, l);
            }
        }
        assert(views(parts@) =~= seq![decimal(lsd.len()) + " linters available"@] + Seq::new(
            first_n(lsd, 10).len(),
            |i: int| "  "@ + trim(first_n(lsd, 10)[i]),
        ) + if lsd.len() > 10 {
            seq!["  ... and "@ + decimal((lsd.len() - 10) as nat) + " more"@]
        } else {
            Seq::empty()
        });
        let r = join_str(&parts, "\n");
        from_chars(&r)
    }

    /// The subcommand of a `golangci-lint` command line.
    fn detect_subcommand(&self, command: &str) -> (r: Option<Vec<char>>)
        ensures
            crate::text::opt_chars(r) == golangci_subcommand(command@),
    {
        let cv = to_chars(command);
        let p = split_whitespace(&cv);
        if p.len() >= 2 && eq_str(&p[0], "golangci-lint") {
            assert(views(p@)[0] == p@[0]@);
            assert(views(p@)[1] == p@[1]@);
            Some(copy(&p[1]))
        } else {
            None
        }
    }
}

impl CommandModule for GolangciModule {
    open spec fn spec_name(&self) -> Seq<char> {
        "golangci-lint"@
    }

    open spec fn spec_strategy(&self) -> Seq<char> {
        "grouping_by_pattern"@
    }

    open spec fn spec_compress(&self, output: Seq<char>, context: ContextView) -> Seq<char> {
        golangci_compress(output, context)
    }

    open spec fn accepts(&self, output: Seq<char>, context: ContextView) -> bool {
        true
    }


    fn name(&self) -> (r: &'static str) {
        "golangci-lint"
    }

    fn strategy(&self) -> (r: &'static str) {
        "grouping_by_pattern"
    }

    fn compress(&self, output: &str, context: &Context) -> (r: Result<String, RtkError>) {
        let sub = match &context.command {
            Some(cmd) => self.detect_subcommand(cmd.as_str()),
            None => None,
        };
        let is_linters = match &sub {
            Some(s) => eq_str(s, "linters"),
            None => false,
        };
        if is_linters {
            Ok(self.handle_linters(output))
        } else {
            Ok(self.parse_lint_output(output))
        }
    }
}

} // verus!
