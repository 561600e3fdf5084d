//! `pip` output, summarized per subcommand.

use crate::commands::diff_cmd::{sort_lex, sort_lex_exec};
use crate::commands::git::context_command;
use crate::commands::CommandModule;
use crate::filter::error_only::{error_only, error_only_exec, first_n};
use crate::filter::grouping::{grouping, grouping_exec};
use crate::filter::{ErrorOnly, GroupingByPattern};
use crate::text::{before_first, before_first_exec, contains_char, contains_str, copy, decimal, eq_chars, eq_str, from_chars, has_sub, is_prefix, join, join_str, lemma_views_push, lines, lines_of, lower, lowercase, push_all, push_decimal, push_str, slice_of, split_char, split_on, split_whitespace, starts_with_str, strip_prefix_str, to_chars, trim, trim_of, views, words, pairs_view};
use crate::{Context, ContextView, RtkError};
use vstd::prelude::*;

verus! {

/// Compression module for `pip`.
pub struct PipModule {
    error_strategy: ErrorOnly,
    grouping_strategy: GroupingByPattern,
}

// ---------------------------------------------------------------------
// Specification
// ---------------------------------------------------------------------

/// The pip subcommand of a command line: the second word after `pip` or `pip3`.
pub open spec fn pip_subcommand(command: Seq<char>) -> Option<Seq<char>> {
    let parts = words(command);
    if parts.len() >= 2 && (parts[0] == "pip"@ || parts[0] == "pip3"@) {
        Some(parts[1])
    } else {
        None
    }
}

/// The word lists of the lines of `ls` with at least `min` words.
pub open spec fn table_rows(ls: Seq<Seq<char>>, min: nat) -> Seq<Seq<Seq<char>>>
    decreases ls.len(),
{
    if ls.len() == 0 {
        Seq::empty()
    } else if words(ls.last()).len() >= min {
        table_rows(ls.drop_last(), min).push(words(ls.last()))
    } else {
        table_rows(ls.drop_last(), min)
    }
}

/// The output line of a package row: `  name==version`, or
/// `  name current -> latest` for outdated listings.
pub open spec fn row_line(row: Seq<Seq<char>>, outdated: bool) -> Seq<char> {
    if outdated {
        "  "@ + row[0] + " "@ + row[1] + " -> "@ + row[2]
    } else {
        "  "@ + row[0] + "=="@ + row[1]
    }
}

/// Output lines of a list of rows.
pub open spec fn row_lines(rows: Seq<Seq<Seq<char>>>, outdated: bool) -> Seq<Seq<char>> {
    Seq::new(rows.len(), |i: int| row_line(rows[i], outdated))
}

/// The `  ... and N more` line when there are more than twenty items.
pub open spec fn more_line(count: nat) -> Seq<Seq<char>> {
    if count > 20 {
        seq!["  ... and "@ + decimal((count - 20) as nat) + " more"@]
    } else {
        Seq::empty()
    }
}

/// A listing: a header line, at most twenty item lines, and a remainder line.
pub open spec fn listing(header: Seq<char>, items: Seq<Seq<char>>, count: nat) -> Seq<char> {
    join(seq![header] + first_n(items, 20) + more_line(count), "\n"@)
}

/// The lines after the first two (header and separator).
pub open spec fn body_lines(ls: Seq<Seq<char>>) -> Seq<Seq<char>> {
    if ls.len() >= 2 {
        ls.skip(2)
    } else {
        Seq::empty()
    }
}

/// Summary of `pip list`.
pub open spec fn pip_list_summary(output: Seq<char>) -> Seq<char> {
    let ls = lines_of(output);
    if output.len() == 0 {
        "(no packages)"@
    } else if ls.len() >= 2 && has_sub(ls[0], "Package"@) && has_sub(ls[0], "Version"@) {
        let rows = table_rows(body_lines(ls), 2);
        if rows.len() == 0 {
            "(no packages)"@
        } else {
            listing(
                decimal(rows.len()) + " packages installed"@,
                row_lines(rows, false),
                rows.len(),
            )
        }
    } else {
        grouping(output)
    }
}

/// Summary of `pip list --outdated`.
pub open spec fn pip_outdated_summary(output: Seq<char>) -> Seq<char> {
    let ls = lines_of(output);
    if output.len() == 0 {
        "(all packages up to date)"@
    } else if ls.len() >= 2 && has_sub(ls[0], "Package"@) {
        let rows = table_rows(body_lines(ls), 3);
        if rows.len() == 0 {
            "(all packages up to date)"@
        } else {
            listing(
                decimal(rows.len()) + " outdated packages"@,
                row_lines(rows, true),
                rows.len(),
            )
        }
    } else if has_sub(lowercase(output), "outdated"@) {
        "(all packages up to date)"@
    } else {
        grouping(output)
    }
}

/// A progress line of `pip install`, dropped from the summary.
pub open spec fn is_install_progress(t: Seq<char>) -> bool {
    is_prefix("Collecting"@, t) || is_prefix("Downloading"@, t) || is_prefix("Using cached"@, t)
        || has_sub(t, "━━━━━━━━━━"@) || has_sub(t, "████████"@) || is_prefix(
        "Preparing metadata"@,
        t,
    ) || is_prefix("Building wheel"@, t) || is_prefix("Getting requirements"@, t)
}

/// The package named by a `Requirement already satisfied:` line, if any.
pub open spec fn satisfied_package(t: Seq<char>) -> Option<Seq<char>> {
    if is_prefix("Requirement already satisfied:"@, t) {
        let pieces = split_on(t, ':');
        if pieces.len() > 1 && words(pieces[1]).len() > 0 {
            Some(words(pieces[1])[0])
        } else {
            None
        }
    } else {
        None
    }
}

/// What a scan of install output has collected so far.
pub struct InstallScan {
    pub installed: Seq<Seq<char>>,
    pub satisfied: Seq<Seq<char>>,
}

/// The scan after one more line.
pub open spec fn install_step(st: InstallScan, line: Seq<char>) -> InstallScan {
    let t = trim(line);
    if is_install_progress(t) {
        st
    } else {
        InstallScan {
            installed: if is_prefix("Successfully installed "@, t) {
                st.installed + words(t.skip("Successfully installed "@.len() as int))
            } else {
                st.installed
            },
            satisfied: match satisfied_package(t) {
                Some(p) => st.satisfied.push(p),
                None => st.satisfied,
            },
        }
    }
}

/// The scan of a list of lines.
pub open spec fn install_scan(ls: Seq<Seq<char>>) -> InstallScan
    decreases ls.len(),
{
    if ls.len() == 0 {
        InstallScan { installed: Seq::empty(), satisfied: Seq::empty() }
    } else {
        install_step(install_scan(ls.drop_last()), ls.last())
    }
}

/// `s` without elements equal to their predecessor.
pub open spec fn dedup_adjacent(s: Seq<Seq<char>>) -> Seq<Seq<char>>
    decreases s.len(),
{
    if s.len() == 0 {
        Seq::empty()
    } else if s.len() >= 2 && s.last() == s[s.len() - 2] {
        dedup_adjacent(s.drop_last())
    } else {
        dedup_adjacent(s.drop_last()).push(s.last())
    }
}

/// Summary of `pip install`.
pub open spec fn pip_install_summary(output: Seq<char>, exit_code: i32) -> Seq<char> {
    if exit_code != 0 {
        error_only(output)
    } else if output.len() == 0 {
        "(installed)"@
    } else {
        let st = install_scan(lines_of(output));
        let sat = dedup_adjacent(sort_lex(st.satisfied));
        let result = (if st.installed.len() > 0 {
            seq!["Installed: "@ + join(st.installed, ", "@)]
        } else {
            Seq::empty()
        }) + (if sat.len() == 0 {
            Seq::empty()
        } else if sat.len() > 10 {
            seq!["Already satisfied: "@ + decimal(sat.len()) + " packages"@]
        } else {
            seq!["Already satisfied: "@ + join(sat, ", "@)]
        });
        if result.len() == 0 {
            "(installed)"@
        } else {
            join(result, "\n"@)
        }
    }
}

/// The lines of `ls` that report an uninstalled package.
pub open spec fn uninstalled_lines(ls: Seq<Seq<char>>) -> Seq<Seq<char>>
    decreases ls.len(),
{
    if ls.len() == 0 {
        Seq::empty()
    } else if is_prefix("Successfully uninstalled"@, ls.last()) {
        uninstalled_lines(ls.drop_last()).push(ls.last())
    } else {
        uninstalled_lines(ls.drop_last())
    }
}

/// Summary of `pip uninstall`.
pub open spec fn pip_uninstall_summary(output: Seq<char>, exit_code: i32) -> Seq<char> {
    if exit_code == 0 {
        join(uninstalled_lines(lines_of(output)), "\n"@)
    } else {
        error_only(output)
    }
}

/// The `(key, value)` pair of a `key: value` line with a non-empty value.
pub open spec fn info_pair(line: Seq<char>) -> Option<(Seq<char>, Seq<char>)> {
    if has_sub(line, seq![':']) {
        let key = trim(before_first(line, ':'));
        let value = trim(line.skip(before_first(line, ':').len() + 1int));
        if value.len() > 0 {
            Some((key, value))
        } else {
            None
        }
    } else {
        None
    }
}

/// The info pairs of `ls`, in order.
pub open spec fn info_pairs(ls: Seq<Seq<char>>) -> Seq<(Seq<char>, Seq<char>)>
    decreases ls.len(),
{
    if ls.len() == 0 {
        Seq::empty()
    } else {
        match info_pair(ls.last()) {
            Some(p) => info_pairs(ls.drop_last()).push(p),
            None => info_pairs(ls.drop_last()),
        }
    }
}

/// The keys `pip show` always reports.
pub open spec fn is_important_key(k: Seq<char>) -> bool {
    k == "Name"@ || k == "Version"@ || k == "Summary"@ || k == "Location"@
}

/// `key: value` lines of the pairs whose key is (or is not) important.
pub open spec fn info_lines(ps: Seq<(Seq<char>, Seq<char>)>, important: bool) -> Seq<Seq<char>>
    decreases ps.len(),
{
    if ps.len() == 0 {
        Seq::empty()
    } else if is_important_key(ps.last().0) == important {
        info_lines(ps.drop_last(), important).push(ps.last().0 + ": "@ + ps.last().1)
    } else {
        info_lines(ps.drop_last(), important)
    }
}

/// Summary of `pip show`.
pub open spec fn pip_show_summary(output: Seq<char>) -> Seq<char> {
    let ps = info_pairs(lines_of(output));
    if output.len() == 0 || ps.len() == 0 {
        "(package not found)"@
    } else {
        join(info_lines(ps, true) + first_n(info_lines(ps, false), 5), "\n"@)
    }
}

/// The non-blank lines of `ls`.
pub open spec fn nonblank_lines(ls: Seq<Seq<char>>) -> Seq<Seq<char>>
    decreases ls.len(),
{
    if ls.len() == 0 {
        Seq::empty()
    } else if trim(ls.last()).len() > 0 {
        nonblank_lines(ls.drop_last()).push(ls.last())
    } else {
        nonblank_lines(ls.drop_last())
    }
}

/// Each line indented by two spaces.
pub open spec fn indented(ls: Seq<Seq<char>>) -> Seq<Seq<char>> {
    Seq::new(ls.len(), |i: int| "  "@ + ls[i])
}

/// Summary of `pip freeze`.
pub open spec fn pip_freeze_summary(output: Seq<char>) -> Seq<char> {
    let pkgs = nonblank_lines(lines_of(output));
    if output.len() == 0 || pkgs.len() == 0 {
        "(no packages)"@
    } else {
        listing(decimal(pkgs.len()) + " packages frozen"@, indented(pkgs), pkgs.len())
    }
}

/// What the pip module makes of `output`.
pub open spec fn pip_compress(output: Seq<char>, context: ContextView) -> Seq<char> {
    let sub = match context_command(context) {
        Some(c) => pip_subcommand(c),
        None => None,
    };
    let outdated = match context_command(context) {
        Some(c) => has_sub(c, "--outdated"@),
        None => false,
    };
    match sub {
        Some(s) => if s == "list"@ && outdated {
            pip_outdated_summary(output)
        } else if s == "list"@ {
            pip_list_summary(output)
        } else if s == "install"@ {
            pip_install_summary(output, context.exit_code)
        } else if s == "uninstall"@ {
            pip_uninstall_summary(output, context.exit_code)
        } else if s == "show"@ {
            pip_show_summary(output)
        } else if s == "freeze"@ {
            pip_freeze_summary(output)
        } else {
            grouping(output)
        },
        None => grouping(output),
    }
}

// ---------------------------------------------------------------------
// Executable helpers
// ---------------------------------------------------------------------

/// The contents of a vector of word lists.
pub open spec fn rows_view(rs: Seq<Vec<Vec<char>>>) -> Seq<Seq<Seq<char>>> {
    Seq::new(rs.len(), |i: int| views(rs[i]@))
}

/// The word lists of the lines of `ls` from index `start` on with at least
/// `min` words.
fn table_rows_exec(ls: &Vec<Vec<char>>, start: usize, min: usize) -> (r: Vec<Vec<Vec<char>>>)
    requires
        start <= ls.len(),
    ensures
        rows_view(r@) == table_rows(views(ls@).skip(start as int), min as nat),
{
    let ghost lv = views(ls@).skip(start as int);
    let mut rows: Vec<Vec<Vec<char>>> = Vec::new();
    let mut i: usize = start;
    assert(rows_view(rows@) =~= table_rows(lv.take(0), min as nat));
    while i < ls.len()
        invariant
            start <= i <= ls.len(),
            lv == views(ls@).skip(start as int),
            rows_view(rows@) == table_rows(lv.take(i - start), min as nat),
        decreases ls.len() - i,
    {
        let k = i - start;
        assert(lv.take(k + 1).drop_last() == lv.take(k as int));
        assert(lv[k as int] == ls@[i as int]@);
        let ws = split_whitespace(&ls[i]);
        if ws.len() >= min {
            let ghost r0 = rows@;
            rows.push(ws);
            assert(rows_view(rows@) =~= rows_view(r0).push(views(ws@)));
        }
        i += 1;
    }
    assert(lv.take(ls.len() - start) == lv);
    rows
}

/// The output lines of rows.
fn row_lines_exec(rows: &Vec<Vec<Vec<char>>>, outdated: bool) -> (r: Vec<Vec<char>>)
    requires
        forall|i: int|
            0 <= i < rows.len() ==> #[trigger] rows@[i].len() >= if outdated {
                3int
            } else {
                2int
            },
    ensures
        views(r@) == row_lines(rows_view(rows@), outdated),
{
    let mut out: Vec<Vec<char>> = Vec::new();
    let mut i: usize = 0;
    while i < rows.len()
        invariant
            i <= rows.len(),
            forall|i: int|
                0 <= i < rows.len() ==> #[trigger] rows@[i].len() >= if outdated {
                    3int
                } else {
                    2int
                },
            views(out@) == row_lines(rows_view(rows@).take(i as int), outdated),
        decreases rows.len() - i,
    {
        let row = &rows[i];
        assert(rows@[i as int].len() >= if outdated {
            3int
        } else {
            2int
        });
        let ghost rv = views(row@);
        assert(rows_view(rows@)[i as int] == rv);
        assert(rv[0] == row@[0]@ && rv[1] == row@[1]@);
        let mut l = to_chars("  ");
        push_all(&mut l, &row[0]);
        if outdated {
            assert(rv[2] == row@[2]@);
            push_str(&mut l, " ");
            push_all(&mut l, &row[1]);
            push_str(&mut l, " -> ");
            push_all(&mut l, &row[2]);
        } else {
            push_str(&mut l, "==");
            push_all(&mut l, &row[1]);
        }
        let ghost o0 = out@;
        out.push(l);
        proof {
            lemma_views_push(o0, l);
        }
        assert(views(out@) =~= row_lines(rows_view(rows@).take(i + 1), outdated));
        i += 1;
    }
    assert(rows_view(rows@).take(rows.len() as int) =~= rows_view(rows@));
    out
}

/// A listing: header, at most twenty items, and a remainder line.
fn listing_exec(header: Vec<char>, items: &Vec<Vec<char>>, count: usize) -> (r: Vec<char>)
    ensures
        r@ == listing(header@, views(items@), count as nat),
{
    let ghost hv = header@;
    let mut all: Vec<Vec<char>> = Vec::new();
    all.push(header);
    let n: usize = if items.len() > 20 {
        20
    } else {
        items.len()
    };
    let mut i: usize = 0;
    assert(views(all@) =~= seq![header@] + first_n(views(items@), 20).take(0));
    while i < n
        invariant
            n <= items.len(),
            n == first_n(views(items@), 20).len(),
            i <= n,
            views(all@) == seq![header@] + first_n(views(items@), 20).take(i as int),
        decreases n - i,
    {
        let l = copy(&items[i]);
        let ghost a0 = all@;
        all.push(l);
        proof {
            lemma_views_push(a0, l);
        }
        assert(views(all@) =~= seq![header@] + first_n(views(items@), 20).take(i + 1));
        i += 1;
    }
    assert(first_n(views(items@), 20).take(n as int) == first_n(views(items@), 20));
    if count > 20 {
        let mut m = to_chars("  ... and ");
        push_decimal(&mut m, count - 20);
        push_str(&mut m, " more");
        let ghost a0 = all@;
        all.push(m);
        proof {
            lemma_views_push(a0, m);
        }
    } else {
        assert(views(all@) + Seq::<Seq<char>>::empty() == views(all@));
    }
    assert(views(all@) =~= seq![hv] + first_n(views(items@), 20) + more_line(count as nat));
    join_str(&all, "\n")
}

impl PipModule {
    pub fn new() -> (r: Self) {
        Self { error_strategy: ErrorOnly, grouping_strategy: GroupingByPattern }
    }

    /// The pip subcommand of a command line.
    pub fn detect_subcommand(&self, command: &str) -> (r: Option<String>)
        ensures
            crate::text::opt_view(r) == pip_subcommand(command@),
    {
        let v = to_chars(command);
        let parts = split_whitespace(&v);
        if parts.len() >= 2 {
            assert(views(parts@)[0] == parts@[0]@ && views(parts@)[1] == parts@[1]@);
            if eq_str(&parts[0], "pip") || eq_str(&parts[0], "pip3") {
                return Some(from_chars(&parts[1]));
            }
        }
        None
    }

    /// Summary of `pip list`.
    pub fn handle_list(&self, output: &str) -> (r: String)
        ensures
            r@ == pip_list_summary(output@),
    {
        let v = to_chars(output);
        if v.len() == 0 {
            return String::from_str("(no packages)");
        }
        let ls = lines(&v);
        if ls.len() >= 2 && contains_str(&ls[0], "Package") && contains_str(&ls[0], "Version") {
            assert(views(ls@)[0] == ls@[0]@);
            let rows = table_rows_exec(&ls, 2, 2);
            if rows.len() == 0 {
                return String::from_str("(no packages)");
            }
            proof {
                lemma_rows_min(views(ls@).skip(2), 2);
            }
            assert forall|i: int| 0 <= i < rows.len() implies #[trigger] rows@[i].len() >= 2int by {
                assert(rows_view(rows@)[i].len() == rows@[i]@.len());
            }
            let items = row_lines_exec(&rows, false);
            let mut h: Vec<char> = Vec::new();
            push_decimal(&mut h, rows.len());
            push_str(&mut h, " packages installed");
            let r = listing_exec(h, &items, rows.len());
            return from_chars(&r);
        }
        grouping_exec(output)
    }

    /// Summary of `pip list --outdated`.
    pub fn handle_outdated(&self, output: &str) -> (r: String)
        ensures
            r@ == pip_outdated_summary(output@),
    {
        let v = to_chars(output);
        if v.len() == 0 {
            return String::from_str("(all packages up to date)");
        }
        let ls = lines(&v);
        if ls.len() >= 2 && contains_str(&ls[0], "Package") {
            assert(views(ls@)[0] == ls@[0]@);
            let rows = table_rows_exec(&ls, 2, 3);
            if rows.len() == 0 {
                return String::from_str("(all packages up to date)");
            }
            proof {
                lemma_rows_min(views(ls@).skip(2), 3);
            }
            assert forall|i: int| 0 <= i < rows.len() implies #[trigger] rows@[i].len() >= 3int by {
                assert(rows_view(rows@)[i].len() == rows@[i]@.len());
            }
            let items = row_lines_exec(&rows, true);
            let mut h: Vec<char> = Vec::new();
            push_decimal(&mut h, rows.len());
            push_str(&mut h, " outdated packages");
            let r = listing_exec(h, &items, rows.len());
            return from_chars(&r);
        }
        let low = lower(&v);
        if contains_str(&low, "outdated") {
            return String::from_str("(all packages up to date)");
        }
        grouping_exec(output)
    }

    /// Summary of `pip install`.
    pub fn handle_install(&self, output: &str, exit_code: i32) -> (r: String)
        ensures
            r@ == pip_install_summary(output@, exit_code),
    {
        if exit_code != 0 {
            return error_only_exec(output);
        }
        let v = to_chars(output);
        if v.len() == 0 {
            return String::from_str("(installed)");
        }
        let ls = lines(&v);
        let ghost lv = views(ls@);
        let mut installed: Vec<Vec<char>> = Vec::new();
        let mut satisfied: Vec<Vec<char>> = Vec::new();
        let mut i: usize = 0;
        assert(views(installed@) =~= Seq::<Seq<char>>::empty());
        assert(views(satisfied@) =~= Seq::<Seq<char>>::empty());
        while i < ls.len()
            invariant
                i <= ls.len(),
                lv == views(ls@),
                install_scan(lv.take(i as int)) == (InstallScan {
                    installed: views(installed@),
                    satisfied: views(satisfied@),
                }),
            decreases ls.len() - i,
        {
            assert(lv.take(i + 1).drop_last() == lv.take(i as int));
            assert(lv[i as int] == ls@[i as int]@);
            let t = trim_of(&ls[i]);
            let progress = starts_with_str(&t, "Collecting") || starts_with_str(&t, "Downloading")
                || starts_with_str(&t, "Using cached") || contains_str(&t, "━━━━━━━━━━")
                || contains_str(&t, "████████") || starts_with_str(&t, "Preparing metadata")
                || starts_with_str(&t, "Building wheel") || starts_with_str(
                &t,
                "Getting requirements",
            );
            if !progress {
                match strip_prefix_str(&t, "Successfully installed ") {
                    Some(rest) => {
                        let pkgs = split_whitespace(&rest);
                        let mut k: usize = 0;
                        let ghost i0 = views(installed@);
                        while k < pkgs.len()
                            invariant
                                k <= pkgs.len(),
                                views(installed@) == i0 + views(pkgs@).take(k as int),
                            decreases pkgs.len() - k,
                        {
                            let p = copy(&pkgs[k]);
                            let ghost a0 = installed@;
                            installed.push(p);
                            proof {
                                lemma_views_push(a0, p);
                            }
                            assert(views(installed@) =~= i0 + views(pkgs@).take(k + 1));
                            k += 1;
                        }
                        assert(views(pkgs@).take(pkgs.len() as int) == views(pkgs@));
                    },
                    None => {},
                }
                if starts_with_str(&t, "Requirement already satisfied:") {
                    let pieces = split_char(&t, ':');
                    if pieces.len() > 1 {
                        assert(views(pieces@)[1] == pieces@[1]@);
                        let ws = split_whitespace(&pieces[1]);
                        if ws.len() > 0 {
                            assert(views(ws@)[0] == ws@[0]@);
                            let p = copy(&ws[0]);
                            let ghost s0 = satisfied@;
                            satisfied.push(p);
                            proof {
                                lemma_views_push(s0, p);
                            }
                        }
                    }
                }
            }
            i += 1;
        }
        assert(lv.take(ls.len() as int) == lv);
        let mut result: Vec<Vec<char>> = Vec::new();
        assert(views(result@) =~= Seq::<Seq<char>>::empty());
        if installed.len() > 0 {
            let mut l = to_chars("Installed: ");
            let j = join_str(&installed, ", ");
            push_all(&mut l, &j);
            result.push(l);
            assert(views(result@) =~= seq![l@]);
        }
        let sorted = sort_lex_exec(&satisfied);
        let sat = dedup_exec(&sorted);
        if sat.len() > 0 {
            let mut l = to_chars("Already satisfied: ");
            if sat.len() > 10 {
                push_decimal(&mut l, sat.len());
                push_str(&mut l, " packages");
            } else {
                let j = join_str(&sat, ", ");
                push_all(&mut l, &j);
            }
            let ghost r0 = result@;
            result.push(l);
            proof {
                lemma_views_push(r0, l);
            }
        }
        proof {
            let st = install_scan(lv);
            let sv = dedup_adjacent(sort_lex(st.satisfied));
            assert(views(result@) =~= (if st.installed.len() > 0 {
                seq!["Installed: "@ + join(st.installed, ", "@)]
            } else {
                Seq::empty()
            }) + (if sv.len() == 0 {
                Seq::empty()
            } else if sv.len() > 10 {
                seq!["Already satisfied: "@ + decimal(sv.len()) + " packages"@]
            } else {
                seq!["Already satisfied: "@ + join(sv, ", "@)]
            }));
        }
        if result.len() == 0 {
            return String::from_str("(installed)");
        }
        let j = join_str(&result, "\n");
        from_chars(&j)
    }

    /// Summary of `pip uninstall`.
    pub fn handle_uninstall(&self, output: &str, exit_code: i32) -> (r: String)
        ensures
            r@ == pip_uninstall_summary(output@, exit_code),
    {
        if exit_code != 0 {
            return error_only_exec(output);
        }
        let ls = crate::text::str_lines(output);
        let ghost lv = views(ls@);
        let mut kept: Vec<Vec<char>> = Vec::new();
        let mut i: usize = 0;
        while i < ls.len()
            invariant
                i <= ls.len(),
                lv == views(ls@),
                views(kept@) == uninstalled_lines(lv.take(i as int)),
            decreases ls.len() - i,
        {
            assert(lv.take(i + 1).drop_last() == lv.take(i as int));
            assert(lv[i as int] == ls@[i as int]@);
            if starts_with_str(&ls[i], "Successfully uninstalled") {
                let l = copy(&ls[i]);
                let ghost k0 = kept@;
                kept.push(l);
                proof {
                    lemma_views_push(k0, l);
                }
            }
            i += 1;
        }
        assert(lv.take(ls.len() as int) == lv);
        let j = join_str(&kept, "\n");
        from_chars(&j)
    }

    /// Summary of `pip show`.
    pub fn handle_show(&self, output: &str) -> (r: String)
        ensures
            r@ == pip_show_summary(output@),
    {
        let v = to_chars(output);
        if v.len() == 0 {
            return String::from_str("(package not found)");
        }
        let ls = lines(&v);
        let ghost lv = views(ls@);
        let mut keys: Vec<Vec<char>> = Vec::new();
        let mut vals: Vec<Vec<char>> = Vec::new();
        let mut i: usize = 0;
        assert(pairs_view(keys@, vals@) =~= info_pairs(lv.take(0)));
        while i < ls.len()
            invariant
                i <= ls.len(),
                lv == views(ls@),
                keys.len() == vals.len(),
                pairs_view(keys@, vals@) == info_pairs(lv.take(i as int)),
            decreases ls.len() - i,
        {
            assert(lv.take(i + 1).drop_last() == lv.take(i as int));
            assert(lv[i as int] == ls@[i as int]@);
            let line = &ls[i];
            if contains_char(line, ':') {
                let before = before_first_exec(line, ':');
                proof {
                    lemma_before_first_len(line@, ':');
                }
                let key = trim_of(&before);
                assert(before.len() < line.len());
                let after = slice_of(line, before.len() + 1, line.len());
                let value = trim_of(&after);
                if value.len() > 0 {
                    let ghost k0 = keys@;
                    let ghost v0 = vals@;
                    keys.push(key);
                    vals.push(value);
                    assert(pairs_view(keys@, vals@) =~= pairs_view(k0, v0).push((key@, value@)));
                }
            }
            i += 1;
        }
        assert(lv.take(ls.len() as int) == lv);
        if keys.len() == 0 {
            return String::from_str("(package not found)");
        }
        let ghost ps = pairs_view(keys@, vals@);
        let imp = info_lines_exec(&keys, &vals, true);
        let other = info_lines_exec(&keys, &vals, false);
        let mut all: Vec<Vec<char>> = Vec::new();
        let mut k: usize = 0;
        assert(views(all@) =~= views(imp@).take(0));
        while k < imp.len()
            invariant
                k <= imp.len(),
                views(all@) == views(imp@).take(k as int),
            decreases imp.len() - k,
        {
            let l = copy(&imp[k]);
            let ghost a0 = all@;
            all.push(l);
            proof {
                lemma_views_push(a0, l);
            }
            assert(views(all@) =~= views(imp@).take(k + 1));
            k += 1;
        }
        assert(views(imp@).take(imp.len() as int) == views(imp@));
        let n: usize = if other.len() > 5 {
            5
        } else {
            other.len()
        };
        let mut k: usize = 0;
        let ghost a1 = views(all@);
        assert(first_n(views(other@), 5).len() == n);
        while k < n
            invariant
                k <= n,
                n <= other.len(),
                n == first_n(views(other@), 5).len(),
                views(all@) == a1 + first_n(views(other@), 5).take(k as int),
            decreases n - k,
        {
            let l = copy(&other[k]);
            let ghost a0 = all@;
            all.push(l);
            proof {
                lemma_views_push(a0, l);
            }
            assert(views(all@) =~= a1 + first_n(views(other@), 5).take(k + 1));
            k += 1;
        }
        assert(first_n(views(other@), 5).take(n as int) == first_n(views(other@), 5));
        let j = join_str(&all, "\n");
        from_chars(&j)
    }

    /// Summary of `pip freeze`.
    pub fn handle_freeze(&self, output: &str) -> (r: String)
        ensures
            r@ == pip_freeze_summary(output@),
    {
        let v = to_chars(output);
        if v.len() == 0 {
            return String::from_str("(no packages)");
        }
        let ls = lines(&v);
        let ghost lv = views(ls@);
        let mut pkgs: Vec<Vec<char>> = Vec::new();
        let mut items: Vec<Vec<char>> = Vec::new();
        let mut i: usize = 0;
        assert(views(items@) =~= indented(nonblank_lines(lv.take(0))));
        while i < ls.len()
            invariant
                i <= ls.len(),
                lv == views(ls@),
                views(pkgs@) == nonblank_lines(lv.take(i as int)),
                views(items@) == indented(nonblank_lines(lv.take(i as int))),
            decreases ls.len() - i,
        {
            assert(lv.take(i + 1).drop_last() == lv.take(i as int));
            assert(lv[i as int] == ls@[i as int]@);
            let t = trim_of(&ls[i]);
            if t.len() > 0 {
                let l = copy(&ls[i]);
                let mut it = to_chars("  ");
                push_all(&mut it, &ls[i]);
                let ghost p0 = pkgs@;
                let ghost i0 = items@;
                pkgs.push(l);
                items.push(it);
                proof {
                    lemma_views_push(p0, l);
                    lemma_views_push(i0, it);
                }
                assert(views(items@) =~= indented(views(pkgs@)));
            }
            i += 1;
        }
        assert(lv.take(ls.len() as int) == lv);
        if pkgs.len() == 0 {
            return String::from_str("(no packages)");
        }
        let mut h: Vec<char> = Vec::new();
        push_decimal(&mut h, pkgs.len());
        push_str(&mut h, " packages frozen");
        let r = listing_exec(h, &items, pkgs.len());
        from_chars(&r)
    }
}

proof fn lemma_before_first_len(s: Seq<char>, c: char)
    requires
        crate::text::has_sub(s, seq![c]),
    ensures
        before_first(s, c).len() < s.len(),
        s[before_first(s, c).len() as int] == c,
        s.take(before_first(s, c).len() as int) == before_first(s, c),
    decreases s.len(),
{
    let w = choose|i: int| crate::text::occurs_at(s, seq![c], i);
    assert(s.subrange(w, w + 1)[0] == c);
    if s[0] == c {
        assert(s.take(0) =~= Seq::<char>::empty());
    } else {
        assert(w > 0);
        assert(crate::text::occurs_at(s.drop_first(), seq![c], w - 1)) by {
            assert(s.drop_first().subrange(w - 1, w) =~= s.subrange(w, w + 1));
        }
        lemma_before_first_len(s.drop_first(), c);
        assert(s.take(before_first(s, c).len() as int) =~= seq![s[0]] + s.drop_first().take(
            before_first(s.drop_first(), c).len() as int,
        ));
    }
}

/// Rows of `table_rows(ls, min)` have at least `min` words.
proof fn lemma_rows_min(ls: Seq<Seq<char>>, min: nat)
    ensures
        forall|i: int| 0 <= i < table_rows(ls, min).len() ==> #[trigger] table_rows(ls, min)[i].len() >= min,
    decreases ls.len(),
{
    if ls.len() > 0 {
        lemma_rows_min(ls.drop_last(), min);
        let p = table_rows(ls.drop_last(), min);
        assert forall|i: int| 0 <= i < table_rows(ls, min).len() implies #[trigger] table_rows(
            ls,
            min,
        )[i].len() >= min by {
            if i < p.len() {
                assert(table_rows(ls, min)[i] == p[i]);
            }
        }
    }
}

/// `key: value` lines of the pairs whose key is (or is not) important.
fn info_lines_exec(keys: &Vec<Vec<char>>, vals: &Vec<Vec<char>>, important: bool) -> (r: Vec<
    Vec<char>,
>)
    requires
        keys.len() == vals.len(),
    ensures
        views(r@) == info_lines(pairs_view(keys@, vals@), important),
{
    let ghost ps = pairs_view(keys@, vals@);
    let mut out: Vec<Vec<char>> = Vec::new();
    let mut i: usize = 0;
    while i < keys.len()
        invariant
            i <= keys.len(),
            keys.len() == vals.len(),
            ps == pairs_view(keys@, vals@),
            views(out@) == info_lines(ps.take(i as int), important),
        decreases keys.len() - i,
    {
        assert(ps.take(i + 1).drop_last() == ps.take(i as int));
        assert(ps[i as int] == (keys@[i as int]@, vals@[i as int]@));
        let k = &keys[i];
        let imp = eq_str(k, "Name") || eq_str(k, "Version") || eq_str(k, "Summary") || eq_str(
            k,
            "Location",
        );
        if imp == important {
            let mut l = copy(k);
            push_str(&mut l, ": ");
            push_all(&mut l, &vals[i]);
            let ghost o0 = out@;
            out.push(l);
            proof {
                lemma_views_push(o0, l);
            }
        }
        i += 1;
    }
    assert(ps.take(keys.len() as int) == ps);
    out
}

/// `s` without elements equal to their predecessor.
fn dedup_exec(s: &Vec<Vec<char>>) -> (r: Vec<Vec<char>>)
    ensures
        views(r@) == dedup_adjacent(views(s@)),
{
    let ghost sv = views(s@);
    let mut out: Vec<Vec<char>> = Vec::new();
    let mut i: usize = 0;
    while i < s.len()
        invariant
            i <= s.len(),
            sv == views(s@),
            views(out@) == dedup_adjacent(sv.take(i as int)),
        decreases s.len() - i,
    {
        let ghost t = sv.take(i + 1);
        assert(t.drop_last() == sv.take(i as int));
        assert(sv[i as int] == s@[i as int]@);
        if i > 0 {
            assert(sv[i - 1] == s@[i - 1]@);
            assert(t[t.len() - 2] == sv[i - 1]);
        }
        if i > 0 && eq_chars(&s[i], &s[i - 1]) {
        } else {
            let l = copy(&s[i]);
            let ghost o0 = out@;
            out.push(l);
            proof {
                lemma_views_push(o0, l);
            }
        }
        i += 1;
    }
    assert(sv.take(s.len() as int) == sv);
    out
}

impl CommandModule for PipModule {
    open spec fn spec_name(&self) -> Seq<char> {
        "pip"@
    }

    open spec fn spec_strategy(&self) -> Seq<char> {
        "multi_strategy"@
    }

    open spec fn spec_compress(&self, output: Seq<char>, context: ContextView) -> Seq<char> {
        pip_compress(output, context)
    }

    open spec fn accepts(&self, output: Seq<char>, context: ContextView) -> bool {
        true
    }


    fn name(&self) -> (r: &'static str) {
        "pip"
    }

    fn strategy(&self) -> (r: &'static str) {
        "multi_strategy"
    }

    fn compress(&self, output: &str, context: &Context) -> (r: Result<String, RtkError>) {
        let (sub, outdated) = match &context.command {
            Some(cmd) => {
                let cv = to_chars(cmd.as_str());
                (self.detect_subcommand(cmd.as_str()), contains_str(&cv, "--outdated"))
            },
            None => (None, false),
        };
        let r = match sub {
            Some(s) => {
                let sv = to_chars(s.as_str());
                if eq_str(&sv, "list") && outdated {
                    self.handle_outdated(output)
                } else if eq_str(&sv, "list") {
                    self.handle_list(output)
                } else if eq_str(&sv, "install") {
                    self.handle_install(output, context.exit_code)
                } else if eq_str(&sv, "uninstall") {
                    self.handle_uninstall(output, context.exit_code)
                } else if eq_str(&sv, "show") {
                    self.handle_show(output)
                } else if eq_str(&sv, "freeze") {
                    self.handle_freeze(output)
                } else {
                    grouping_exec(output)
                }
            },
            None => grouping_exec(output),
        };
        Ok(r)
    }
}

} // verus!
