//! Properties of the output summaries, each stated against what the input
//! holds and proved for every input.

use crate::commands::git::{authors, commit_count, git_log_summary};
use crate::filter::grouping::{distinct, lemma_distinct};
use crate::commands::go_cmd::{count_status, go_summary, go_test_json, has_pkg, json_scan, pkg_insert, EventView};
use crate::commands::grep_cmd::{grep_files, grep_stats, grep_total};
use crate::commands::ls_cmd::{ls_scan, ls_stats};
use crate::filter::grouping::{insert_desc, occurrences, render_kvs, sort_desc, tally, Group};
use crate::filter::error_only::first_n;
use crate::commands::wget_cmd::{is_speed_line, wget_scan, wget_summary};
use crate::text::find_last;
use crate::text::{decimal, is_prefix, is_suffix, join, lines_of, trim};
use vstd::prelude::*;

verus! {

/// A list and its distinct elements have the same set of elements, so the
/// number of distinct elements is the size of that set.
pub proof fn lemma_distinct_count(ks: Seq<Seq<char>>)
    ensures
        distinct(ks).len() == ks.to_set().len(),
        ks.to_set().finite(),
{
    lemma_distinct(ks);
    assert(distinct(ks).to_set() =~= ks.to_set()) by {
        assert forall|k: Seq<char>| distinct(ks).to_set().contains(k) <==> ks.to_set().contains(k) by {
        }
    }
    distinct(ks).unique_seq_to_set();
    vstd::seq_lib::seq_to_set_is_finite(ks);
}

/// The author count of a `git log` summary is the number of distinct author
/// names on its `Author:` lines: commits that all share one author report one
/// author.
pub proof fn law_git_log_author_count(output: Seq<char>)
    requires
        output.len() > 0,
        commit_count(lines_of(output)) > 0,
        authors(lines_of(output)).len() > 0,
    ensures
        git_log_summary(output) == decimal(commit_count(lines_of(output))) + " commits"@ + ", "@
            + "by "@ + decimal(authors(lines_of(output)).to_set().len()) + " author"@ + (if authors(
            lines_of(output),
        ).to_set().len() > 1 {
            "s"@
        } else {
            ""@
        }),
        authors(lines_of(output)).to_set().len() >= 1,
{
    let a = authors(lines_of(output));
    lemma_distinct_count(a);
    lemma_distinct(a);
    assert(a.contains(a[0]));
    assert(distinct(a).len() > 0) by {
        assert(distinct(a).contains(a[0]));
    }
}

/// A joined list starts with its first part.
pub proof fn lemma_join_prefix(parts: Seq<Seq<char>>, sep: Seq<char>)
    requires
        parts.len() > 0,
    ensures
        is_prefix(parts[0], join(parts, sep)),
    decreases parts.len(),
{
    if parts.len() > 1 {
        lemma_join_prefix(parts.drop_last(), sep);
        assert(parts.drop_last()[0] == parts[0]);
        let j = join(parts.drop_last(), sep);
        assert((j + sep + parts.last()).subrange(0, parts[0].len() as int) =~= j.subrange(
            0,
            parts[0].len() as int,
        ));
    } else {
        assert(parts[0].subrange(0, parts[0].len() as int) =~= parts[0]);
    }
}

/// A joined list ends with its last part.
pub proof fn lemma_join_suffix(parts: Seq<Seq<char>>, sep: Seq<char>)
    requires
        parts.len() > 0,
    ensures
        is_suffix(parts.last(), join(parts, sep)),
{
    if parts.len() > 1 {
        let j = join(parts.drop_last(), sep);
        let w = j + sep + parts.last();
        assert(w.subrange(w.len() - parts.last().len(), w.len() as int) =~= parts.last());
    } else {
        assert(parts[0] == parts.last());
        assert(parts[0].subrange(0, parts[0].len() as int) =~= parts[0]);
    }
}

/// The lines of `ls` output that start, once trimmed, with `d`.
pub open spec fn d_lines(ls: Seq<Seq<char>>) -> Seq<Seq<char>> {
    ls.filter(|l: Seq<char>| is_prefix("d"@, trim(l)))
}

/// An ls line counts as a directory exactly when, trimmed, it starts with
/// `d`: the directory count is the number of such lines, so a plain file
/// name, or a long-format line starting with `-` or `l`, never adds to it.
pub proof fn law_ls_directories(ls: Seq<Seq<char>>)
    ensures
        ls_scan(ls).dirs == d_lines(ls).len(),
    decreases ls.len(),
{
    reveal(Seq::filter);
    if ls.len() > 0 {
        law_ls_directories(ls.drop_last());
        reveal_strlit("d");
        reveal_strlit("total ");
        let t = trim(ls.last());
        if is_prefix("total "@, t) {
            assert(t.subrange(0, 6)[0] == t[0]);
            assert(t[0] == 't');
            if is_prefix("d"@, t) {
                assert(t.subrange(0, 1)[0] == t[0]);
            }
        }
    }
}

/// A listing summary with directories starts with their number: the number
/// of lines that start with `d`.
pub proof fn law_ls_summary_directories(output: Seq<char>)
    requires
        output.len() > 0,
        d_lines(lines_of(output)).len() > 0,
    ensures
        is_prefix(decimal(d_lines(lines_of(output)).len()) + " directories"@, ls_stats(output)),
{
    law_ls_directories(lines_of(output));
    let st = ls_scan(lines_of(output));
    let parts = crate::commands::ls_cmd::nonzero_part(st.dirs, " directories"@)
        + crate::commands::ls_cmd::nonzero_part(st.files, " files"@)
        + crate::commands::ls_cmd::nonzero_part(st.hidden, " hidden"@);
    assert(parts[0] == decimal(st.dirs) + " directories"@);
    let exts = crate::filter::grouping::sort_desc(crate::filter::grouping::tally(st.exts));
    let all = parts + (if exts.len() > 0 {
        seq![
            "\n"@ + join(
                crate::filter::grouping::render_kvs(
                    crate::filter::error_only::first_n(exts, 8),
                    "."@,
                ),
                ", "@,
            ),
        ]
    } else {
        Seq::empty()
    });
    assert(all[0] == parts[0]);
    lemma_join_prefix(all, ", "@);
}

/// The text between the last `(` and the last `)` of a line, when it has
/// both.
pub open spec fn last_parens_text(t: Seq<char>) -> Option<Seq<char>> {
    match (find_last(t, "("@), find_last(t, ")"@)) {
        (Some(p), Some(e)) => Some(t.subrange(p + 1, e)),
        _ => None,
    }
}

/// The speed of a wget transcript: the text between the last `(` and the
/// last `)` of its last transfer-speed line that holds both.
pub open spec fn last_speed(ls: Seq<Seq<char>>) -> Option<Seq<char>>
    decreases ls.len(),
{
    if ls.len() == 0 {
        None
    } else {
        let t = trim(ls.last());
        if is_speed_line(t) && last_parens_text(t) is Some {
            last_parens_text(t)
        } else {
            last_speed(ls.drop_last())
        }
    }
}

/// The speed a wget scan records is the text between the last `(` and the
/// last `)` of the last speed line that holds both.
pub proof fn law_wget_speed(ls: Seq<Seq<char>>)
    ensures
        wget_scan(ls).speed == last_speed(ls),
    decreases ls.len(),
{
    if ls.len() > 0 {
        law_wget_speed(ls.drop_last());
    }
}

/// A download summary with a speed ends with `Speed: ` and that speed (such
/// as `1.45 MB/s`), not with the transfer time.
#[verifier::rlimit(40)]
pub proof fn law_wget_summary_speed(output: Seq<char>, v: Seq<char>)
    requires
        last_speed(lines_of(output)) == Some(v),
        !wget_scan(lines_of(output)).has_error,
        wget_scan(lines_of(output)).saved || wget_scan(lines_of(output)).path is Some,
    ensures
        is_suffix("Speed: "@ + v, wget_summary(output)),
{
    law_wget_speed(lines_of(output));
    let st = wget_scan(lines_of(output));
    let parts = crate::commands::wget_cmd::labeled("Downloaded: "@, st.path, ""@)
        + crate::commands::wget_cmd::labeled("Size: "@, st.size, " bytes"@)
        + crate::commands::wget_cmd::labeled("Time: "@, st.time, ""@)
        + crate::commands::wget_cmd::labeled("Speed: "@, st.speed, ""@);
    assert(parts.last() == "Speed: "@ + v + ""@);
    reveal_strlit("");
    assert("Speed: "@ + v + ""@ =~= "Speed: "@ + v);
    assert(parts.len() > 0);
    assert(wget_summary(output) == join(parts, "\n"@));
    lemma_join_suffix(parts, "\n"@);
}

/// The package and result of a package-level `go test -json` event: action
/// `pass` or `fail`, no test, and a package.
pub open spec fn package_result(e: EventView) -> Option<(Seq<char>, bool)> {
    match (e.0, e.1, e.2) {
        (Some(a), None, Some(p)) => if a == "pass"@ {
            Some((p, true))
        } else if a == "fail"@ {
            Some((p, false))
        } else {
            None
        },
        _ => None,
    }
}

/// Whether the last package-level event for package `p` passed (`true`) or
/// failed (`false`); None when there is none.
pub open spec fn final_result(es: Seq<EventView>, p: Seq<char>) -> Option<bool>
    decreases es.len(),
{
    if es.len() == 0 {
        None
    } else {
        match package_result(es.last()) {
            Some((q, b)) => if q == p {
                Some(b)
            } else {
                final_result(es.drop_last(), p)
            },
            None => final_result(es.drop_last(), p),
        }
    }
}

/// The packages whose last package-level event has result `b`.
pub open spec fn packages_ending(es: Seq<EventView>, b: bool) -> Set<Seq<char>> {
    Set::new(|p: Seq<char>| final_result(es, p) == Some(b))
}

/// `m` holds the entry `(q, c)`.
pub open spec fn entry(m: Seq<(Seq<char>, bool)>, q: Seq<char>, c: bool) -> bool {
    exists|i: int| 0 <= i < m.len() && #[trigger] m[i] == (q, c)
}

/// No package occurs twice in `m`.
pub open spec fn keys_distinct(m: Seq<(Seq<char>, bool)>) -> bool {
    forall|i: int, j: int| 0 <= i < j < m.len() ==> #[trigger] m[i].0 != #[trigger] m[j].0
}

proof fn lemma_entry_push(m: Seq<(Seq<char>, bool)>, x: (Seq<char>, bool), q: Seq<char>, c: bool)
    ensures
        entry(m.push(x), q, c) <==> entry(m, q, c) || x == (q, c),
{
    if entry(m, q, c) {
        let i = choose|i: int| 0 <= i < m.len() && m[i] == (q, c);
        assert(m.push(x)[i] == (q, c));
    }
    if x == (q, c) {
        assert(m.push(x)[m.len() as int] == (q, c));
    }
    if entry(m.push(x), q, c) {
        let i = choose|i: int| 0 <= i < m.push(x).len() && m.push(x)[i] == (q, c);
        if i < m.len() {
            assert(m[i] == m.push(x)[i]);
        }
    }
}

proof fn lemma_pkg_insert(m: Seq<(Seq<char>, bool)>, p: Seq<char>, b: bool)
    requires
        keys_distinct(m),
    ensures
        keys_distinct(pkg_insert(m, p, b)),
        forall|q: Seq<char>, c: bool|
            entry(pkg_insert(m, p, b), q, c) <==> (if q == p {
                c == b
            } else {
                entry(m, q, c)
            }),
    decreases m.len(),
{
    let r = pkg_insert(m, p, b);
    if m.len() == 0 {
        assert forall|q: Seq<char>, c: bool| entry(r, q, c) <==> (if q == p {
            c == b
        } else {
            entry(m, q, c)
        }) by {
            lemma_entry_push(m, (p, b), q, c);
            assert(m.push((p, b)) =~= r);
        }
    } else {
        let d = m.drop_last();
        let x = m.last();
        assert(keys_distinct(d)) by {
            assert forall|i: int, j: int| 0 <= i < j < d.len() implies #[trigger] d[i].0
                != #[trigger] d[j].0 by {
                assert(d[i] == m[i] && d[j] == m[j]);
            }
        }
        assert forall|q: Seq<char>, c: bool| entry(m, q, c) <==> entry(d, q, c) || x == (q, c) by {
            lemma_entry_push(d, x, q, c);
            assert(d.push(x) =~= m);
        }
        if x.0 == p {
            assert forall|q: Seq<char>, c: bool| #[trigger] entry(d, q, c) implies q != p by {
                if entry(d, q, c) {
                    let i = choose|i: int| 0 <= i < d.len() && d[i] == (q, c);
                    assert(m[i].0 != m[m.len() - 1].0);
                }
            }
            assert forall|q: Seq<char>, c: bool| entry(r, q, c) <==> (if q == p {
                c == b
            } else {
                entry(m, q, c)
            }) by {
                lemma_entry_push(d, (p, b), q, c);
            }
            assert forall|i: int, j: int| 0 <= i < j < r.len() implies #[trigger] r[i].0
                != #[trigger] r[j].0 by {
                if j == d.len() {
                    assert(r[i] == m[i]);
                    assert(m[i].0 != m[m.len() - 1].0);
                } else {
                    assert(r[i] == m[i] && r[j] == m[j]);
                }
            }
        } else if has_pkg(d, p) {
            lemma_pkg_insert(d, p, b);
            let r0 = pkg_insert(d, p, b);
            assert forall|q: Seq<char>, c: bool| entry(r, q, c) <==> (if q == p {
                c == b
            } else {
                entry(m, q, c)
            }) by {
                lemma_entry_push(r0, x, q, c);
            }
            assert forall|i: int, j: int| 0 <= i < j < r.len() implies #[trigger] r[i].0
                != #[trigger] r[j].0 by {
                if j == r0.len() {
                    assert(r[j] == x);
                    assert(entry(r0, r[i].0, r[i].1)) by {
                        assert(r0[i] == r[i]);
                    }
                    if r[i].0 != p {
                        assert(entry(d, r[i].0, r[i].1));
                        let k = choose|k: int| 0 <= k < d.len() && d[k] == (r[i].0, r[i].1);
                        assert(m[k].0 != m[m.len() - 1].0);
                    }
                } else {
                    assert(r[i] == r0[i] && r[j] == r0[j]);
                }
            }
        } else {
            assert forall|q: Seq<char>, c: bool| entry(r, q, c) <==> (if q == p {
                c == b
            } else {
                entry(m, q, c)
            }) by {
                lemma_entry_push(m, (p, b), q, c);
                if entry(m, p, c) {
                    let i = choose|i: int| 0 <= i < m.len() && m[i] == (p, c);
                    if i < d.len() {
                        assert(d[i].0 == p);
                        assert(has_pkg(d, p));
                    }
                }
            }
            assert forall|i: int, j: int| 0 <= i < j < r.len() implies #[trigger] r[i].0
                != #[trigger] r[j].0 by {
                if j == m.len() {
                    assert(r[i] == m[i]);
                    if i < d.len() {
                        assert(d[i] == m[i]);
                        if m[i].0 == p {
                            assert(has_pkg(d, p));
                        }
                    }
                } else {
                    assert(r[i] == m[i] && r[j] == m[j]);
                }
            }
        }
    }
}

/// The packages a scan records are exactly those with a package-level event,
/// each once and with the result of its last such event.
pub proof fn law_go_packages(es: Seq<EventView>)
    ensures
        keys_distinct(json_scan(es).packages),
        forall|q: Seq<char>, c: bool|
            entry(json_scan(es).packages, q, c) <==> final_result(es, q) == Some(c),
    decreases es.len(),
{
    if es.len() > 0 {
        law_go_packages(es.drop_last());
        let st = json_scan(es.drop_last());
        let e = es.last();
        reveal_strlit("pass");
        reveal_strlit("fail");
        assert("pass"@[0] != "fail"@[0]);
        match package_result(e) {
            Some((p, b)) => {
                lemma_pkg_insert(st.packages, p, b);
                assert(json_scan(es).packages == pkg_insert(st.packages, p, b));
            },
            None => {
                assert(json_scan(es).packages == st.packages);
            },
        }
    }
}

/// For package lists without repeats, the number of entries with result `b`
/// is the number of packages with that result.
proof fn lemma_count_status(m: Seq<(Seq<char>, bool)>, b: bool)
    requires
        keys_distinct(m),
    ensures
        Set::new(|q: Seq<char>| entry(m, q, b)).finite(),
        count_status(m, b) == Set::new(|q: Seq<char>| entry(m, q, b)).len(),
    decreases m.len(),
{
    broadcast use vstd::set::group_set_axioms;

    let st = Set::new(|q: Seq<char>| entry(m, q, b));
    if m.len() == 0 {
        assert(st =~= Set::<Seq<char>>::empty());
    } else {
        let d = m.drop_last();
        let x = m.last();
        assert(keys_distinct(d)) by {
            assert forall|i: int, j: int| 0 <= i < j < d.len() implies #[trigger] d[i].0
                != #[trigger] d[j].0 by {
                assert(d[i] == m[i] && d[j] == m[j]);
            }
        }
        lemma_count_status(d, b);
        let sd = Set::new(|q: Seq<char>| entry(d, q, b));
        assert forall|q: Seq<char>| entry(m, q, b) <==> entry(d, q, b) || x == (q, b) by {
            lemma_entry_push(d, x, q, b);
            assert(d.push(x) =~= m);
        }
        if x.1 == b {
            assert(st =~= sd.insert(x.0));
            assert(!sd.contains(x.0)) by {
                if entry(d, x.0, b) {
                    let i = choose|i: int| 0 <= i < d.len() && d[i] == (x.0, b);
                    assert(m[i].0 != m[m.len() - 1].0);
                }
            }
        } else {
            assert(st =~= sd);
        }
    }
}

/// The `Packages:` line of a `go test -json` summary counts each package by
/// its last package-level event: passed are the packages whose last such
/// event is `pass`, failed those whose last is `fail`.
pub proof fn law_go_packages_line(es: Seq<EventView>, p: Seq<char>)
    requires
        final_result(es, p) is Some,
    ensures
        packages_ending(es, true).finite(),
        packages_ending(es, false).finite(),
        is_prefix(
            "Packages: "@ + decimal(packages_ending(es, true).len()) + " passed, "@ + decimal(
                packages_ending(es, false).len(),
            ) + " failed"@,
            go_test_json(es),
        ),
{
    law_go_packages(es);
    let m = json_scan(es).packages;
    lemma_count_status(m, true);
    lemma_count_status(m, false);
    assert(Set::new(|q: Seq<char>| entry(m, q, true)) =~= packages_ending(es, true));
    assert(Set::new(|q: Seq<char>| entry(m, q, false)) =~= packages_ending(es, false));
    let c = final_result(es, p)->0;
    assert(entry(m, p, c));
    assert(m.len() > 0);
    let s = go_summary(json_scan(es));
    assert(s.len() > 0);
    lemma_join_prefix(s, "\n"@);
}

/// File `f` is among the listed entries.
pub open spec fn listed(top: Seq<Group>, f: Seq<char>) -> bool {
    exists|i: int| 0 <= i < top.len() && #[trigger] top[i].0 == f
}

/// `top` lists the files of `files` with the most matches: as many as there
/// are distinct files, up to five; by non-increasing count; each with its
/// number of matches; and no file left out has more matches than a listed one.
pub open spec fn top_files(files: Seq<Seq<char>>, top: Seq<Group>) -> bool {
    &&& top.len() == if files.to_set().len() > 5 {
        5
    } else {
        files.to_set().len()
    }
    &&& forall|i: int, j: int| 0 <= i < j < top.len() ==> top[i].1 >= top[j].1
    &&& forall|i: int|
        0 <= i < top.len() ==> files.contains(#[trigger] top[i].0) && top[i].1 == occurrences(
            files,
            top[i].0,
        )
    &&& forall|f: Seq<char>, i: int|
        files.contains(f) && !listed(top, f) && 0 <= i < top.len() ==> #[trigger] occurrences(
            files,
            f,
        ) <= #[trigger] top[i].1
}

proof fn lemma_insert_desc_contains(s: Seq<Group>, e: Group)
    ensures
        insert_desc(s, e).len() == s.len() + 1,
        forall|x: Group| insert_desc(s, e).contains(x) <==> s.contains(x) || x == e,
    decreases s.len(),
{
    if s.len() == 0 {
        assert(insert_desc(s, e) =~= seq![e]);
        assert forall|x: Group| insert_desc(s, e).contains(x) <==> s.contains(x) || x == e by {
            if x == e {
                assert(insert_desc(s, e)[0] == e);
            }
        }
    } else if s.last().1 >= e.1 {
        assert forall|x: Group| insert_desc(s, e).contains(x) <==> s.contains(x) || x == e by {
            if s.contains(x) {
                let i = choose|i: int| 0 <= i < s.len() && s[i] == x;
                assert(s.push(e)[i] == x);
            }
            if x == e {
                assert(s.push(e)[s.len() as int] == e);
            }
            if s.push(e).contains(x) {
                let i = choose|i: int| 0 <= i < s.push(e).len() && s.push(e)[i] == x;
                if i < s.len() {
                    assert(s[i] == x);
                }
            }
        }
    } else {
        let d = s.drop_last();
        lemma_insert_desc_contains(d, e);
        let r0 = insert_desc(d, e);
        assert forall|x: Group| insert_desc(s, e).contains(x) <==> s.contains(x) || x == e by {
            if s.contains(x) {
                let i = choose|i: int| 0 <= i < s.len() && s[i] == x;
                if i < d.len() {
                    assert(d[i] == x);
                    assert(d.contains(x));
                    let k = choose|k: int| 0 <= k < r0.len() && r0[k] == x;
                    assert(r0.push(s.last())[k] == x);
                } else {
                    assert(r0.push(s.last())[r0.len() as int] == x);
                }
            }
            if x == e {
                assert(r0.contains(e));
                let k = choose|k: int| 0 <= k < r0.len() && r0[k] == e;
                assert(r0.push(s.last())[k] == e);
            }
            if r0.push(s.last()).contains(x) {
                let i = choose|i: int| 0 <= i < r0.push(s.last()).len() && r0.push(s.last())[i] == x;
                if i < r0.len() {
                    assert(r0[i] == x);
                    assert(r0.contains(x));
                    if d.contains(x) {
                        let k = choose|k: int| 0 <= k < d.len() && d[k] == x;
                        assert(s[k] == x);
                    }
                } else {
                    assert(s[s.len() - 1] == x);
                }
            }
        }
    }
}

proof fn lemma_sort_desc_contains(es: Seq<Group>)
    ensures
        sort_desc(es).len() == es.len(),
        forall|x: Group| sort_desc(es).contains(x) <==> es.contains(x),
    decreases es.len(),
{
    if es.len() > 0 {
        let d = es.drop_last();
        lemma_sort_desc_contains(d);
        lemma_insert_desc_contains(sort_desc(d), es.last());
        assert forall|x: Group| sort_desc(es).contains(x) <==> es.contains(x) by {
            if es.contains(x) {
                let i = choose|i: int| 0 <= i < es.len() && es[i] == x;
                if i < d.len() {
                    assert(d[i] == x);
                }
            }
            if d.contains(x) {
                let i = choose|i: int| 0 <= i < d.len() && d[i] == x;
                assert(es[i] == x);
            }
        }
    } else {
        assert forall|x: Group| sort_desc(es).contains(x) <==> es.contains(x) by {}
    }
}

/// The per-file part of a grep summary lists the files with the most
/// matches, by non-increasing count: up to five files, each with its number
/// of matches, and no file left out has more matches than a listed one.
pub proof fn law_grep_top_files(output: Seq<char>)
    requires
        output.len() > 0,
        grep_total(lines_of(output)) > 0,
        grep_files(lines_of(output)).len() > 0,
    ensures
        exists|top: Seq<Group>|
            #[trigger] top_files(grep_files(lines_of(output)), top) && is_suffix(
                join(render_kvs(top, ""@), "\n"@),
                grep_stats(output),
            ),
{
    let files = grep_files(lines_of(output));
    let t = tally(files);
    let sorted = sort_desc(t);
    let top = first_n(sorted, 5);
    let dd = distinct(files);
    lemma_distinct(files);
    lemma_distinct_count(files);
    lemma_sort_desc_contains(t);
    crate::laws::law_sort_desc_sorted(t);
    assert(files.contains(files[0]));
    assert(dd.contains(files[0]));
    assert(sorted.len() > 0);
    // Every entry of the tally is a file with its count, and every file has
    // its entry.
    assert forall|x: Group| t.contains(x) implies files.contains(x.0) && x.1 == occurrences(
        files,
        x.0,
    ) by {
        let k = choose|k: int| 0 <= k < t.len() && t[k] == x;
        assert(dd.contains(dd[k]));
    }
    assert forall|f: Seq<char>| files.contains(f) implies t.contains((f, occurrences(files, f))) by {
        assert(dd.contains(f));
        let k = choose|k: int| 0 <= k < dd.len() && dd[k] == f;
        assert(t[k] == (f, occurrences(files, f)));
    }
    assert forall|i: int| 0 <= i < top.len() implies files.contains(#[trigger] top[i].0)
        && top[i].1 == occurrences(files, top[i].0) by {
        assert(top[i] == sorted[i]);
        assert(sorted.contains(sorted[i]));
        assert(t.contains(sorted[i]));
        let k = choose|k: int| 0 <= k < t.len() && t[k] == sorted[i];
        assert(dd.contains(dd[k]));
    }
    assert forall|f: Seq<char>, i: int|
        files.contains(f) && !listed(top, f) && 0 <= i < top.len() implies #[trigger] occurrences(
        files,
        f,
    ) <= #[trigger] top[i].1 by {
        assert(sorted.contains((f, occurrences(files, f))));
        let j = choose|j: int| 0 <= j < sorted.len() && sorted[j] == (f, occurrences(files, f));
        if j < top.len() {
            assert(top[j].0 == f);
        }
        assert(top[i] == sorted[i]);
    }
    assert(top_files(files, top));
    let head = decimal(grep_total(lines_of(output))) + " matches"@ + " "@ + "in "@ + decimal(
        sorted.len(),
    ) + " file"@ + (if sorted.len() > 1 {
        "s"@
    } else {
        ""@
    }) + " "@ + "\n"@;
    let body = join(render_kvs(top, ""@), "\n"@);
    assert(grep_stats(output) == head + body);
    assert((head + body).subrange(head.len() as int, (head + body).len() as int) =~= body);
}

} // verus!
