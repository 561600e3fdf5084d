//! `go` output, summarized per subcommand.

use crate::commands::git::context_command;
use crate::commands::CommandModule;
use crate::filter::error_only::{error_only, error_only_exec, first_n};
use crate::filter::ErrorOnly;
use crate::text::{
    contains_str, copy, decimal, eq_str, from_chars, has_sub, is_prefix, join, join_str,
    lemma_views_push, lines, lines_of, lower, lowercase, push_all, push_decimal, push_str,
    split_whitespace, starts_with_str, str_lines, strip_all_prefix, strip_all_prefix_exec,
    take_pieces, to_chars, trim, trim_of, views, words,
};
use crate::json::{
    number_field_ok, number_field_ok_exec, record_field, record_field_exec, record_shape,
    record_shape_exec, string_field, string_field_exec, string_field_ok, string_field_ok_exec,
};
use crate::{Context, ContextView, RtkError};
use vstd::prelude::*;

verus! {

/// Compression module for `go`.
pub struct GoModule {
    error_strategy: ErrorOnly,
}

/// What the summary reads of one `go test -json` event.
pub struct GoTestEvent {
    pub action: Option<String>,
    pub test: Option<String>,
    pub package: Option<String>,
}

// ---------------------------------------------------------------------
// Specification
// ---------------------------------------------------------------------

/// The contents of an optional string.
pub open spec fn opt_str(o: Option<String>) -> Option<Seq<char>> {
    match o {
        Some(s) => Some(s@),
        None => None,
    }
}

/// An event as its action, test and package.
pub open spec fn event_view(e: GoTestEvent) -> (Option<Seq<char>>, Option<Seq<char>>, Option<Seq<char>>) {
    (opt_str(e.action), opt_str(e.test), opt_str(e.package))
}

/// The events of a vector.
pub open spec fn events_view(es: Seq<GoTestEvent>) -> Seq<(Option<Seq<char>>, Option<Seq<char>>, Option<Seq<char>>)> {
    Seq::new(es.len(), |i: int| event_view(es[i]))
}

/// `m` has an entry for package `p`.
pub open spec fn has_pkg(m: Seq<(Seq<char>, bool)>, p: Seq<char>) -> bool {
    exists|i: int| 0 <= i < m.len() && #[trigger] m[i].0 == p
}

/// `m` with the status of package `p` set to `pass`: its entry changed in
/// place, or a new entry at the end.
pub open spec fn pkg_insert(m: Seq<(Seq<char>, bool)>, p: Seq<char>, pass: bool) -> Seq<(Seq<char>, bool)>
    decreases m.len(),
{
    if m.len() == 0 {
        seq![(p, pass)]
    } else if m.last().0 == p {
        m.drop_last().push((p, pass))
    } else if has_pkg(m.drop_last(), p) {
        pkg_insert(m.drop_last(), p, pass).push(m.last())
    } else {
        m.push((p, pass))
    }
}

/// The number of packages whose status is `pass`.
pub open spec fn count_status(m: Seq<(Seq<char>, bool)>, pass: bool) -> nat
    decreases m.len(),
{
    if m.len() == 0 {
        0
    } else {
        count_status(m.drop_last(), pass) + if m.last().1 == pass {
            1nat
        } else {
            0nat
        }
    }
}

/// What a scan of test results has found so far.
pub struct GoScan {
    pub passed: nat,
    pub failed: nat,
    pub skipped: nat,
    pub failed_tests: Seq<Seq<char>>,
    /// Package results: each package with whether it passed.
    pub packages: Seq<(Seq<char>, bool)>,
}

/// The scan before any result.
pub open spec fn go_start() -> GoScan {
    GoScan { passed: 0, failed: 0, skipped: 0, failed_tests: Seq::empty(), packages: Seq::empty() }
}

/// The scan after one JSON event.
pub open spec fn json_step(
    st: GoScan,
    e: (Option<Seq<char>>, Option<Seq<char>>, Option<Seq<char>>),
) -> GoScan {
    match e.0 {
        Some(a) => if a == "pass"@ {
            if e.1 is Some {
                GoScan { passed: st.passed + 1, ..st }
            } else if e.2 is Some {
                GoScan { packages: pkg_insert(st.packages, e.2->0, true), ..st }
            } else {
                st
            }
        } else if a == "fail"@ {
            if e.1 is Some {
                GoScan { failed: st.failed + 1, failed_tests: st.failed_tests.push(e.1->0), ..st }
            } else if e.2 is Some {
                GoScan { packages: pkg_insert(st.packages, e.2->0, false), ..st }
            } else {
                st
            }
        } else if a == "skip"@ {
            GoScan { skipped: st.skipped + 1, ..st }
        } else {
            st
        },
        None => st,
    }
}

/// The scan over a list of events.
pub open spec fn json_scan(es: Seq<(Option<Seq<char>>, Option<Seq<char>>, Option<Seq<char>>)>) -> GoScan
    decreases es.len(),
{
    if es.len() == 0 {
        go_start()
    } else {
        json_step(json_scan(es.drop_last()), es.last())
    }
}

/// The package named by an `ok`/`FAIL` result line.
pub open spec fn package_word(t: Seq<char>) -> Option<Seq<char>> {
    if words(t).len() >= 2 {
        Some(words(t)[1])
    } else {
        None
    }
}

/// The scan after one line of plain `go test` output.
pub open spec fn text_step(st: GoScan, line: Seq<char>) -> GoScan {
    let t = trim(line);
    let st1 = if is_prefix("--- PASS:"@, t) {
        GoScan { passed: st.passed + 1, ..st }
    } else if is_prefix("--- FAIL:"@, t) {
        GoScan {
            failed: st.failed + 1,
            failed_tests: st.failed_tests.push(trim(strip_all_prefix(t, "--- FAIL:"@))),
            ..st
        }
    } else if is_prefix("--- SKIP:"@, t) {
        GoScan { skipped: st.skipped + 1, ..st }
    } else {
        st
    };
    if is_prefix("ok "@, t) && package_word(t) is Some {
        GoScan { packages: st1.packages.push((package_word(t)->0, true)), ..st1 }
    } else if !is_prefix("ok "@, t) && is_prefix("FAIL\t"@, t) && package_word(t) is Some {
        GoScan { packages: st1.packages.push((package_word(t)->0, false)), ..st1 }
    } else {
        st1
    }
}

/// The scan over lines of plain output.
pub open spec fn text_scan(ls: Seq<Seq<char>>) -> GoScan
    decreases ls.len(),
{
    if ls.len() == 0 {
        go_start()
    } else {
        text_step(text_scan(ls.drop_last()), ls.last())
    }
}

/// At most `k` items, each after `prefix`, then how many more there are.
pub open spec fn capped(items: Seq<Seq<char>>, k: nat, prefix: Seq<char>) -> Seq<Seq<char>> {
    Seq::new(first_n(items, k).len(), |i: int| prefix + first_n(items, k)[i]) + if items.len() > k {
        seq!["  ... and "@ + decimal((items.len() - k) as nat) + " more"@]
    } else {
        Seq::empty()
    }
}

/// The summary lines of a scan: package counts, test counts, failed tests.
pub open spec fn go_summary(st: GoScan) -> Seq<Seq<char>> {
    (if st.packages.len() > 0 {
        seq![
            "Packages: "@ + decimal(count_status(st.packages, true)) + " passed, "@ + decimal(
                count_status(st.packages, false),
            ) + " failed"@,
        ]
    } else {
        Seq::empty()
    }) + (if st.passed > 0 || st.failed > 0 || st.skipped > 0 {
        seq![
            "Tests: "@ + decimal(st.passed) + " passed, "@ + decimal(st.failed) + " failed, "@
                + decimal(st.skipped) + " skipped"@,
        ]
    } else {
        Seq::empty()
    }) + (if st.failed_tests.len() > 0 {
        seq![Seq::empty(), "Failed tests:"@] + capped(st.failed_tests, 10, "  - "@)
    } else {
        Seq::empty()
    })
}

/// Summary of parsed `go test -json` events.
pub open spec fn go_test_json(es: Seq<(Option<Seq<char>>, Option<Seq<char>>, Option<Seq<char>>)>) -> Seq<char> {
    let s = go_summary(json_scan(es));
    if s.len() == 0 {
        "(no test output)"@
    } else {
        join(s, "\n"@)
    }
}

/// Summary of plain `go test` output; output without results is kept.
pub open spec fn go_test_text(output: Seq<char>) -> Seq<char> {
    let s = go_summary(text_scan(lines_of(output)));
    if s.len() > 0 {
        join(s, "\n"@)
    } else if trim(output).len() == 0 {
        "(no test output)"@
    } else {
        output
    }
}

/// A build output line that reports an error.
pub open spec fn is_build_error(l: Seq<char>) -> bool {
    let low = lowercase(l);
    has_sub(low, "error:"@) || has_sub(low, "error["@) || has_sub(low, ": error"@) || (has_sub(
        l,
        ".go:"@,
    ) && has_sub(low, " error"@)) || has_sub(low, "undefined:"@) || has_sub(low, "syntax error"@)
        || has_sub(low, "invalid syntax"@) || has_sub(low, "cannot find"@) || has_sub(
        low,
        "not declared"@,
    ) || has_sub(low, "not used"@)
}

/// A build output line that reports a warning.
pub open spec fn is_build_warning(l: Seq<char>) -> bool {
    let low = lowercase(l);
    has_sub(low, "warning:"@) || has_sub(low, "warn["@) || has_sub(low, "deprecated"@)
}

/// The error lines of build output.
pub open spec fn build_errors(ls: Seq<Seq<char>>) -> Seq<Seq<char>>
    decreases ls.len(),
{
    if ls.len() == 0 {
        Seq::empty()
    } else if is_build_error(ls.last()) {
        build_errors(ls.drop_last()).push(ls.last())
    } else {
        build_errors(ls.drop_last())
    }
}

/// The warning lines (that are no errors) of build output.
pub open spec fn build_warnings(ls: Seq<Seq<char>>) -> Seq<Seq<char>>
    decreases ls.len(),
{
    if ls.len() == 0 {
        Seq::empty()
    } else if !is_build_error(ls.last()) && is_build_warning(ls.last()) {
        build_warnings(ls.drop_last()).push(ls.last())
    } else {
        build_warnings(ls.drop_last())
    }
}

/// Summary of `go build` output: its errors and warnings.
pub open spec fn go_build(output: Seq<char>) -> Seq<char> {
    let ls = lines_of(output);
    let es = build_errors(ls);
    let ws = build_warnings(ls);
    if trim(output).len() == 0 {
        "(build succeeded)"@
    } else if es.len() == 0 && ws.len() == 0 {
        if has_sub(lowercase(output), "build failed"@) || has_sub(lowercase(output), "cannot find"@) {
            error_only(output)
        } else {
            "(build succeeded)"@
        }
    } else {
        let ep = if es.len() > 0 {
            seq![decimal(es.len()) + " error(s):"@] + capped(es, 20, "  "@)
        } else {
            Seq::empty()
        };
        let wp = if ws.len() > 0 {
            (if ep.len() > 0 {
                seq![Seq::empty()]
            } else {
                Seq::empty()
            }) + seq![decimal(ws.len()) + " warning(s):"@] + capped(ws, 10, "  "@)
        } else {
            Seq::empty()
        };
        join(ep + wp, "\n"@)
    }
}

/// The lines of vet output that report an issue.
pub open spec fn vet_issues(ls: Seq<Seq<char>>) -> Seq<Seq<char>>
    decreases ls.len(),
{
    if ls.len() == 0 {
        Seq::empty()
    } else if has_sub(ls.last(), ".go:"@) && trim(ls.last()).len() > 0 {
        vet_issues(ls.drop_last()).push(ls.last())
    } else {
        vet_issues(ls.drop_last())
    }
}

/// Summary of `go vet` output.
pub open spec fn go_vet(output: Seq<char>) -> Seq<char> {
    let is = vet_issues(lines_of(output));
    if trim(output).len() == 0 || is.len() == 0 {
        "(no issues)"@
    } else {
        join(seq![decimal(is.len()) + " issue(s) found:"@] + capped(is, 20, "  "@), "\n"@)
    }
}

/// Summary of `go mod` output: its first five lines on success.
pub open spec fn go_mod(output: Seq<char>, exit_code: i32) -> Seq<char> {
    if exit_code == 0 {
        if trim(output).len() == 0 {
            "(success)"@
        } else {
            join(first_n(lines_of(output), 5), "\n"@)
        }
    } else {
        error_only(output)
    }
}

/// The first line of `go version` output.
pub open spec fn go_version(output: Seq<char>) -> Seq<char> {
    let ls = lines_of(output);
    let v = if ls.len() > 0 {
        trim(ls[0])
    } else {
        Seq::empty()
    };
    if v.len() == 0 {
        "(no version info)"@
    } else {
        v
    }
}

/// The number of non-blank lines.
pub open spec fn nonblank_count(ls: Seq<Seq<char>>) -> nat
    decreases ls.len(),
{
    if ls.len() == 0 {
        0
    } else {
        nonblank_count(ls.drop_last()) + if trim(ls.last()).len() > 0 {
            1nat
        } else {
            0nat
        }
    }
}

/// Summary of `go fmt` output: how many files it formatted.
pub open spec fn go_fmt(output: Seq<char>, exit_code: i32) -> Seq<char> {
    if exit_code == 0 {
        let n = nonblank_count(lines_of(output));
        if trim(output).len() == 0 || n == 0 {
            Seq::empty()
        } else {
            decimal(n) + " file(s) formatted"@
        }
    } else {
        error_only(output)
    }
}

/// Summary of `go run` output: kept up to twenty lines, else its first
/// fifteen lines and how many more there are.
pub open spec fn go_run(output: Seq<char>, exit_code: i32) -> Seq<char> {
    let ls = lines_of(output);
    if exit_code == 0 {
        if ls.len() == 0 {
            "(no output)"@
        } else if ls.len() <= 20 {
            output
        } else {
            join(ls.take(15), "\n"@) + "\n... ("@ + decimal((ls.len() - 15) as nat) + " more lines)"@
        }
    } else {
        error_only(output)
    }
}

/// The go subcommand of a command line.
pub open spec fn go_subcommand(command: Seq<char>) -> Option<Seq<char>> {
    let p = words(command);
    if p.len() >= 2 && p[0] == "go"@ {
        Some(p[1])
    } else {
        None
    }
}

/// The output is `go test -json` output, read as parsed events.
pub open spec fn go_json_route(context: ContextView) -> bool {
    match context_command(context) {
        Some(c) => go_subcommand(c) == Some("test"@) && has_sub(c, "-json"@),
        None => false,
    }
}

/// An event as its action, test and package.
pub type EventView = (Option<Seq<char>>, Option<Seq<char>>, Option<Seq<char>>);

/// The event a line of `go test -json` output holds: a record with the
/// fields `Time`, `Test`, `Package`, `Action` and `Output` (each absent,
/// `null` or a string) and `Elapsed` (absent, `null` or a number), read from
/// an object or from an array of exactly those six fields in that order.
pub open spec fn go_event(line: Seq<char>) -> Option<EventView> {
    match record_shape(line, 6) {
        Some(obj) => {
            let time = record_field(line, obj, "Time"@, 0);
            let test = record_field(line, obj, "Test"@, 1);
            let package = record_field(line, obj, "Package"@, 2);
            let action = record_field(line, obj, "Action"@, 3);
            let output = record_field(line, obj, "Output"@, 4);
            let elapsed = record_field(line, obj, "Elapsed"@, 5);
            if string_field_ok(time) && string_field_ok(test) && string_field_ok(package)
                && string_field_ok(action) && string_field_ok(output) && number_field_ok(elapsed) {
                Some((string_field(action), string_field(test), string_field(package)))
            } else {
                None
            }
        },
        None => None,
    }
}

/// The events of the lines that hold one, in order; blank lines are skipped.
pub open spec fn line_events(ls: Seq<Seq<char>>) -> Seq<EventView>
    decreases ls.len(),
{
    if ls.len() == 0 {
        Seq::empty()
    } else {
        let rest = line_events(ls.drop_last());
        if trim(ls.last()).len() == 0 {
            rest
        } else {
            match go_event(ls.last()) {
                Some(e) => rest.push(e),
                None => rest,
            }
        }
    }
}

/// The events of `go test -json` output.
pub open spec fn go_events(output: Seq<char>) -> Seq<EventView> {
    line_events(lines_of(output))
}

/// What the go module makes of `output`.
pub open spec fn go_compress(output: Seq<char>, context: ContextView) -> Seq<char> {
    let sub = match context_command(context) {
        Some(c) => go_subcommand(c),
        None => None,
    };
    if sub == Some("test"@) {
        if go_json_route(context) {
            go_test_json(go_events(output))
        } else {
            go_test_text(output)
        }
    } else if sub == Some("build"@) {
        go_build(output)
    } else if sub == Some("vet"@) {
        go_vet(output)
    } else if sub == Some("mod"@) {
        go_mod(output, context.exit_code)
    } else if sub == Some("version"@) {
        go_version(output)
    } else if sub == Some("fmt"@) {
        go_fmt(output, context.exit_code)
    } else if sub == Some("run"@) {
        go_run(output, context.exit_code)
    } else {
        error_only(output)
    }
}

// ---------------------------------------------------------------------
// Lemmas
// ---------------------------------------------------------------------

proof fn lemma_pkg_insert_at(m: Seq<(Seq<char>, bool)>, p: Seq<char>, pass: bool, k: int)
    requires
        0 <= k < m.len(),
        m[k].0 == p,
        forall|i: int| k < i < m.len() ==> m[i].0 != p,
    ensures
        pkg_insert(m, p, pass) == m.update(k, (p, pass)),
    decreases m.len(),
{
    if k == m.len() - 1 {
        assert(m.drop_last().push((p, pass)) =~= m.update(k, (p, pass)));
    } else {
        assert(m.drop_last()[k].0 == p);
        lemma_pkg_insert_at(m.drop_last(), p, pass, k);
        assert(m.drop_last().update(k, (p, pass)).push(m.last()) =~= m.update(k, (p, pass)));
    }
}

proof fn lemma_pkg_insert_new(m: Seq<(Seq<char>, bool)>, p: Seq<char>, pass: bool)
    requires
        forall|i: int| 0 <= i < m.len() ==> m[i].0 != p,
    ensures
        pkg_insert(m, p, pass) == m.push((p, pass)),
{
    if m.len() > 0 {
        assert(!has_pkg(m.drop_last(), p)) by {
            if has_pkg(m.drop_last(), p) {
                let i = choose|i: int| 0 <= i < m.drop_last().len() && #[trigger] m.drop_last()[i].0 == p;
                assert(m[i].0 == p);
            }
        }
    } else {
        assert(seq![(p, pass)] =~= m.push((p, pass)));
    }
}

// ---------------------------------------------------------------------
// Executable
// ---------------------------------------------------------------------

/// Appends at most `k` items after `prefix`, then how many more there are.
fn push_capped(parts: &mut Vec<Vec<char>>, items: &Vec<Vec<char>>, k: usize, prefix: &str)
    ensures
        views(final(parts)@) == views(old(parts)@) + capped(views(items@), k as nat, prefix@),
{
    let ghost base = views(parts@);
    let ghost iv = views(items@);
    let shown = take_pieces(items, k);
    let mut i: usize = 0;
    while i < shown.len()
        invariant
            i <= shown.len(),
            views(shown@) == first_n(iv, k as nat),
            iv == views(items@),
            views(parts@) == base + Seq::new(i as nat, |j: int| prefix@ + first_n(iv, k as nat)[j]),
        decreases shown.len() - i,
    {
        let mut l = to_chars(prefix);
        push_all(&mut l, &shown[i]);
        assert(views(shown@)[i as int] == shown@[i as int]@);
        let ghost q0 = parts@;
        parts.push(l);
        proof {
            lemma_views_push(q0, l);
        }
        assert(views(parts@) =~= base + Seq::new(
            (i + 1) as nat,
            |j: int| prefix@ + first_n(iv, k as nat)[j],
        ));
        i += 1;
    }
    if items.len() > k {
        let mut l = to_chars("  ... and ");
        push_decimal(&mut l, items.len() - k);
        push_str(&mut l, " more");
        let ghost q1 = parts@;
        parts.push(l);
        proof {
            lemma_views_push(q1, l);
        }
    }
    assert(views(parts@) =~= base + capped(iv, k as nat, prefix@));
}

/// The scan state held in executable values.
struct GoState {
    passed: usize,
    failed: usize,
    skipped: usize,
    failed_tests: Vec<Vec<char>>,
    pkg_names: Vec<Vec<char>>,
    pkg_pass: Vec<bool>,
}

impl GoState {
    spec fn scan(&self) -> GoScan {
        GoScan {
            passed: self.passed as nat,
            failed: self.failed as nat,
            skipped: self.skipped as nat,
            failed_tests: views(self.failed_tests@),
            packages: Seq::new(
                self.pkg_names.len() as nat,
                |i: int| (self.pkg_names@[i]@, self.pkg_pass@[i]),
            ),
        }
    }

    spec fn wf(&self) -> bool {
        self.pkg_names.len() == self.pkg_pass.len()
    }

    /// No count exceeds `n`.
    spec fn bounded(&self, n: nat) -> bool {
        self.passed <= n && self.failed <= n && self.skipped <= n && self.pkg_names.len() <= n
    }

    fn start() -> (r: Self)
        ensures
            r.wf(),
            r.scan() == go_start(),
            r.bounded(0),
    {
        let r = GoState {
            passed: 0,
            failed: 0,
            skipped: 0,
            failed_tests: Vec::new(),
            pkg_names: Vec::new(),
            pkg_pass: Vec::new(),
        };
        assert(views(r.failed_tests@) =~= Seq::<Seq<char>>::empty());
        assert(r.scan().packages =~= Seq::<(Seq<char>, bool)>::empty());
        r
    }

    /// Sets the status of a package, as a map insert.
    fn set_package(&mut self, p: &Vec<char>, pass: bool, Ghost(n): Ghost<nat>)
        requires
            old(self).wf(),
            old(self).bounded(n),
            n < usize::MAX,
        ensures
            final(self).wf(),
            final(self).scan() == (GoScan {
                packages: pkg_insert(old(self).scan().packages, p@, pass),
                ..old(self).scan()
            }),
            final(self).bounded(n + 1),
    {
        let ghost m = old(self).scan().packages;
        let mut j: usize = self.pkg_names.len();
        while j > 0 && !crate::text::eq_chars(&self.pkg_names[j - 1], p)
            invariant
                j <= self.pkg_names.len(),
                self.wf(),
                m == self.scan().packages,
                forall|i: int| j <= i < m.len() ==> m[i].0 != p@,
            decreases j,
        {
            j -= 1;
        }
        if j > 0 {
            proof {
                lemma_pkg_insert_at(m, p@, pass, j - 1);
            }
            self.pkg_pass.set(j - 1, pass);
            assert(self.scan().packages =~= m.update(j - 1, (p@, pass)));
        } else {
            proof {
                lemma_pkg_insert_new(m, p@, pass);
            }
            let c = copy(p);
            self.pkg_names.push(c);
            self.pkg_pass.push(pass);
            assert(self.scan().packages =~= m.push((p@, pass)));
        }
    }

    /// Appends a package result.
    fn push_package(&mut self, p: Vec<char>, pass: bool)
        requires
            old(self).wf(),
            old(self).pkg_names.len() < usize::MAX,
        ensures
            final(self).wf(),
            final(self).scan() == (GoScan {
                packages: old(self).scan().packages.push((p@, pass)),
                ..old(self).scan()
            }),
            final(self).passed == old(self).passed,
            final(self).failed == old(self).failed,
            final(self).skipped == old(self).skipped,
            final(self).pkg_names.len() == old(self).pkg_names.len() + 1,
    {
        let ghost m = self.scan().packages;
        self.pkg_names.push(p);
        self.pkg_pass.push(pass);
        assert(self.scan().packages =~= m.push((p@, pass)));
    }

    fn json_step(&mut self, e: &GoTestEvent, Ghost(n): Ghost<nat>)
        requires
            old(self).wf(),
            old(self).bounded(n),
            n < usize::MAX,
        ensures
            final(self).wf(),
            final(self).scan() == json_step(old(self).scan(), event_view(*e)),
            final(self).bounded(n + 1),
    {
        match &e.action {
            Some(a) => {
                let av = to_chars(a.as_str());
                if eq_str(&av, "pass") {
                    if e.test.is_some() {
                        self.passed = self.passed + 1;
                    } else {
                        match &e.package {
                            Some(p) => {
                                let pv = to_chars(p.as_str());
                                self.set_package(&pv, true, Ghost(n));
                            },
                            None => {},
                        }
                    }
                } else if eq_str(&av, "fail") {
                    match &e.test {
                        Some(t) => {
                            self.failed = self.failed + 1;
                            let tv = to_chars(t.as_str());
                            let ghost f0 = self.failed_tests@;
                            self.failed_tests.push(tv);
                            proof {
                                lemma_views_push(f0, tv);
                            }
                        },
                        None => match &e.package {
                            Some(p) => {
                                let pv = to_chars(p.as_str());
                                self.set_package(&pv, false, Ghost(n));
                            },
                            None => {},
                        },
                    }
                } else if eq_str(&av, "skip") {
                    self.skipped = self.skipped + 1;
                }
            },
            None => {},
        }
    }

    fn text_step(&mut self, line: &Vec<char>, Ghost(n): Ghost<nat>)
        requires
            old(self).wf(),
            old(self).bounded(n),
            n < usize::MAX,
        ensures
            final(self).wf(),
            final(self).scan() == text_step(old(self).scan(), line@),
            final(self).bounded(n + 1),
    {
        let t = trim_of(line);
        if starts_with_str(&t, "--- PASS:") {
            self.passed = self.passed + 1;
        } else if starts_with_str(&t, "--- FAIL:") {
            self.failed = self.failed + 1;
            let rest = strip_all_prefix_exec(&t, "--- FAIL:");
            let name = trim_of(&rest);
            let ghost f0 = self.failed_tests@;
            self.failed_tests.push(name);
            proof {
                lemma_views_push(f0, name);
            }
        } else if starts_with_str(&t, "--- SKIP:") {
            self.skipped = self.skipped + 1;
        }
        let ok = starts_with_str(&t, "ok ");
        if ok || starts_with_str(&t, "FAIL\t") {
            let ws = split_whitespace(&t);
            if ws.len() >= 2 {
                assert(views(ws@)[1] == ws@[1]@);
                let w = copy(&ws[1]);
                self.push_package(w, ok);
            }
        }
    }

    fn summary(&self) -> (r: Vec<Vec<char>>)
        requires
            self.wf(),
        ensures
            views(r@) == go_summary(self.scan()),
    {
        let ghost st = self.scan();
        let mut parts: Vec<Vec<char>> = Vec::new();
        if self.pkg_names.len() > 0 {
            let mut pass: usize = 0;
            let mut fail: usize = 0;
            let mut i: usize = 0;
            while i < self.pkg_pass.len()
                invariant
                    i <= self.pkg_pass.len(),
                    self.wf(),
                    st == self.scan(),
                    pass + fail == i,
                    pass == count_status(st.packages.take(i as int), true),
                    fail == count_status(st.packages.take(i as int), false),
                decreases self.pkg_pass.len() - i,
            {
                assert(st.packages.take(i + 1).drop_last() == st.packages.take(i as int));
                if self.pkg_pass[i] {
                    pass = pass + 1;
                } else {
                    fail = fail + 1;
                }
                i += 1;
            }
            assert(st.packages.take(self.pkg_pass.len() as int) == st.packages);
            let mut l = to_chars("Packages: ");
            push_decimal(&mut l, pass);
            push_str(&mut l, " passed, ");
            push_decimal(&mut l, fail);
            push_str(&mut l, " failed");
            parts.push(l);
        }
        let ghost p1 = views(parts@);
        if self.passed > 0 || self.failed > 0 || self.skipped > 0 {
            let mut l = to_chars("Tests: ");
            push_decimal(&mut l, self.passed);
            push_str(&mut l, " passed, ");
            push_decimal(&mut l, self.failed);
            push_str(&mut l, " failed, ");
            push_decimal(&mut l, self.skipped);
            push_str(&mut l, " skipped");
            let ghost q0 = parts@;
            parts.push(l);
            proof {
                lemma_views_push(q0, l);
            }
        }
        let ghost p2 = views(parts@);
        if self.failed_tests.len() > 0 {
            parts.push(Vec::new());
            parts.push(to_chars("Failed tests:"));
            assert(views(parts@) =~= p2 + seq![Seq::<char>::empty(), "Failed tests:"@]);
            push_capped(&mut parts, &self.failed_tests, 10, "  - ");
        }
        assert(views(parts@) =~= go_summary(st));
        parts
    }
}

impl GoModule {
    pub fn new() -> (r: Self) {
        Self { error_strategy: ErrorOnly }
    }

    /// The go subcommand of a command line.
    fn detect_subcommand(&self, command: &str) -> (r: Option<Vec<char>>)
        ensures
            crate::text::opt_chars(r) == go_subcommand(command@),
    {
        let cv = to_chars(command);
        let p = split_whitespace(&cv);
        if p.len() >= 2 && eq_str(&p[0], "go") {
            assert(views(p@)[0] == p@[0]@);
            assert(views(p@)[1] == p@[1]@);
            Some(copy(&p[1]))
        } else {
            None
        }
    }

    /// Summary of parsed `go test -json` events.
    pub fn compress_json(&self, events: &Vec<GoTestEvent>) -> (r: String)
        ensures
            r@ == go_test_json(events_view(events@)),
    {
        let ghost ev = events_view(events@);
        let mut st = GoState::start();
        let mut i: usize = 0;
        while i < events.len()
            invariant
                i <= events.len(),
                ev == events_view(events@),
                st.wf(),
                st.scan() == json_scan(ev.take(i as int)),
                st.bounded(i as nat),
            decreases events.len() - i,
        {
            assert(ev.take(i + 1).drop_last() == ev.take(i as int));
            st.json_step(&events[i], Ghost(i as nat));
            i += 1;
        }
        assert(ev.take(events.len() as int) == ev);
        let s = st.summary();
        if s.len() == 0 {
            return String::from_str("(no test output)");
        }
        let r = join_str(&s, "\n");
        from_chars(&r)
    }

    /// The event a line of `go test -json` output holds (see `go_event`).
    pub fn parse_event(line: &str) -> (r: Option<GoTestEvent>)
        ensures
            match r {
                Some(e) => go_event(line@) == Some(event_view(e)),
                None => go_event(line@) is None,
            },
    {
        let obj = record_shape_exec(line, 6)?;
        let time = record_field_exec(line, obj, "Time", 0);
        let test = record_field_exec(line, obj, "Test", 1);
        let package = record_field_exec(line, obj, "Package", 2);
        let action = record_field_exec(line, obj, "Action", 3);
        let output = record_field_exec(line, obj, "Output", 4);
        let elapsed = record_field_exec(line, obj, "Elapsed", 5);
        if string_field_ok_exec(&time) && string_field_ok_exec(&test) && string_field_ok_exec(
            &package,
        ) && string_field_ok_exec(&action) && string_field_ok_exec(&output)
            && number_field_ok_exec(&elapsed) {
            Some(
                GoTestEvent {
                    action: string_field_exec(&action),
                    test: string_field_exec(&test),
                    package: string_field_exec(&package),
                },
            )
        } else {
            None
        }
    }

    /// The events of `go test -json` output (see `go_events`).
    pub fn parse_events(output: &str) -> (r: Vec<GoTestEvent>)
        ensures
            events_view(r@) == go_events(output@),
    {
        let ls = str_lines(output);
        let ghost lv = views(ls@);
        let mut es: Vec<GoTestEvent> = Vec::new();
        let mut i: usize = 0;
        while i < ls.len()
            invariant
                i <= ls.len(),
                lv == views(ls@),
                lv == lines_of(output@),
                events_view(es@) == line_events(lv.take(i as int)),
            decreases ls.len() - i,
        {
            assert(lv.take(i + 1).drop_last() == lv.take(i as int));
            assert(lv.take(i + 1).last() == ls@[i as int]@);
            let t = trim_of(&ls[i]);
            if t.len() > 0 {
                let line = from_chars(&ls[i]);
                match Self::parse_event(line.as_str()) {
                    Some(e) => {
                        let ghost old_es = es@;
                        es.push(e);
                        assert(events_view(es@) =~= events_view(old_es).push(event_view(e)));
                    },
                    None => {},
                }
            }
            i += 1;
        }
        assert(lv.take(ls.len() as int) == lv);
        es
    }

    /// Summary of plain `go test` output.
    fn parse_go_test_text(&self, output: &str) -> (r: String)
        ensures
            r@ == go_test_text(output@),
    {
        let v = to_chars(output);
        let ls = lines(&v);
        let ghost lv = views(ls@);
        let mut st = GoState::start();
        let mut i: usize = 0;
        while i < ls.len()
            invariant
                i <= ls.len(),
                lv == views(ls@),
                st.wf(),
                st.scan() == text_scan(lv.take(i as int)),
                st.bounded(i as nat),
            decreases ls.len() - i,
        {
            assert(lv.take(i + 1).drop_last() == lv.take(i as int));
            assert(lv[i as int] == ls@[i as int]@);
            st.text_step(&ls[i], Ghost(i as nat));
            i += 1;
        }
        assert(lv.take(ls.len() as int) == lv);
        let s = st.summary();
        if s.len() > 0 {
            let r = join_str(&s, "\n");
            return from_chars(&r);
        }
        let t = trim_of(&v);
        if t.len() == 0 {
            return String::from_str("(no test output)");
        }
        from_chars(&v)
    }

    /// Summary of `go build` output: its errors and warnings.
    fn handle_build(&self, output: &str) -> (r: String)
        ensures
            r@ == go_build(output@),
    {
        let v = to_chars(output);
        let t = trim_of(&v);
        if t.len() == 0 {
            return String::from_str("(build succeeded)");
        }
        let ls = lines(&v);
        let ghost lv = views(ls@);
        let mut errors: Vec<Vec<char>> = Vec::new();
        let mut warnings: Vec<Vec<char>> = Vec::new();
        let mut i: usize = 0;
        assert(views(errors@) =~= build_errors(lv.take(0)));
        assert(views(warnings@) =~= build_warnings(lv.take(0)));
        while i < ls.len()
            invariant
                i <= ls.len(),
                lv == views(ls@),
                views(errors@) == build_errors(lv.take(i as int)),
                views(warnings@) == build_warnings(lv.take(i as int)),
            decreases ls.len() - i,
        {
            assert(lv.take(i + 1).drop_last() == lv.take(i as int));
            assert(lv[i as int] == ls@[i as int]@);
            let low = lower(&ls[i]);
            let is_error = contains_str(&low, "error:") || contains_str(&low, "error[")
                || contains_str(&low, ": error") || (contains_str(&ls[i], ".go:") && contains_str(
                &low,
                " error",
            )) || contains_str(&low, "undefined:") || contains_str(&low, "syntax error")
                || contains_str(&low, "invalid syntax") || contains_str(&low, "cannot find")
                || contains_str(&low, "not declared") || contains_str(&low, "not used");
            let is_warning = contains_str(&low, "warning:") || contains_str(&low, "warn[")
                || contains_str(&low, "deprecated");
            if is_error {
                let c = copy(&ls[i]);
                let ghost e0 = errors@;
                errors.push(c);
                proof {
                    lemma_views_push(e0, c);
                }
            } else if is_warning {
                let c = copy(&ls[i]);
                let ghost w0 = warnings@;
                warnings.push(c);
                proof {
                    lemma_views_push(w0, c);
                }
            }
            i += 1;
        }
        assert(lv.take(ls.len() as int) == lv);
        if errors.len() == 0 && warnings.len() == 0 {
            let low = lower(&v);
            if contains_str(&low, "build failed") || contains_str(&low, "cannot find") {
                return error_only_exec(output);
            }
            return String::from_str("(build succeeded)");
        }
        let mut parts: Vec<Vec<char>> = Vec::new();
        if errors.len() > 0 {
            let mut h: Vec<char> = Vec::new();
            push_decimal(&mut h, errors.len());
            push_str(&mut h, " error(s):");
            parts.push(h);
            assert(views(parts@) =~= seq![h@]);
            push_capped(&mut parts, &errors, 20, "  ");
        }
        let ghost ep = views(parts@);
        if warnings.len() > 0 {
            if parts.len() > 0 {
                let ghost q0 = parts@;
                let e: Vec<char> = Vec::new();
                parts.push(e);
                proof {
                    lemma_views_push(q0, e);
                }
            }
            let mut h: Vec<char> = Vec::new();
            push_decimal(&mut h, warnings.len());
            push_str(&mut h, " warning(s):");
            let ghost q1 = parts@;
            parts.push(h);
            proof {
                lemma_views_push(q1, h);
            }
            push_capped(&mut parts, &warnings, 10, "  ");
        }
        let ghost es = build_errors(lv);
        let ghost ws = build_warnings(lv);
        assert(views(parts@) =~= (if es.len() > 0 {
            seq![decimal(es.len()) + " error(s):"@] + capped(es, 20, "  "@)
        } else {
            Seq::empty()
        }) + (if ws.len() > 0 {
            (if ep.len() > 0 {
                seq![Seq::<char>::empty()]
            } else {
                Seq::empty()
            }) + seq![decimal(ws.len()) + " warning(s):"@] + capped(ws, 10, "  "@)
        } else {
            Seq::empty()
        }));
        let r = join_str(&parts, "\n");
        from_chars(&r)
    }

    /// Summary of `go vet` output: the lines that report an issue.
    fn handle_vet(&self, output: &str) -> (r: String)
        ensures
            r@ == go_vet(output@),
    {
        let v = to_chars(output);
        let t = trim_of(&v);
        let ls = lines(&v);
        let ghost lv = views(ls@);
        let mut issues: Vec<Vec<char>> = Vec::new();
        let mut i: usize = 0;
        assert(views(issues@) =~= vet_issues(lv.take(0)));
        while i < ls.len()
            invariant
                i <= ls.len(),
                lv == views(ls@),
                views(issues@) == vet_issues(lv.take(i as int)),
            decreases ls.len() - i,
        {
            assert(lv.take(i + 1).drop_last() == lv.take(i as int));
            assert(lv[i as int] == ls@[i as int]@);
            let lt = trim_of(&ls[i]);
            if contains_str(&ls[i], ".go:") && lt.len() > 0 {
                let c = copy(&ls[i]);
                let ghost o0 = issues@;
                issues.push(c);
                proof {
                    lemma_views_push(o0, c);
                }
            }
            i += 1;
        }
        assert(lv.take(ls.len() as int) == lv);
        if t.len() == 0 || issues.len() == 0 {
            return String::from_str("(no issues)");
        }
        let mut parts: Vec<Vec<char>> = Vec::new();
        let mut h: Vec<char> = Vec::new();
        push_decimal(&mut h, issues.len());
        push_str(&mut h, " issue(s) found:");
        parts.push(h);
        assert(views(parts@) =~= seq![h@]);
        push_capped(&mut parts, &issues, 20, "  ");
        let r = join_str(&parts, "\n");
        from_chars(&r)
    }

    /// Summary of `go mod` output.
    fn handle_mod(&self, output: &str, exit_code: i32) -> (r: String)
        ensures
            r@ == go_mod(output@, exit_code),
    {
        if exit_code != 0 {
            return error_only_exec(output);
        }
        let v = to_chars(output);
        let t = trim_of(&v);
        if t.len() == 0 {
            return String::from_str("(success)");
        }
        let ls = lines(&v);
        let first = take_pieces(&ls, 5);
        let r = join_str(&first, "\n");
        from_chars(&r)
    }

    /// The version line of `go version` output.
    fn handle_version(&self, output: &str) -> (r: String)
        ensures
            r@ == go_version(output@),
    {
        let ls = str_lines(output);
        let v = if ls.len() > 0 {
            assert(views(ls@)[0] == ls@[0]@);
            trim_of(&ls[0])
        } else {
            Vec::new()
        };
        if v.len() == 0 {
            return String::from_str("(no version info)");
        }
        from_chars(&v)
    }

    /// Summary of `go fmt` output.
    fn handle_fmt(&self, output: &str, exit_code: i32) -> (r: String)
        ensures
            r@ == go_fmt(output@, exit_code),
    {
        if exit_code != 0 {
            return error_only_exec(output);
        }
        let v = to_chars(output);
        let t = trim_of(&v);
        let ls = lines(&v);
        let ghost lv = views(ls@);
        let mut n: usize = 0;
        let mut i: usize = 0;
        while i < ls.len()
            invariant
                i <= ls.len(),
                lv == views(ls@),
                n == nonblank_count(lv.take(i as int)),
                n <= i,
            decreases ls.len() - i,
        {
            assert(lv.take(i + 1).drop_last() == lv.take(i as int));
            assert(lv[i as int] == ls@[i as int]@);
            let lt = trim_of(&ls[i]);
            if lt.len() > 0 {
                n = n + 1;
            }
            i += 1;
        }
        assert(lv.take(ls.len() as int) == lv);
        if t.len() == 0 || n == 0 {
            return String::new();
        }
        let mut r: Vec<char> = Vec::new();
        push_decimal(&mut r, n);
        push_str(&mut r, " file(s) formatted");
        from_chars(&r)
    }

    /// Summary of `go run` output.
    fn handle_run(&self, output: &str, exit_code: i32) -> (r: String)
        ensures
            r@ == go_run(output@, exit_code),
    {
        if exit_code != 0 {
            return error_only_exec(output);
        }
        let ls = str_lines(output);
        if ls.len() == 0 {
            return String::from_str("(no output)");
        }
        if ls.len() <= 20 {
            let v = to_chars(output);
            return from_chars(&v);
        }
        let first = take_pieces(&ls, 15);
        let mut r = join_str(&first, "\n");
        push_str(&mut r, "\n... (");
        push_decimal(&mut r, ls.len() - 15);
        push_str(&mut r, " more lines)");
        from_chars(&r)
    }
}

impl CommandModule for GoModule {
    open spec fn spec_name(&self) -> Seq<char> {
        "go"@
    }

    open spec fn spec_strategy(&self) -> Seq<char> {
        "ndjson_parsing"@
    }

    open spec fn spec_compress(&self, output: Seq<char>, context: ContextView) -> Seq<char> {
        go_compress(output, context)
    }

    open spec fn accepts(&self, output: Seq<char>, context: ContextView) -> bool {
        true
    }


    fn name(&self) -> (r: &'static str) {
        "go"
    }

    fn strategy(&self) -> (r: &'static str) {
        "ndjson_parsing"
    }

    fn compress(&self, output: &str, context: &Context) -> (r: Result<String, RtkError>) {
        let sub = match &context.command {
            Some(cmd) => self.detect_subcommand(cmd.as_str()),
            None => None,
        };
        match sub {
            Some(s) => {
                if eq_str(&s, "test") {
                    let json = match &context.command {
                        Some(cmd) => {
                            let cv = to_chars(cmd.as_str());
                            contains_str(&cv, "-json")
                        },
                        None => false,
                    };
                    if json {
                        let events = Self::parse_events(output);
                        return Ok(self.compress_json(&events));
                    }
                    Ok(self.parse_go_test_text(output))
                } else if eq_str(&s, "build") {
                    Ok(self.handle_build(output))
                } else if eq_str(&s, "vet") {
                    Ok(self.handle_vet(output))
                } else if eq_str(&s, "mod") {
                    Ok(self.handle_mod(output, context.exit_code))
                } else if eq_str(&s, "version") {
                    Ok(self.handle_version(output))
                } else if eq_str(&s, "fmt") {
                    Ok(self.handle_fmt(output, context.exit_code))
                } else if eq_str(&s, "run") {
                    Ok(self.handle_run(output, context.exit_code))
                } else {
                    Ok(error_only_exec(output))
                }
            },
            None => Ok(error_only_exec(output)),
        }
    }
}

} // verus!
