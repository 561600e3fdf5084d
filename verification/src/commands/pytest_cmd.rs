//! `pytest` output: test counts, failure reports and skip reasons.

use crate::commands::CommandModule;
use crate::filter::error_only::{error_only, error_only_exec, first_n};
use crate::filter::grouping::{entries, sort_desc, sort_exec, tally, tally_of, Group};
use crate::filter::stats::{count_part, push_count_part};
use crate::filter::ErrorOnly;
use crate::text::{contains_str, copy, decimal, ends_with_str, find_last, from_chars, has_sub, is_prefix, is_suffix, join, join_str, lemma_views_push, lines_of, parse_usize, parse_usize_spec, push_decimal, push_str, rfind, slice_of, split_whitespace, starts_with_str, str_lines, take_pieces, to_chars, trim, trim_of, utf8_len, utf8_len_below, views, words};
use crate::{Context, ContextView, RtkError};
use vstd::prelude::*;

verus! {

/// Compression module for `pytest`.
pub struct PytestModule {
    error_strategy: ErrorOnly,
}

// ---------------------------------------------------------------------
// Specification
// ---------------------------------------------------------------------

/// What a scan of pytest output has collected so far.
pub struct PyScan {
    pub passed: nat,
    pub failed: nat,
    pub skipped: nat,
    pub xfailed: nat,
    pub xpassed: nat,
    pub errors: nat,
    pub warnings: nat,
    /// The failure reports completed so far, each as one text.
    pub failures: Seq<Seq<char>>,
    pub skip_reasons: Seq<Seq<char>>,
    /// Inside the `FAILURES` section.
    pub in_failure: bool,
    /// The lines of the failure report being read.
    pub current: Seq<Seq<char>>,
}

/// The scan before any line.
pub open spec fn py_start() -> PyScan {
    PyScan {
        passed: 0,
        failed: 0,
        skipped: 0,
        xfailed: 0,
        xpassed: 0,
        errors: 0,
        warnings: 0,
        failures: Seq::empty(),
        skip_reasons: Seq::empty(),
        in_failure: false,
        current: Seq::empty(),
    }
}

/// A `=== ... ===` section rule.
pub open spec fn is_section_rule(t: Seq<char>) -> bool {
    is_prefix("==="@, t) && is_suffix("==="@, t)
}

/// The report being read, if any, moved to the completed ones.
pub open spec fn flushed(st: PyScan) -> PyScan {
    if st.current.len() > 0 {
        PyScan { failures: st.failures.push(join(st.current, "\n"@)), current: Seq::empty(), ..st }
    } else {
        st
    }
}

/// A new section after the failures closes the failure section.
pub open spec fn py_close(st: PyScan, t: Seq<char>) -> PyScan {
    if st.in_failure && is_section_rule(t) && !has_sub(t, "FAILURES"@) {
        PyScan { in_failure: false, ..flushed(st) }
    } else {
        st
    }
}

/// The `____ name ____` line that opens one failure report.
pub open spec fn is_failure_header(t: Seq<char>) -> bool {
    is_prefix("_"@, t) && is_suffix("_"@, t) && utf8_len(t) > 10
}

/// Inside the failure section, lines go to the report being read.
pub open spec fn py_collect(st: PyScan, t: Seq<char>) -> PyScan {
    if st.in_failure && t.len() > 0 {
        if is_failure_header(t) {
            PyScan { current: seq![t], ..flushed(st) }
        } else if st.current.len() > 0 {
            PyScan { current: st.current.push(t), ..st }
        } else {
            st
        }
    } else {
        st
    }
}

/// The text between the last `(` and the last `)` of a line, when in that
/// order.
pub open spec fn skip_reason(t: Seq<char>) -> Option<Seq<char>> {
    match (find_last(t, "("@), find_last(t, ")"@)) {
        (Some(s), Some(e)) => if s < e {
            Some(t.subrange(s + 1, e))
        } else {
            None
        },
        _ => None,
    }
}

/// A `file::test OUTCOME` line adds to the count of its outcome.
pub open spec fn py_count(st: PyScan, t: Seq<char>) -> PyScan {
    if !has_sub(t, "::"@) {
        st
    } else if has_sub(t, " PASSED"@) {
        PyScan { passed: st.passed + 1, ..st }
    } else if has_sub(t, " FAILED"@) {
        PyScan { failed: st.failed + 1, ..st }
    } else if has_sub(t, " SKIPPED"@) {
        PyScan {
            skipped: st.skipped + 1,
            skip_reasons: match skip_reason(t) {
                Some(r) => st.skip_reasons.push(r),
                None => st.skip_reasons,
            },
            ..st
        }
    } else if has_sub(t, " XFAILED"@) {
        PyScan { xfailed: st.xfailed + 1, ..st }
    } else if has_sub(t, " XPASS"@) {
        PyScan { xpassed: st.xpassed + 1, ..st }
    } else if has_sub(t, " ERROR"@) && !has_sub(t, "ERRORS"@) {
        PyScan { errors: st.errors + 1, ..st }
    } else {
        st
    }
}

/// The number before the last word that mentions `warning`, when it is one.
pub open spec fn last_warning_count(ps: Seq<Seq<char>>) -> Option<usize>
    decreases ps.len(),
{
    if ps.len() < 2 {
        None
    } else if has_sub(ps.last(), "warning"@) && parse_usize_spec(ps[ps.len() - 2]) is Some {
        parse_usize_spec(ps[ps.len() - 2])
    } else {
        last_warning_count(ps.drop_last())
    }
}

/// A line that mentions `warning` sets the warning count, when it gives one.
pub open spec fn py_warn(st: PyScan, t: Seq<char>) -> PyScan {
    if has_sub(t, "warning"@) {
        match last_warning_count(words(t)) {
            Some(c) => PyScan { warnings: c as nat, ..st },
            None => st,
        }
    } else {
        st
    }
}

/// The scan after one more line.
pub open spec fn py_step(st: PyScan, line: Seq<char>) -> PyScan {
    let t = trim(line);
    if has_sub(t, "FAILURES"@) && is_section_rule(t) {
        PyScan { in_failure: true, ..st }
    } else {
        py_warn(py_count(py_collect(py_close(st, t), t), t), t)
    }
}

/// The scan over `ls`.
pub open spec fn py_scan(ls: Seq<Seq<char>>) -> PyScan
    decreases ls.len(),
{
    if ls.len() == 0 {
        py_start()
    } else {
        py_step(py_scan(ls.drop_last()), ls.last())
    }
}

/// The counts of the summary line, in their fixed order.
pub open spec fn summary_items(st: PyScan) -> Seq<Seq<char>> {
    count_part(st.passed, " passed"@) + count_part(st.failed, " failed"@) + count_part(
        st.skipped,
        " skipped"@,
    ) + count_part(st.xfailed, " xfailed"@) + count_part(st.xpassed, " xpassed"@) + count_part(
        st.errors,
        " errors"@,
    ) + count_part(st.warnings, " warnings"@)
}

/// Each report followed by an empty line.
pub open spec fn report_lines(fs: Seq<Seq<char>>) -> Seq<Seq<char>> {
    Seq::new(
        2 * fs.len(),
        |i: int|
            if i % 2 == 0 {
                fs[i / 2]
            } else {
                Seq::empty()
            },
    )
}

/// The failures part: at most three reports, then how many more there are.
pub open spec fn failure_lines(fs: Seq<Seq<char>>) -> Seq<Seq<char>> {
    if fs.len() == 0 {
        Seq::empty()
    } else {
        seq![Seq::empty(), "=== Failures ==="@] + report_lines(first_n(fs, 3)) + if fs.len() > 3 {
            seq!["... and "@ + decimal((fs.len() - 3) as nat) + " more failures"@]
        } else {
            Seq::empty()
        }
    }
}

/// `"<reason> (<count>)"`.
pub open spec fn render_reason(e: Group) -> Seq<char> {
    e.0 + " ("@ + decimal(e.1) + ")"@
}

/// The skip-reasons part: the five most frequent distinct reasons.
pub open spec fn skip_lines(rs: Seq<Seq<char>>) -> Seq<Seq<char>> {
    if rs.len() == 0 {
        Seq::empty()
    } else {
        let top = first_n(sort_desc(tally(rs)), 5);
        seq![Seq::empty(), "=== Skip Reasons ==="@] + Seq::new(
            top.len(),
            |i: int| render_reason(top[i]),
        )
    }
}

/// The summary of a finished scan.
pub open spec fn py_report(st: PyScan) -> Seq<char> {
    let items = summary_items(st);
    if items.len() == 0 {
        "(no tests)"@
    } else {
        join(
            seq![join(items, ", "@)] + failure_lines(st.failures) + skip_lines(st.skip_reasons),
            "\n"@,
        )
    }
}

/// Summary of pytest output.
pub open spec fn pytest_summary(output: Seq<char>) -> Seq<char> {
    py_report(flushed(py_scan(lines_of(output))))
}

/// Output that pytest produced: test result markers or its session lines.
pub open spec fn is_pytest_output(o: Seq<char>) -> bool {
    (has_sub(o, "::"@) && (has_sub(o, "PASSED"@) || has_sub(o, "FAILED"@) || has_sub(
        o,
        "SKIPPED"@,
    ) || has_sub(o, "XFAILED"@) || has_sub(o, "XPASS"@) || has_sub(o, "ERROR"@))) || has_sub(
        o,
        "test session"@,
    ) || has_sub(o, "short test summary"@) || (has_sub(o, "collected"@) && has_sub(o, "items"@))
}

/// What the pytest module makes of `output`.
pub open spec fn pytest_compress(output: Seq<char>) -> Seq<char> {
    if output.len() == 0 {
        "(no output)"@
    } else if is_pytest_output(output) {
        pytest_summary(output)
    } else {
        error_only(output)
    }
}

// ---------------------------------------------------------------------
// Executable
// ---------------------------------------------------------------------

/// The scan state held in executable values.
struct PyState {
    passed: usize,
    failed: usize,
    skipped: usize,
    xfailed: usize,
    xpassed: usize,
    errors: usize,
    warnings: usize,
    failures: Vec<Vec<char>>,
    skip_reasons: Vec<Vec<char>>,
    in_failure: bool,
    current: Vec<Vec<char>>,
}

impl PyState {
    /// The scan this state holds.
    spec fn scan(&self) -> PyScan {
        PyScan {
            passed: self.passed as nat,
            failed: self.failed as nat,
            skipped: self.skipped as nat,
            xfailed: self.xfailed as nat,
            xpassed: self.xpassed as nat,
            errors: self.errors as nat,
            warnings: self.warnings as nat,
            failures: views(self.failures@),
            skip_reasons: views(self.skip_reasons@),
            in_failure: self.in_failure,
            current: views(self.current@),
        }
    }

    /// The number of test outcomes counted.
    spec fn tests(&self) -> nat {
        (self.passed + self.failed + self.skipped + self.xfailed + self.xpassed + self.errors) as nat
    }

    fn start() -> (r: Self)
        ensures
            r.scan() == py_start(),
            r.tests() == 0,
    {
        let r = PyState {
            passed: 0,
            failed: 0,
            skipped: 0,
            xfailed: 0,
            xpassed: 0,
            errors: 0,
            warnings: 0,
            failures: Vec::new(),
            skip_reasons: Vec::new(),
            in_failure: false,
            current: Vec::new(),
        };
        assert(views(r.failures@) =~= Seq::<Seq<char>>::empty());
        assert(views(r.skip_reasons@) =~= Seq::<Seq<char>>::empty());
        assert(views(r.current@) =~= Seq::<Seq<char>>::empty());
        r
    }

    fn flush(&mut self)
        ensures
            final(self).scan() == flushed(old(self).scan()),
    {
        if self.current.len() > 0 {
            let j = join_str(&self.current, "\n");
            let ghost f0 = self.failures@;
            self.failures.push(j);
            proof {
                lemma_views_push(f0, j);
            }
            self.current = Vec::new();
            assert(views(self.current@) =~= Seq::<Seq<char>>::empty());
        }
    }

    fn step(&mut self, line: &Vec<char>)
        requires
            old(self).tests() < usize::MAX,
        ensures
            final(self).scan() == py_step(old(self).scan(), line@),
            final(self).tests() <= old(self).tests() + 1,
    {
        let ghost s0 = self.scan();
        let t = trim_of(line);
        if contains_str(&t, "FAILURES") && is_rule(&t) {
            self.in_failure = true;
            return;
        }
        if self.in_failure && is_rule(&t) && !contains_str(&t, "FAILURES") {
            self.flush();
            self.in_failure = false;
        }
        let ghost s1 = py_close(s0, t@);
        assert(self.scan() == s1);
        if self.in_failure && t.len() > 0 {
            if starts_with_str(&t, "_") && ends_with_str(&t, "_") && !utf8_len_below(&t, 11) {
                self.flush();
                let c = copy(&t);
                self.current = vec![c];
                assert(views(self.current@) =~= seq![t@]);
            } else if self.current.len() > 0 {
                let c = copy(&t);
                let ghost c0 = self.current@;
                self.current.push(c);
                proof {
                    lemma_views_push(c0, c);
                }
            }
        }
        let ghost s2 = py_collect(s1, t@);
        assert(self.scan() == s2);
        if contains_str(&t, "::") {
            if contains_str(&t, " PASSED") {
                self.passed = self.passed + 1;
            } else if contains_str(&t, " FAILED") {
                self.failed = self.failed + 1;
            } else if contains_str(&t, " SKIPPED") {
                self.skipped = self.skipped + 1;
                match skip_reason_exec(&t) {
                    Some(r) => {
                        let ghost r0 = self.skip_reasons@;
                        self.skip_reasons.push(r);
                        proof {
                            lemma_views_push(r0, r);
                        }
                    },
                    None => {},
                }
            } else if contains_str(&t, " XFAILED") {
                self.xfailed = self.xfailed + 1;
            } else if contains_str(&t, " XPASS") {
                self.xpassed = self.xpassed + 1;
            } else if contains_str(&t, " ERROR") && !contains_str(&t, "ERRORS") {
                self.errors = self.errors + 1;
            }
        }
        let ghost s3 = py_count(s2, t@);
        assert(self.scan() == s3);
        if contains_str(&t, "warning") {
            let ws = split_whitespace(&t);
            match last_warning_count_exec(&ws) {
                Some(c) => {
                    self.warnings = c;
                },
                None => {},
            }
        }
    }
}

fn is_rule(t: &Vec<char>) -> (r: bool)
    ensures
        r == is_section_rule(t@),
{
    starts_with_str(t, "===") && ends_with_str(t, "===")
}

fn skip_reason_exec(t: &Vec<char>) -> (r: Option<Vec<char>>)
    ensures
        crate::text::opt_chars(r) == skip_reason(t@),
{
    let op = to_chars("(");
    let cp = to_chars(")");
    let s = rfind(t, &op);
    let e = rfind(t, &cp);
    match s {
        Some(s) => match e {
            Some(e) => {
                if s < e {
                    Some(slice_of(t, s + 1, e))
                } else {
                    None
                }
            },
            None => None,
        },
        None => None,
    }
}

fn last_warning_count_exec(ws: &Vec<Vec<char>>) -> (r: Option<usize>)
    ensures
        r == last_warning_count(views(ws@)),
{
    let ghost wv = views(ws@);
    let mut i: usize = ws.len();
    assert(wv.take(i as int) == wv);
    while i >= 2
        invariant
            i <= ws.len(),
            wv == views(ws@),
            last_warning_count(wv.take(i as int)) == last_warning_count(wv),
        decreases i,
    {
        let ghost w = wv.take(i as int);
        assert(w.last() == ws@[i - 1]@);
        assert(w[w.len() - 2] == ws@[i - 2]@);
        if contains_str(&ws[i - 1], "warning") {
            match parse_usize(&ws[i - 2]) {
                Some(c) => {
                    return Some(c);
                },
                None => {},
            }
        }
        assert(w.drop_last() == wv.take(i - 1));
        i -= 1;
    }
    None
}

/// The failures part of the report.
fn push_failure_lines(parts: &mut Vec<Vec<char>>, fs: &Vec<Vec<char>>)
    ensures
        views(final(parts)@) == views(old(parts)@) + failure_lines(views(fs@)),
{
    let ghost base = views(parts@);
    if fs.len() == 0 {
        assert(base + Seq::<Seq<char>>::empty() == base);
        return;
    }
    let e: Vec<char> = Vec::new();
    let ghost p0 = parts@;
    parts.push(e);
    proof {
        lemma_views_push(p0, e);
    }
    let h = to_chars("=== Failures ===");
    let ghost p1 = parts@;
    parts.push(h);
    proof {
        lemma_views_push(p1, h);
    }
    let ghost head = seq![Seq::<char>::empty(), "=== Failures ==="@];
    assert(views(parts@) =~= base + head);
    let shown = take_pieces(fs, 3);
    let ghost sv = views(shown@);
    assert(sv == first_n(views(fs@), 3));
    let mut k: usize = 0;
    assert(report_lines(sv.take(0)) =~= Seq::<Seq<char>>::empty());
    while k < shown.len()
        invariant
            k <= shown.len(),
            sv == views(shown@),
            views(parts@) == base + head + report_lines(sv.take(k as int)),
        decreases shown.len() - k,
    {
        let f = copy(&shown[k]);
        let ghost q0 = parts@;
        parts.push(f);
        proof {
            lemma_views_push(q0, f);
        }
        let e2: Vec<char> = Vec::new();
        let ghost q1 = parts@;
        parts.push(e2);
        proof {
            lemma_views_push(q1, e2);
        }
        assert(sv[k as int] == shown@[k as int]@);
        assert(report_lines(sv.take(k + 1)) =~= report_lines(sv.take(k as int)) + seq![
            sv[k as int],
            Seq::<char>::empty(),
        ]);
        k += 1;
    }
    assert(sv.take(shown.len() as int) == sv);
    if fs.len() > 3 {
        let mut l = to_chars("... and ");
        push_decimal(&mut l, fs.len() - 3);
        push_str(&mut l, " more failures");
        let ghost q2 = parts@;
        parts.push(l);
        proof {
            lemma_views_push(q2, l);
        }
    }
    assert(views(parts@) =~= base + failure_lines(views(fs@)));
}

/// The skip-reasons part of the report.
fn push_skip_lines(parts: &mut Vec<Vec<char>>, rs: &Vec<Vec<char>>)
    ensures
        views(final(parts)@) == views(old(parts)@) + skip_lines(views(rs@)),
{
    let ghost base = views(parts@);
    if rs.len() == 0 {
        assert(base + Seq::<Seq<char>>::empty() == base);
        return;
    }
    let e: Vec<char> = Vec::new();
    let ghost p0 = parts@;
    parts.push(e);
    proof {
        lemma_views_push(p0, e);
    }
    let h = to_chars("=== Skip Reasons ===");
    let ghost p1 = parts@;
    parts.push(h);
    proof {
        lemma_views_push(p1, h);
    }
    let ghost head = seq![Seq::<char>::empty(), "=== Skip Reasons ==="@];
    assert(views(parts@) =~= base + head);
    let (keys, counts) = tally_of(rs);
    let (sk, sc) = sort_exec(keys, counts);
    let ghost top = first_n(entries(sk@, sc@), 5);
    let m: usize = if sk.len() > 5 {
        5
    } else {
        sk.len()
    };
    let mut i: usize = 0;
    while i < m
        invariant
            m <= sk.len(),
            sk.len() == sc.len(),
            top == first_n(entries(sk@, sc@), 5),
            top.len() == m,
            i <= m,
            views(parts@) == base + head + Seq::new(
                i as nat,
                |j: int| render_reason(top[j]),
            ),
        decreases m - i,
    {
        let mut l = copy(&sk[i]);
        push_str(&mut l, " (");
        push_decimal(&mut l, sc[i]);
        push_str(&mut l, ")");
        assert(top[i as int] == (sk@[i as int]@, sc@[i as int] as nat));
        let ghost q0 = parts@;
        parts.push(l);
        proof {
            lemma_views_push(q0, l);
        }
        assert(views(parts@) =~= base + head + Seq::new(
            (i + 1) as nat,
            |j: int| render_reason(top[j]),
        ));
        i += 1;
    }
    assert(views(parts@) =~= base + skip_lines(views(rs@)));
}

fn py_report_exec(st: &PyState) -> (r: String)
    ensures
        r@ == py_report(st.scan()),
{
    let mut items: Vec<Vec<char>> = Vec::new();
    assert(views(items@) =~= Seq::<Seq<char>>::empty());
    push_count_part(&mut items, st.passed, " passed");
    push_count_part(&mut items, st.failed, " failed");
    push_count_part(&mut items, st.skipped, " skipped");
    push_count_part(&mut items, st.xfailed, " xfailed");
    push_count_part(&mut items, st.xpassed, " xpassed");
    push_count_part(&mut items, st.errors, " errors");
    push_count_part(&mut items, st.warnings, " warnings");
    assert(views(items@) =~= summary_items(st.scan()));
    if items.len() == 0 {
        return String::from_str("(no tests)");
    }
    let mut parts: Vec<Vec<char>> = Vec::new();
    let first = join_str(&items, ", ");
    parts.push(first);
    assert(views(parts@) =~= seq![join(summary_items(st.scan()), ", "@)]);
    push_failure_lines(&mut parts, &st.failures);
    push_skip_lines(&mut parts, &st.skip_reasons);
    let r = join_str(&parts, "\n");
    from_chars(&r)
}

fn is_pytest_output_exec(o: &Vec<char>) -> (r: bool)
    ensures
        r == is_pytest_output(o@),
{
    (contains_str(o, "::") && (contains_str(o, "PASSED") || contains_str(o, "FAILED")
        || contains_str(o, "SKIPPED") || contains_str(o, "XFAILED") || contains_str(o, "XPASS")
        || contains_str(o, "ERROR"))) || contains_str(o, "test session") || contains_str(
        o,
        "short test summary",
    ) || (contains_str(o, "collected") && contains_str(o, "items"))
}

impl PytestModule {
    pub fn new() -> (r: Self) {
        Self { error_strategy: ErrorOnly }
    }

    /// Summary of pytest output: outcome counts, failure reports and skip
    /// reasons.
    fn parse_pytest_output(&self, output: &str) -> (r: String)
        ensures
            r@ == pytest_summary(output@),
    {
        let ls = str_lines(output);
        let ghost lv = views(ls@);
        let mut st = PyState::start();
        let mut i: usize = 0;
        while i < ls.len()
            invariant
                i <= ls.len(),
                lv == views(ls@),
                st.scan() == py_scan(lv.take(i as int)),
                st.tests() <= i,
            decreases ls.len() - i,
        {
            assert(lv.take(i + 1).drop_last() == lv.take(i as int));
            assert(lv[i as int] == ls@[i as int]@);
            st.step(&ls[i]);
            i += 1;
        }
        assert(lv.take(ls.len() as int) == lv);
        st.flush();
        py_report_exec(&st)
    }
}

impl CommandModule for PytestModule {
    open spec fn spec_name(&self) -> Seq<char> {
        "pytest"@
    }

    open spec fn spec_strategy(&self) -> Seq<char> {
        "state_machine"@
    }

    open spec fn spec_compress(&self, output: Seq<char>, context: ContextView) -> Seq<char> {
        pytest_compress(output)
    }

    open spec fn accepts(&self, output: Seq<char>, context: ContextView) -> bool {
        true
    }


    fn name(&self) -> (r: &'static str) {
        "pytest"
    }

    fn strategy(&self) -> (r: &'static str) {
        "state_machine"
    }

    fn compress(&self, output: &str, context: &Context) -> (r: Result<String, RtkError>) {
        let v = to_chars(output);
        if v.len() == 0 {
            return Ok(String::from_str("(no output)"));
        }
        if is_pytest_output_exec(&v) {
            Ok(self.parse_pytest_output(output))
        } else {
            Ok(error_only_exec(output))
        }
    }
}

} // verus!
