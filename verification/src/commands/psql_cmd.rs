//! `psql` output: errors first, then statement results, then table summaries.

use crate::commands::CommandModule;
use crate::filter::error_only::{error_only, error_only_exec};
use crate::filter::grouping::{grouping, grouping_exec};
use crate::filter::{ErrorOnly, GroupingByPattern};
use crate::text::{
    contains_str, decimal, ends_with_str, from_chars, has_sub, is_prefix, is_suffix, join,
    join_str, lemma_views_push, lines_of, opt_chars, opt_view, parse_usize, parse_usize_spec,
    push_all, push_decimal, push_str, split_char, split_on, split_whitespace, starts_with_str,
    str_lines, strip_all_prefix, strip_all_prefix_exec, strip_all_suffix, strip_all_suffix_exec,
    take_pieces, to_chars, trim, trim_of, views, words,
};
use crate::{Context, ContextView, RtkError};
use vstd::prelude::*;

verus! {

/// Compression module for `psql`.
pub struct PsqlModule {
    error_strategy: ErrorOnly,
    grouping_strategy: GroupingByPattern,
}

// ---------------------------------------------------------------------
// Specification
// ---------------------------------------------------------------------

/// A (trimmed) line that opens a psql error report.
pub open spec fn is_psql_error_line(t: Seq<char>) -> bool {
    is_prefix("ERROR:"@, t) || is_prefix("FATAL:"@, t) || is_prefix("PANIC:"@, t) || has_sub(
        t,
        "could not connect"@,
    ) || has_sub(t, "connection refused"@) || has_sub(t, "password authentication failed"@)
}

/// The error scan after one more line: the lines kept so far, and whether an
/// error report is open. An open report goes on until a blank line; its
/// `LINE ` markers are not kept.
pub open spec fn error_step(st: (Seq<Seq<char>>, bool), line: Seq<char>) -> (Seq<Seq<char>>, bool) {
    let t = trim(line);
    if is_psql_error_line(t) {
        (st.0.push(t), true)
    } else if st.1 && t.len() > 0 && !is_prefix("LINE "@, t) {
        (st.0.push(t), true)
    } else if st.1 && t.len() == 0 {
        (st.0, false)
    } else {
        st
    }
}

/// The error scan over `ls`.
pub open spec fn error_scan(ls: Seq<Seq<char>>) -> (Seq<Seq<char>>, bool)
    decreases ls.len(),
{
    if ls.len() == 0 {
        (Seq::empty(), false)
    } else {
        error_step(error_scan(ls.drop_last()), ls.last())
    }
}

/// The error report of `output`, at most five lines, if it has one.
pub open spec fn psql_errors(output: Seq<char>) -> Option<Seq<char>> {
    let errs = error_scan(lines_of(output)).0;
    if errs.len() == 0 {
        None
    } else if errs.len() > 5 {
        Some(join(errs.take(5), "\n"@) + "\n... (truncated)"@)
    } else {
        Some(join(errs, "\n"@))
    }
}

/// A line that marks table output: a `-+-` separator or a row of cells.
pub open spec fn is_table_marker(l: Seq<char>) -> bool {
    let t = trim(l);
    (is_prefix("-"@, t) && is_suffix("-"@, t) && has_sub(l, "+"@)) || (has_sub(l, "|"@)
        && split_on(l, '|').len() > 2)
}

/// One of the first five lines marks table output.
pub open spec fn is_table_output(output: Seq<char>) -> bool {
    let ls = lines_of(output);
    exists|i: int| 0 <= i < ls.len() && i < 5 && is_table_marker(#[trigger] ls[i])
}

/// The trimmed non-blank cells of a header row.
pub open spec fn header_cells(parts: Seq<Seq<char>>) -> Seq<Seq<char>>
    decreases parts.len(),
{
    if parts.len() == 0 {
        Seq::empty()
    } else if trim(parts.last()).len() == 0 {
        header_cells(parts.drop_last())
    } else {
        header_cells(parts.drop_last()).push(trim(parts.last()))
    }
}

/// What a scan of table output has found so far.
pub struct TableScan {
    pub columns: Seq<Seq<char>>,
    pub rows: nat,
    pub in_data: bool,
    pub truncated: bool,
    pub samples: Seq<Seq<char>>,
}

/// The table scan after one more line.
pub open spec fn table_step(st: TableScan, line: Seq<char>) -> TableScan {
    let t = trim(line);
    if t.len() == 0 {
        st
    } else if is_prefix("-"@, t) && has_sub(t, "+"@) {
        TableScan {
            columns: st.columns,
            rows: st.rows,
            in_data: true,
            truncated: st.truncated,
            samples: st.samples,
        }
    } else if !st.in_data && has_sub(t, "|"@) && st.columns.len() == 0 {
        TableScan {
            columns: header_cells(split_on(t, '|')),
            rows: st.rows,
            in_data: st.in_data,
            truncated: st.truncated,
            samples: st.samples,
        }
    } else if st.in_data && has_sub(t, "|"@) {
        TableScan {
            columns: st.columns,
            rows: st.rows + 1,
            in_data: st.in_data,
            truncated: st.truncated || st.rows + 1 > 20,
            samples: if st.samples.len() < 3 {
                st.samples.push(t)
            } else {
                st.samples
            },
        }
    } else {
        st
    }
}

/// The table scan over `ls`.
pub open spec fn table_scan(ls: Seq<Seq<char>>) -> TableScan
    decreases ls.len(),
{
    if ls.len() == 0 {
        TableScan {
            columns: Seq::empty(),
            rows: 0,
            in_data: false,
            truncated: false,
            samples: Seq::empty(),
        }
    } else {
        table_step(table_scan(ls.drop_last()), ls.last())
    }
}

/// The count of a `(N rows)` footer line.
pub open spec fn rows_indicator(t: Seq<char>) -> Option<usize> {
    if is_prefix("("@, t) && is_suffix(" rows)"@, t) {
        parse_usize_spec(strip_all_suffix(strip_all_prefix(t, "("@), " rows)"@))
    } else {
        None
    }
}

/// The count of the first footer line of `ls`.
pub open spec fn first_indicator(ls: Seq<Seq<char>>) -> Option<usize>
    decreases ls.len(),
{
    if ls.len() == 0 {
        None
    } else {
        let p = first_indicator(ls.drop_last());
        if p is Some {
            p
        } else {
            rows_indicator(trim(ls.last()))
        }
    }
}

/// The last `k` lines of `ls` (all of them when there are fewer).
pub open spec fn last_k(ls: Seq<Seq<char>>, k: nat) -> Seq<Seq<char>> {
    if ls.len() > k {
        ls.skip(ls.len() - k)
    } else {
        ls
    }
}

/// The `Columns:` line: up to five column names, then the total.
pub open spec fn column_part(cols: Seq<Seq<char>>) -> Seq<Seq<char>> {
    if cols.len() == 0 {
        Seq::empty()
    } else if cols.len() <= 5 {
        seq!["Columns: "@ + join(cols, ", "@)]
    } else {
        seq!["Columns: "@ + join(cols.take(5), ", "@) + " ... ("@ + decimal(cols.len()) + " total)"@]
    }
}

/// The `Rows:` line.
pub open spec fn rows_part(rows: nat, truncated: bool) -> Seq<Seq<char>> {
    if rows > 0 {
        seq![
            "Rows: "@ + decimal(rows) + (if truncated {
                " (truncated)"@
            } else {
                Seq::empty()
            }),
        ]
    } else {
        Seq::empty()
    }
}

/// The `Data:` line, shown for a single row.
pub open spec fn data_part(samples: Seq<Seq<char>>, rows: nat) -> Seq<Seq<char>> {
    if samples.len() == 1 && rows == 1 {
        seq!["Data: "@ + samples[0]]
    } else {
        Seq::empty()
    }
}

/// The row count of a table: the footer's when one of the last three lines
/// has one, else the rows counted.
pub open spec fn table_rows(ls: Seq<Seq<char>>) -> nat {
    match first_indicator(last_k(ls, 3)) {
        Some(n) => n as nat,
        None => table_scan(ls).rows,
    }
}

/// The summary lines of a table.
pub open spec fn table_parts(ls: Seq<Seq<char>>) -> Seq<Seq<char>> {
    let st = table_scan(ls);
    let rows = table_rows(ls);
    column_part(st.columns) + rows_part(rows, st.truncated) + data_part(st.samples, rows)
}

/// Summary of table output.
pub open spec fn table_summary(output: Seq<char>) -> Seq<char> {
    let ls = lines_of(output);
    if ls.len() == 0 {
        "(no output)"@
    } else if table_parts(ls).len() == 0 {
        "(no data)"@
    } else {
        join(table_parts(ls), "\n"@)
    }
}

/// `verb N row(s)` when the last word of `t` is a count, else `done`.
pub open spec fn count_message(t: Seq<char>, verb: Seq<char>, done: Seq<char>) -> Seq<char> {
    let ws = words(t);
    if ws.len() > 0 && parse_usize_spec(ws.last()) is Some {
        verb + decimal(parse_usize_spec(ws.last())->0 as nat) + " row(s)"@
    } else {
        done
    }
}

/// The summary of a statement result line, if it is one.
pub open spec fn statement_summary(t: Seq<char>) -> Option<Seq<char>> {
    if has_sub(t, "INSERT"@) {
        Some(count_message(t, "Inserted: "@, "INSERT completed"@))
    } else if has_sub(t, "UPDATE"@) {
        Some(count_message(t, "Updated: "@, "UPDATE completed"@))
    } else if has_sub(t, "DELETE"@) {
        Some(count_message(t, "Deleted: "@, "DELETE completed"@))
    } else if has_sub(t, "CREATE TABLE"@) {
        Some("Table created"@)
    } else if has_sub(t, "DROP TABLE"@) {
        Some("Table dropped"@)
    } else if has_sub(t, "CREATE INDEX"@) {
        Some("Index created"@)
    } else if has_sub(t, "ALTER TABLE"@) {
        Some("Table altered"@)
    } else {
        None
    }
}

/// The last `k` lines of `ls`, last first.
pub open spec fn rev_last(ls: Seq<Seq<char>>, k: nat) -> Seq<Seq<char>> {
    let n: nat = if ls.len() > k {
        k
    } else {
        ls.len()
    };
    Seq::new(n, |i: int| ls[ls.len() - 1 - i])
}

/// The summary of the first statement result line of `ls`.
pub open spec fn first_statement(ls: Seq<Seq<char>>) -> Option<Seq<char>>
    decreases ls.len(),
{
    if ls.len() == 0 {
        None
    } else {
        let p = first_statement(ls.drop_last());
        if p is Some {
            p
        } else {
            statement_summary(trim(ls.last()))
        }
    }
}

/// Summary of successful output: the nearest statement result among the last
/// five lines, else the table summary, else line grouping.
pub open spec fn query_summary(output: Seq<char>) -> Seq<char> {
    match first_statement(rev_last(lines_of(output), 5)) {
        Some(m) => m,
        None => if is_table_output(output) {
            table_summary(output)
        } else {
            grouping(output)
        },
    }
}

/// What the psql module makes of `output` with exit status `exit_code`.
pub open spec fn psql_compress(output: Seq<char>, exit_code: i32) -> Seq<char> {
    match psql_errors(output) {
        Some(e) => e,
        None => if exit_code != 0 {
            error_only(output)
        } else if output.len() == 0 {
            "(no output)"@
        } else {
            query_summary(output)
        },
    }
}

// ---------------------------------------------------------------------
// Executable
// ---------------------------------------------------------------------

fn is_psql_error_line_exec(t: &Vec<char>) -> (r: bool)
    ensures
        r == is_psql_error_line(t@),
{
    starts_with_str(t, "ERROR:") || starts_with_str(t, "FATAL:") || starts_with_str(t, "PANIC:")
        || contains_str(t, "could not connect") || contains_str(t, "connection refused")
        || contains_str(t, "password authentication failed")
}

fn is_table_marker_exec(l: &Vec<char>) -> (r: bool)
    ensures
        r == is_table_marker(l@),
{
    let t = trim_of(l);
    if starts_with_str(&t, "-") && ends_with_str(&t, "-") && contains_str(l, "+") {
        return true;
    }
    if contains_str(l, "|") {
        let parts = split_char(l, '|');
        return parts.len() > 2;
    }
    false
}

/// The trimmed non-blank cells of a `|`-separated row.
pub fn header_cells_of(t: &Vec<char>) -> (r: Vec<Vec<char>>)
    ensures
        views(r@) == header_cells(split_on(t@, '|')),
{
    let parts = split_char(t, '|');
    let ghost pv = views(parts@);
    let mut out: Vec<Vec<char>> = Vec::new();
    let mut j: usize = 0;
    while j < parts.len()
        invariant
            j <= parts.len(),
            pv == views(parts@),
            views(out@) == header_cells(pv.take(j as int)),
        decreases parts.len() - j,
    {
        assert(pv.take(j + 1).drop_last() == pv.take(j as int));
        assert(pv[j as int] == parts@[j as int]@);
        let c = trim_of(&parts[j]);
        if c.len() > 0 {
            let ghost o0 = out@;
            out.push(c);
            proof {
                lemma_views_push(o0, c);
            }
        }
        j += 1;
    }
    assert(pv.take(parts.len() as int) == pv);
    out
}

fn rows_indicator_exec(t: &Vec<char>) -> (r: Option<usize>)
    ensures
        r == rows_indicator(t@),
{
    if starts_with_str(t, "(") && ends_with_str(t, " rows)") {
        let a = strip_all_prefix_exec(t, "(");
        let b = strip_all_suffix_exec(&a, " rows)");
        parse_usize(&b)
    } else {
        None
    }
}

fn count_message_exec(t: &Vec<char>, verb: &str, done: &str) -> (r: Vec<char>)
    ensures
        r@ == count_message(t@, verb@, done@),
{
    let ws = split_whitespace(t);
    if ws.len() > 0 {
        assert(views(ws@).last() == ws@[ws.len() - 1]@);
        match parse_usize(&ws[ws.len() - 1]) {
            Some(n) => {
                let mut r = to_chars(verb);
                push_decimal(&mut r, n);
                push_str(&mut r, " row(s)");
                return r;
            },
            None => {},
        }
    }
    to_chars(done)
}

fn statement_summary_exec(t: &Vec<char>) -> (r: Option<Vec<char>>)
    ensures
        opt_chars(r) == statement_summary(t@),
{
    if contains_str(t, "INSERT") {
        Some(count_message_exec(t, "Inserted: ", "INSERT completed"))
    } else if contains_str(t, "UPDATE") {
        Some(count_message_exec(t, "Updated: ", "UPDATE completed"))
    } else if contains_str(t, "DELETE") {
        Some(count_message_exec(t, "Deleted: ", "DELETE completed"))
    } else if contains_str(t, "CREATE TABLE") {
        Some(to_chars("Table created"))
    } else if contains_str(t, "DROP TABLE") {
        Some(to_chars("Table dropped"))
    } else if contains_str(t, "CREATE INDEX") {
        Some(to_chars("Index created"))
    } else if contains_str(t, "ALTER TABLE") {
        Some(to_chars("Table altered"))
    } else {
        None
    }
}

impl PsqlModule {
    pub fn new() -> (r: Self) {
        Self { error_strategy: ErrorOnly, grouping_strategy: GroupingByPattern }
    }

    /// Whether one of the first five lines marks table output.
    fn is_table_output(&self, ls: &Vec<Vec<char>>) -> (r: bool)
        ensures
            r == (exists|i: int| 0 <= i < ls.len() && i < 5 && is_table_marker(#[trigger] views(ls@)[i])),
    {
        let mut i: usize = 0;
        while i < ls.len() && i < 5
            invariant
                i <= ls.len(),
                forall|j: int| 0 <= j < i ==> !is_table_marker(#[trigger] views(ls@)[j]),
            decreases ls.len() - i,
        {
            assert(views(ls@)[i as int] == ls@[i as int]@);
            if is_table_marker_exec(&ls[i]) {
                return true;
            }
            i += 1;
        }
        false
    }

    /// Summary of table output: its columns, its row count and, for a single
    /// row, the row.
    fn compress_table_output(&self, output: &str) -> (r: String)
        ensures
            r@ == table_summary(output@),
    {
        let ls = str_lines(output);
        let ghost lv = views(ls@);
        if ls.len() == 0 {
            return String::from_str("(no output)");
        }
        let mut columns: Vec<Vec<char>> = Vec::new();
        let mut rows: usize = 0;
        let mut in_data = false;
        let mut truncated = false;
        let mut samples: Vec<Vec<char>> = Vec::new();
        let mut i: usize = 0;
        assert(views(columns@) =~= Seq::<Seq<char>>::empty());
        assert(views(samples@) =~= Seq::<Seq<char>>::empty());
        while i < ls.len()
            invariant
                i <= ls.len(),
                lv == views(ls@),
                rows <= i,
                (TableScan {
                    columns: views(columns@),
                    rows: rows as nat,
                    in_data,
                    truncated,
                    samples: views(samples@),
                }) == table_scan(lv.take(i as int)),
            decreases ls.len() - i,
        {
            assert(lv.take(i + 1).drop_last() == lv.take(i as int));
            assert(lv[i as int] == ls@[i as int]@);
            let t = trim_of(&ls[i]);
            if t.len() == 0 {
            } else if starts_with_str(&t, "-") && contains_str(&t, "+") {
                in_data = true;
            } else if !in_data && contains_str(&t, "|") && columns.len() == 0 {
                columns = header_cells_of(&t);
            } else if in_data && contains_str(&t, "|") {
                rows = rows + 1;
                if samples.len() < 3 {
                    let ghost s0 = samples@;
                    samples.push(t);
                    proof {
                        lemma_views_push(s0, t);
                    }
                }
                if rows > 20 {
                    truncated = true;
                }
            }
            i += 1;
        }
        assert(lv.take(ls.len() as int) == lv);
        // The footer count, from the first footer among the last three lines.
        let start: usize = if ls.len() > 3 {
            ls.len() - 3
        } else {
            0
        };
        let ghost tail = last_k(lv, 3);
        assert(tail == lv.skip(start as int));
        let mut found: Option<usize> = None;
        let mut j: usize = start;
        while j < ls.len()
            invariant
                start <= j <= ls.len(),
                lv == views(ls@),
                tail == lv.skip(start as int),
                found == first_indicator(tail.take(j - start)),
            decreases ls.len() - j,
        {
            let k = j - start;
            assert(tail.take(k + 1).drop_last() == tail.take(k as int));
            assert(tail[k as int] == ls@[j as int]@);
            if found.is_none() {
                let t = trim_of(&ls[j]);
                found = rows_indicator_exec(&t);
            }
            j += 1;
        }
        assert(tail.take(ls.len() - start) == tail);
        let count: usize = match found {
            Some(n) => n,
            None => rows,
        };
        let ghost st = table_scan(lv);
        let mut parts: Vec<Vec<char>> = Vec::new();
        if columns.len() > 0 {
            let mut line = to_chars("Columns: ");
            if columns.len() <= 5 {
                let j = join_str(&columns, ", ");
                push_all(&mut line, &j);
            } else {
                let first = take_pieces(&columns, 5);
                let j = join_str(&first, ", ");
                push_all(&mut line, &j);
                push_str(&mut line, " ... (");
                push_decimal(&mut line, columns.len());
                push_str(&mut line, " total)");
            }
            parts.push(line);
        }
        assert(views(parts@) =~= column_part(st.columns));
        if count > 0 {
            let mut line = to_chars("Rows: ");
            push_decimal(&mut line, count);
            if truncated {
                push_str(&mut line, " (truncated)");
            }
            let ghost p0 = parts@;
            parts.push(line);
            proof {
                lemma_views_push(p0, line);
            }
        }
        assert(views(parts@) =~= column_part(st.columns) + rows_part(count as nat, st.truncated));
        if samples.len() == 1 && count == 1 {
            let mut line = to_chars("Data: ");
            push_all(&mut line, &samples[0]);
            let ghost p0 = parts@;
            parts.push(line);
            proof {
                lemma_views_push(p0, line);
            }
        }
        assert(views(parts@) =~= table_parts(lv));
        if parts.len() == 0 {
            return String::from_str("(no data)");
        }
        let r = join_str(&parts, "\n");
        from_chars(&r)
    }

    /// Summary of successful output.
    fn extract_query_summary(&self, output: &str) -> (r: String)
        ensures
            r@ == query_summary(output@),
    {
        let ls = str_lines(output);
        let ghost lv = views(ls@);
        let ghost rv = rev_last(lv, 5);
        let n: usize = if ls.len() > 5 {
            5
        } else {
            ls.len()
        };
        let mut found: Option<Vec<char>> = None;
        let mut i: usize = 0;
        while i < n
            invariant
                i <= n,
                n <= ls.len(),
                n == rv.len(),
                lv == views(ls@),
                rv == rev_last(lv, 5),
                opt_chars(found) == first_statement(rv.take(i as int)),
            decreases n - i,
        {
            assert(rv.take(i + 1).drop_last() == rv.take(i as int));
            assert(rv[i as int] == ls@[ls.len() - 1 - i]@);
            if found.is_none() {
                let t = trim_of(&ls[ls.len() - 1 - i]);
                found = statement_summary_exec(&t);
            }
            i += 1;
        }
        assert(rv.take(n as int) == rv);
        match found {
            Some(m) => from_chars(&m),
            None => {
                if self.is_table_output(&ls) {
                    self.compress_table_output(output)
                } else {
                    grouping_exec(output)
                }
            },
        }
    }

    /// The error report of the output, if it has one.
    fn extract_errors(&self, output: &str) -> (r: Option<String>)
        ensures
            opt_view(r) == psql_errors(output@),
    {
        let ls = str_lines(output);
        let ghost lv = views(ls@);
        let mut errs: Vec<Vec<char>> = Vec::new();
        let mut in_error = false;
        let mut i: usize = 0;
        while i < ls.len()
            invariant
                i <= ls.len(),
                lv == views(ls@),
                (views(errs@), in_error) == error_scan(lv.take(i as int)),
            decreases ls.len() - i,
        {
            assert(lv.take(i + 1).drop_last() == lv.take(i as int));
            assert(lv[i as int] == ls@[i as int]@);
            let t = trim_of(&ls[i]);
            if is_psql_error_line_exec(&t) {
                let ghost e0 = errs@;
                errs.push(t);
                proof {
                    lemma_views_push(e0, t);
                }
                in_error = true;
            } else if in_error && t.len() > 0 && !starts_with_str(&t, "LINE ") {
                let ghost e0 = errs@;
                errs.push(t);
                proof {
                    lemma_views_push(e0, t);
                }
            } else if in_error && t.len() == 0 {
                in_error = false;
            }
            i += 1;
        }
        assert(lv.take(ls.len() as int) == lv);
        if errs.len() == 0 {
            None
        } else if errs.len() > 5 {
            let first = take_pieces(&errs, 5);
            let mut out = join_str(&first, "\n");
            push_str(&mut out, "\n... (truncated)");
            Some(from_chars(&out))
        } else {
            let out = join_str(&errs, "\n");
            Some(from_chars(&out))
        }
    }
}

impl CommandModule for PsqlModule {
    open spec fn spec_name(&self) -> Seq<char> {
        "psql"@
    }

    open spec fn spec_strategy(&self) -> Seq<char> {
        "multi_strategy"@
    }

    open spec fn spec_compress(&self, output: Seq<char>, context: ContextView) -> Seq<char> {
        psql_compress(output, context.exit_code)
    }

    open spec fn accepts(&self, output: Seq<char>, context: ContextView) -> bool {
        true
    }


    fn name(&self) -> (r: &'static str) {
        "psql"
    }

    fn strategy(&self) -> (r: &'static str) {
        "multi_strategy"
    }

    fn compress(&self, output: &str, context: &Context) -> (r: Result<String, RtkError>) {
        match self.extract_errors(output) {
            Some(e) => {
                return Ok(e);
            },
            None => {},
        }
        if context.exit_code != 0 {
            return Ok(error_only_exec(output));
        }
        let v = to_chars(output);
        if v.len() == 0 {
            return Ok(String::from_str("(no output)"));
        }
        Ok(self.extract_query_summary(output))
    }
}

} // verus!
