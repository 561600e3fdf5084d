//! `aws` CLI output: errors, JSON response summaries and table summaries.

use crate::commands::psql_cmd::header_cells;
use crate::commands::CommandModule;
use crate::filter::error_only::{error_only, error_only_exec, first_n};
use crate::filter::grouping::{grouping, grouping_exec};
use crate::filter::{ErrorOnly, GroupingByPattern};
use crate::text::{contains_str, decimal, from_chars, has_sub, is_prefix, join, join_str, lemma_views_push, lines_of, push_all, push_decimal, push_str, split_char, split_on, starts_with_str, str_lines, to_chars, trim, trim_of, views};
use crate::json::{
    json_array_len, json_element, json_element_text, json_has, json_has_member, json_keys,
    json_len, json_member, json_member_array_len, json_member_len, json_member_text,
    json_object_keys, json_parses, json_valid, opt_strings,
};
use crate::{Context, ContextView, RtkError};
use vstd::prelude::*;

verus! {

/// Compression module for the `aws` CLI.
pub struct AwsModule {
    error_strategy: ErrorOnly,
    grouping_strategy: GroupingByPattern,
}

// ---------------------------------------------------------------------
// The JSON members the summaries read
// ---------------------------------------------------------------------

/// The keys of the first element of the `Items` array, when it is an object.
pub open spec fn json_first_item_keys(s: Seq<char>) -> Option<Seq<Seq<char>>> {
    match json_member_text(s, "Items"@) {
        Some(items) => match json_element_text(items, 0) {
            Some(first) => json_object_keys(first),
            None => None,
        },
        None => None,
    }
}

/// The length of the `Instances` array of element `i` of `rs`, if it has one.
pub open spec fn instance_count_at(rs: Seq<char>, i: int) -> Option<usize> {
    match json_element_text(rs, i as usize) {
        Some(e) => json_member_array_len(e, "Instances"@),
        None => None,
    }
}

/// For each element of the `Reservations` array, the length of its
/// `Instances` array when it has one.
pub open spec fn json_instance_counts(s: Seq<char>) -> Option<Seq<Option<usize>>> {
    match json_member_text(s, "Reservations"@) {
        Some(rs) => match json_array_len(rs) {
            Some(n) => Some(Seq::new(n as nat, |i: int| instance_count_at(rs, i))),
            None => None,
        },
        None => None,
    }
}

/// The compact JSON text of `Error.Code`, with that of `Error.Message` when
/// present.
pub open spec fn json_error_fields(s: Seq<char>) -> Option<(Seq<char>, Option<Seq<char>>)> {
    match json_member_text(s, "Error"@) {
        Some(e) => match json_member_text(e, "Code"@) {
            Some(code) => Some((code, json_member_text(e, "Message"@))),
            None => None,
        },
        None => None,
    }
}


/// The keys of the first `Items` element when it is an object.
fn json_item_keys(s: &str) -> (r: Option<Vec<String>>)
    ensures
        opt_strings(r) == json_first_item_keys(s@),
{
    let items = json_member(s, "Items")?;
    let first = json_element(items.as_str(), 0)?;
    json_keys(first.as_str())
}

/// For each `Reservations` element, the length of its `Instances` array.
fn json_instances(s: &str) -> (r: Option<Vec<Option<usize>>>)
    ensures
        match r {
            Some(v) => json_instance_counts(s@) == Some(v@),
            None => json_instance_counts(s@) is None,
        },
{
    let rs = json_member(s, "Reservations")?;
    let n = json_len(rs.as_str())?;
    let mut counts: Vec<Option<usize>> = Vec::new();
    let mut i: usize = 0;
    while i < n
        invariant
            i <= n,
            counts@ =~= Seq::new(i as nat, |j: int| instance_count_at(rs@, j)),
        decreases n - i,
    {
        let c = match json_element(rs.as_str(), i) {
            Some(e) => json_member_len(e.as_str(), "Instances"),
            None => None,
        };
        assert(c == instance_count_at(rs@, i as int));
        counts.push(c);
        i += 1;
    }
    Some(counts)
}

/// `Error.Code` and `Error.Message` as compact JSON.
fn json_error(s: &str) -> (r: Option<(String, Option<String>)>)
    ensures
        match r {
            Some((c, m)) => json_error_fields(s@) == Some(
                (
                    c@,
                    match m {
                        Some(x) => Some(x@),
                        None => None,
                    },
                ),
            ),
            None => json_error_fields(s@) is None,
        },
{
    let e = json_member(s, "Error")?;
    let code = json_member(e.as_str(), "Code")?;
    let message = json_member(e.as_str(), "Message");
    Some((code, message))
}

// ---------------------------------------------------------------------
// Specification
// ---------------------------------------------------------------------

/// A line that reports an error.
pub open spec fn is_aws_error_line(t: Seq<char>) -> bool {
    has_sub(t, "An error occurred"@) || has_sub(t, "Error:"@) || (is_prefix("{"@, t) && has_sub(
        t,
        "\"Error\""@,
    ))
}

/// The error lines of `ls`, trimmed.
pub open spec fn aws_error_lines(ls: Seq<Seq<char>>) -> Seq<Seq<char>>
    decreases ls.len(),
{
    if ls.len() == 0 {
        Seq::empty()
    } else if is_aws_error_line(trim(ls.last())) {
        aws_error_lines(ls.drop_last()).push(trim(ls.last()))
    } else {
        aws_error_lines(ls.drop_last())
    }
}

/// The error report of `output`, if it has one: a JSON error response's code
/// and message, or its error lines.
pub open spec fn aws_errors(output: Seq<char>) -> Option<Seq<char>> {
    if is_prefix("{"@, trim(output)) && has_sub(output, "\"Error\""@) {
        match json_error_fields(output) {
            Some((c, m)) => Some(
                "Error: "@ + c + match m {
                    Some(x) => " - "@ + x,
                    None => Seq::empty(),
                },
            ),
            None => Some(output),
        }
    } else {
        let es = aws_error_lines(lines_of(output));
        if es.len() == 0 {
            None
        } else {
            Some(join(es, "\n"@))
        }
    }
}

/// The sum of the present counts, capped at the largest `usize`.
pub open spec fn count_sum(cs: Seq<Option<usize>>) -> nat
    decreases cs.len(),
{
    if cs.len() == 0 {
        0
    } else {
        let s = count_sum(cs.drop_last()) + match cs.last() {
            Some(n) => n as nat,
            None => 0nat,
        };
        if s > usize::MAX {
            usize::MAX as nat
        } else {
            s
        }
    }
}

/// `"<label><n><suffix>"` when member `key` is an array.
pub open spec fn member_line(t: Seq<char>, key: Seq<char>, label: Seq<char>, suffix: Seq<char>) -> Seq<Seq<char>> {
    match json_member_array_len(t, key) {
        Some(n) => seq![label + decimal(n as nat) + suffix],
        None => Seq::empty(),
    }
}

/// The lines that describe a JSON object response.
pub open spec fn object_lines(t: Seq<char>, keys: Seq<Seq<char>>) -> Seq<Seq<char>> {
    if json_has_member(t, "Items"@) {
        match json_member_array_len(t, "Items"@) {
            Some(n) => seq!["Items: "@ + decimal(n as nat) + " records"@] + match json_first_item_keys(t) {
                Some(ks) => seq!["Fields: "@ + join(first_n(ks, 5), ", "@)],
                None => Seq::empty(),
            },
            None => Seq::empty(),
        }
    } else if json_has_member(t, "Buckets"@) {
        member_line(t, "Buckets"@, "Buckets: "@, ""@)
    } else if json_has_member(t, "Reservations"@) {
        match json_instance_counts(t) {
            Some(cs) => seq!["Instances: "@ + decimal(count_sum(cs))],
            None => Seq::empty(),
        }
    } else if json_has_member(t, "Functions"@) {
        member_line(t, "Functions"@, "Functions: "@, ""@)
    } else if json_has_member(t, "Topics"@) {
        member_line(t, "Topics"@, "Topics: "@, ""@)
    } else if json_has_member(t, "QueueUrls"@) {
        member_line(t, "QueueUrls"@, "Queues: "@, ""@)
    } else {
        seq!["Fields: "@ + join(first_n(keys, 10), ", "@)]
    }
}

/// Summary of a JSON response (`t` is the trimmed output).
pub open spec fn aws_json_summary(t: Seq<char>) -> Seq<char> {
    if !json_parses(t) {
        t
    } else {
        match json_object_keys(t) {
            Some(keys) => {
                let parts = object_lines(t, keys) + if json_has_member(t, "NextToken"@) {
                    seq!["(paginated - more results available)"@]
                } else {
                    Seq::empty()
                };
                if parts.len() == 0 {
                    "(empty response)"@
                } else {
                    join(parts, "\n"@)
                }
            },
            None => match json_array_len(t) {
                Some(n) => "Array: "@ + decimal(n as nat) + " items"@,
                None => "(simple value)"@,
            },
        }
    }
}

/// A line that marks table output.
pub open spec fn is_aws_table_marker(l: Seq<char>) -> bool {
    has_sub(l, "||"@) || (has_sub(l, "|"@) && split_on(l, '|').len() > 2)
}

/// One of the first five lines marks table output.
pub open spec fn is_aws_table(output: Seq<char>) -> bool {
    let ls = lines_of(output);
    exists|i: int| 0 <= i < ls.len() && i < 5 && is_aws_table_marker(#[trigger] ls[i])
}

/// What a scan of table output has found: the header, the rows, whether
/// there are more than ten.
pub open spec fn aws_table_scan(ls: Seq<Seq<char>>) -> (Option<Seq<char>>, nat, bool)
    decreases ls.len(),
{
    if ls.len() == 0 {
        (None, 0, false)
    } else {
        let st = aws_table_scan(ls.drop_last());
        let t = trim(ls.last());
        if t.len() == 0 || is_prefix("+-"@, t) || is_prefix("--"@, t) {
            st
        } else if st.0 is None && has_sub(t, "|"@) {
            let cols = header_cells(split_on(t, '|'));
            if cols.len() > 0 {
                (Some(join(cols, " | "@)), st.1, st.2)
            } else {
                st
            }
        } else if has_sub(t, "|"@) {
            (st.0, st.1 + 1, st.2 || st.1 + 1 > 10)
        } else {
            st
        }
    }
}

/// Summary of table output.
pub open spec fn aws_table_summary(output: Seq<char>) -> Seq<char> {
    let ls = lines_of(output);
    let st = aws_table_scan(ls);
    if ls.len() == 0 {
        "(no output)"@
    } else {
        join(
            match st.0 {
                Some(h) => seq!["Columns: "@ + h],
                None => Seq::empty(),
            } + seq![
                "Rows: "@ + decimal(st.1) + if st.2 {
                    " (truncated)"@
                } else {
                    Seq::empty()
                },
            ],
            "\n"@,
        )
    }
}

/// What the aws module makes of `output` with exit status `exit_code`.
pub open spec fn aws_compress(output: Seq<char>, exit_code: i32) -> Seq<char> {
    match aws_errors(output) {
        Some(e) => e,
        None => if exit_code != 0 {
            error_only(output)
        } else if output.len() == 0 {
            "(no output)"@
        } else if is_prefix("{"@, trim(output)) || is_prefix("["@, trim(output)) {
            aws_json_summary(trim(output))
        } else if is_aws_table(output) {
            aws_table_summary(output)
        } else {
            grouping(output)
        },
    }
}

// ---------------------------------------------------------------------
// Executable
// ---------------------------------------------------------------------

/// The first `n` strings of `v` joined by `, `.
fn join_first(v: &Vec<String>, n: usize) -> (r: Vec<char>)
    ensures
        r@ == join(first_n(Seq::new(v.len() as nat, |i: int| v@[i]@), n as nat), ", "@),
{
    let ghost sv = Seq::new(v.len() as nat, |i: int| v@[i]@);
    let m: usize = if v.len() > n {
        n
    } else {
        v.len()
    };
    let mut parts: Vec<Vec<char>> = Vec::new();
    let mut i: usize = 0;
    while i < m
        invariant
            i <= m,
            m <= v.len(),
            m == (if v.len() > n { n } else { v.len() }),
            sv == Seq::new(v.len() as nat, |i: int| v@[i]@),
            views(parts@) == sv.take(i as int),
        decreases m - i,
    {
        let c = to_chars(v[i].as_str());
        let ghost p0 = parts@;
        parts.push(c);
        proof {
            lemma_views_push(p0, c);
        }
        assert(sv.take(i + 1) =~= sv.take(i as int).push(sv[i as int]));
        i += 1;
    }
    assert(sv.take(m as int) =~= first_n(sv, n as nat));
    join_str(&parts, ", ")
}

/// `"<label><n><suffix>"` for member `key` when it is an array.
fn push_member_line(parts: &mut Vec<Vec<char>>, t: &str, key: &str, label: &str, suffix: &str)
    ensures
        views(final(parts)@) == views(old(parts)@) + member_line(t@, key@, label@, suffix@),
{
    match json_member_len(t, key) {
        Some(n) => {
            let mut l = to_chars(label);
            push_decimal(&mut l, n);
            push_str(&mut l, suffix);
            let ghost p0 = parts@;
            parts.push(l);
            proof {
                lemma_views_push(p0, l);
            }
        },
        None => {
            assert(views(parts@) + Seq::<Seq<char>>::empty() == views(parts@));
        },
    }
}

/// The capped sum of the present counts.
fn count_sum_exec(cs: &Vec<Option<usize>>) -> (r: usize)
    ensures
        r == count_sum(cs@),
{
    let mut sum: usize = 0;
    let mut i: usize = 0;
    while i < cs.len()
        invariant
            i <= cs.len(),
            sum == count_sum(cs@.take(i as int)),
        decreases cs.len() - i,
    {
        assert(cs@.take(i + 1).drop_last() == cs@.take(i as int));
        let add: usize = match cs[i] {
            Some(n) => n,
            None => 0,
        };
        sum = match sum.checked_add(add) {
            Some(x) => x,
            None => usize::MAX,
        };
        i += 1;
    }
    assert(cs@.take(cs.len() as int) == cs@);
    sum
}

/// The lines that describe a JSON object response.
fn object_lines_exec(t: &str, keys: &Vec<String>) -> (r: Vec<Vec<char>>)
    ensures
        views(r@) == object_lines(t@, Seq::new(keys.len() as nat, |i: int| keys@[i]@)),
{
    let mut parts: Vec<Vec<char>> = Vec::new();
    assert(views(parts@) =~= Seq::<Seq<char>>::empty());
    if json_has(t, "Items") {
        match json_member_len(t, "Items") {
            Some(n) => {
                let mut l = to_chars("Items: ");
                push_decimal(&mut l, n);
                push_str(&mut l, " records");
                parts.push(l);
                match json_item_keys(t) {
                    Some(ks) => {
                        let mut f = to_chars("Fields: ");
                        let j = join_first(&ks, 5);
                        push_all(&mut f, &j);
                        parts.push(f);
                    },
                    None => {},
                }
            },
            None => {},
        }
    } else if json_has(t, "Buckets") {
        push_member_line(&mut parts, t, "Buckets", "Buckets: ", "");
    } else if json_has(t, "Reservations") {
        match json_instances(t) {
            Some(cs) => {
                let mut l = to_chars("Instances: ");
                let n = count_sum_exec(&cs);
                push_decimal(&mut l, n);
                parts.push(l);
            },
            None => {},
        }
    } else if json_has(t, "Functions") {
        push_member_line(&mut parts, t, "Functions", "Functions: ", "");
    } else if json_has(t, "Topics") {
        push_member_line(&mut parts, t, "Topics", "Topics: ", "");
    } else if json_has(t, "QueueUrls") {
        push_member_line(&mut parts, t, "QueueUrls", "Queues: ", "");
    } else {
        let mut f = to_chars("Fields: ");
        let j = join_first(keys, 10);
        push_all(&mut f, &j);
        parts.push(f);
    }
    assert(views(parts@) =~= object_lines(t@, Seq::new(keys.len() as nat, |i: int| keys@[i]@)));
    parts
}

fn is_aws_table_marker_exec(l: &Vec<char>) -> (r: bool)
    ensures
        r == is_aws_table_marker(l@),
{
    if contains_str(l, "||") {
        return true;
    }
    if contains_str(l, "|") {
        let parts = split_char(l, '|');
        return parts.len() > 2;
    }
    false
}

impl AwsModule {
    pub fn new() -> (r: Self) {
        Self { error_strategy: ErrorOnly, grouping_strategy: GroupingByPattern }
    }

    /// Summary of a JSON response (`t` is the trimmed output).
    fn format_json_output(&self, t: &str) -> (r: String)
        ensures
            r@ == aws_json_summary(t@),
    {
        if !json_valid(t) {
            let v = to_chars(t);
            return from_chars(&v);
        }
        match json_keys(t) {
            Some(keys) => {
                let mut parts = object_lines_exec(t, &keys);
                if json_has(t, "NextToken") {
                    let l = to_chars("(paginated - more results available)");
                    let ghost p0 = parts@;
                    parts.push(l);
                    proof {
                        lemma_views_push(p0, l);
                    }
                }
                assert(views(parts@) =~= object_lines(
                    t@,
                    Seq::new(keys.len() as nat, |i: int| keys@[i]@),
                ) + if json_has_member(t@, "NextToken"@) {
                    seq!["(paginated - more results available)"@]
                } else {
                    Seq::empty()
                });
                if parts.len() == 0 {
                    return String::from_str("(empty response)");
                }
                let r = join_str(&parts, "\n");
                from_chars(&r)
            },
            None => match json_len(t) {
                Some(n) => {
                    let mut r = to_chars("Array: ");
                    push_decimal(&mut r, n);
                    push_str(&mut r, " items");
                    from_chars(&r)
                },
                None => String::from_str("(simple value)"),
            },
        }
    }

    /// Whether one of the first five lines marks table output.
    fn is_table_output(&self, ls: &Vec<Vec<char>>) -> (r: bool)
        ensures
            r == (exists|i: int| 0 <= i < ls.len() && i < 5 && is_aws_table_marker(#[trigger] views(ls@)[i])),
    {
        let mut i: usize = 0;
        while i < ls.len() && i < 5
            invariant
                i <= ls.len(),
                forall|j: int| 0 <= j < i ==> !is_aws_table_marker(#[trigger] views(ls@)[j]),
            decreases ls.len() - i,
        {
            assert(views(ls@)[i as int] == ls@[i as int]@);
            if is_aws_table_marker_exec(&ls[i]) {
                return true;
            }
            i += 1;
        }
        false
    }

    /// Summary of table output: its columns and its row count.
    fn compress_table_output(&self, output: &str) -> (r: String)
        ensures
            r@ == aws_table_summary(output@),
    {
        let ls = str_lines(output);
        let ghost lv = views(ls@);
        if ls.len() == 0 {
            return String::from_str("(no output)");
        }
        let mut header: Option<Vec<char>> = None;
        let mut rows: usize = 0;
        let mut truncated = false;
        let mut i: usize = 0;
        while i < ls.len()
            invariant
                i <= ls.len(),
                lv == views(ls@),
                rows <= i,
                (crate::text::opt_chars(header), rows as nat, truncated) == aws_table_scan(
                    lv.take(i as int),
                ),
            decreases ls.len() - i,
        {
            assert(lv.take(i + 1).drop_last() == lv.take(i as int));
            assert(lv[i as int] == ls@[i as int]@);
            let t = trim_of(&ls[i]);
            if t.len() == 0 || starts_with_str(&t, "+-") || starts_with_str(&t, "--") {
            } else if header.is_none() && contains_str(&t, "|") {
                let cols = crate::commands::psql_cmd::header_cells_of(&t);
                if cols.len() > 0 {
                    header = Some(join_str(&cols, " | "));
                }
            } else if contains_str(&t, "|") {
                rows = rows + 1;
                if rows > 10 {
                    truncated = true;
                }
            }
            i += 1;
        }
        assert(lv.take(ls.len() as int) == lv);
        let mut parts: Vec<Vec<char>> = Vec::new();
        match &header {
            Some(h) => {
                let mut l = to_chars("Columns: ");
                push_all(&mut l, h);
                parts.push(l);
            },
            None => {},
        }
        let mut l = to_chars("Rows: ");
        push_decimal(&mut l, rows);
        if truncated {
            push_str(&mut l, " (truncated)");
        }
        let ghost p0 = parts@;
        parts.push(l);
        proof {
            lemma_views_push(p0, l);
        }
        let ghost st = aws_table_scan(lv);
        assert(views(parts@) =~= match st.0 {
            Some(h) => seq!["Columns: "@ + h],
            None => Seq::empty(),
        } + seq![
            "Rows: "@ + decimal(st.1) + if st.2 {
                " (truncated)"@
            } else {
                Seq::empty()
            },
        ]);
        let r = join_str(&parts, "\n");
        from_chars(&r)
    }

    /// The error report of the output, if it has one.
    fn extract_errors(&self, output: &str) -> (r: Option<String>)
        ensures
            crate::text::opt_view(r) == aws_errors(output@),
    {
        let v = to_chars(output);
        let t = trim_of(&v);
        if starts_with_str(&t, "{") && contains_str(&v, "\"Error\"") {
            match json_error(output) {
                Some((c, m)) => {
                    let mut r = to_chars("Error: ");
                    let cv = to_chars(c.as_str());
                    push_all(&mut r, &cv);
                    match &m {
                        Some(x) => {
                            push_str(&mut r, " - ");
                            let xv = to_chars(x.as_str());
                            push_all(&mut r, &xv);
                        },
                        None => {},
                    }
                    return Some(from_chars(&r));
                },
                None => {
                    return Some(from_chars(&v));
                },
            }
        }
        let ls = str_lines(output);
        let ghost lv = views(ls@);
        let mut errs: Vec<Vec<char>> = Vec::new();
        let mut i: usize = 0;
        assert(views(errs@) =~= aws_error_lines(lv.take(0)));
        while i < ls.len()
            invariant
                i <= ls.len(),
                lv == views(ls@),
                views(errs@) == aws_error_lines(lv.take(i as int)),
            decreases ls.len() - i,
        {
            assert(lv.take(i + 1).drop_last() == lv.take(i as int));
            assert(lv[i as int] == ls@[i as int]@);
            let lt = trim_of(&ls[i]);
            if contains_str(&lt, "An error occurred") || contains_str(&lt, "Error:") || (
            starts_with_str(&lt, "{") && contains_str(&lt, "\"Error\"")) {
                let ghost e0 = errs@;
                errs.push(lt);
                proof {
                    lemma_views_push(e0, lt);
                }
            }
            i += 1;
        }
        assert(lv.take(ls.len() as int) == lv);
        if errs.len() == 0 {
            None
        } else {
            let r = join_str(&errs, "\n");
            Some(from_chars(&r))
        }
    }
}

impl CommandModule for AwsModule {
    open spec fn spec_name(&self) -> Seq<char> {
        "aws"@
    }

    open spec fn spec_strategy(&self) -> Seq<char> {
        "multi_strategy"@
    }

    open spec fn spec_compress(&self, output: Seq<char>, context: ContextView) -> Seq<char> {
        aws_compress(output, context.exit_code)
    }

    open spec fn accepts(&self, output: Seq<char>, context: ContextView) -> bool {
        true
    }


    fn name(&self) -> (r: &'static str) {
        "aws"
    }

    fn strategy(&self) -> (r: &'static str) {
        "multi_strategy"
    }

    fn compress(&self, output: &str, context: &Context) -> (r: Result<String, RtkError>) {
        match self.extract_errors(output) {
            Some(e) => {
                return Ok(e);
            },
            None => {},
        }
        if context.exit_code != 0 {
            return Ok(error_only_exec(output));
        }
        let v = to_chars(output);
        if v.len() == 0 {
            return Ok(String::from_str("(no output)"));
        }
        let t = trim_of(&v);
        if starts_with_str(&t, "{") || starts_with_str(&t, "[") {
            let ts = from_chars(&t);
            return Ok(self.format_json_output(ts.as_str()));
        }
        let ls = crate::text::lines(&v);
        if self.is_table_output(&ls) {
            return Ok(self.compress_table_output(output));
        }
        Ok(grouping_exec(output))
    }
}

} // verus!
