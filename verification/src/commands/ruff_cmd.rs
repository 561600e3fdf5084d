//! `ruff` output: JSON diagnostics counted per code, text output grouped.

use crate::commands::git::context_command;
use crate::commands::CommandModule;
use crate::filter::error_only::first_n;
use crate::filter::grouping::{grouping, grouping_exec, render_kvs, render_top, sort_desc, sort_exec, tally, tally_of};
use crate::filter::GroupingByPattern;
use crate::text::{contains_str, decimal, ends_with_str, from_chars, has_sub, is_prefix, is_suffix, join, join_str, lemma_views_push, lower, lowercase, push_all, push_decimal, push_str, starts_with_str, slice_of, to_chars, trim, trim_of, trim_start, trim_start_of, views};
use crate::json::{
    json_array_len, json_element, json_element_text, json_kind, json_kind_of, json_len,
    record_field, record_field_exec, record_shape, record_shape_exec, string_field,
    string_field_exec, string_field_ok, string_field_ok_exec, usize_field_ok, usize_field_ok_exec,
    JsonKind,
};
use crate::text::opt_view;
use crate::{Context, ContextView, RtkError};
use vstd::prelude::*;

verus! {

/// Compression module for `ruff`.
pub struct RuffModule {
    grouping_strategy: GroupingByPattern,
}

/// What the summary reads of one JSON diagnostic: its rule code, if any, and
/// whether it carries a fix.
pub struct RuffMessage {
    pub code: Option<String>,
    pub fixable: bool,
}

// ---------------------------------------------------------------------
// Specification
// ---------------------------------------------------------------------

/// Whether what follows the opening bracket of `t` can start JSON
/// diagnostics: after `[`, a `]` or `{` (past whitespace); after `{`, a `}`
/// or `"`. This keeps text such as `[INFO]` or `{placeholder}` out.
pub open spec fn opens_json(t: Seq<char>) -> bool {
    let inner = trim_start(t.skip(1));
    inner.len() > 0 && if t[0] == '[' {
        inner[0] == ']' || inner[0] == '{'
    } else {
        inner[0] == '}' || inner[0] == '"'
    }
}

/// Output that looks like one JSON array or object: trimmed, it is enclosed
/// in brackets or braces, and its opening bracket is followed by what JSON
/// diagnostics start with.
pub open spec fn is_json_text(output: Seq<char>) -> bool {
    let t = trim(output);
    ((is_prefix("["@, t) && is_suffix("]"@, t)) || (is_prefix("{"@, t) && is_suffix("}"@, t)))
        && opens_json(t)
}

/// A command line that asks ruff for JSON output.
pub open spec fn is_json_command(command: Seq<char>) -> bool {
    let l = lowercase(command);
    has_sub(l, "--output-format=json"@) || has_sub(l, "--output-format json"@) || has_sub(
        l,
        "--format=json"@,
    ) || has_sub(l, "--format json"@) || has_sub(l, "-o json"@)
}

/// The output is read as JSON diagnostics.
pub open spec fn ruff_json_route(output: Seq<char>, context: ContextView) -> bool {
    match context_command(context) {
        Some(c) => is_json_command(c) || is_json_text(output),
        None => is_json_text(output),
    }
}

/// What the ruff module makes of `output`: JSON output as its diagnostics
/// (line grouping when it does not read as a list of them), other output as
/// text.
pub open spec fn ruff_compress(output: Seq<char>, context: ContextView) -> Seq<char> {
    if ruff_json_route(output, context) {
        ruff_json(output, ruff_messages(output))
    } else {
        ruff_text(output)
    }
}

/// Summary of text output.
pub open spec fn ruff_text(output: Seq<char>) -> Seq<char> {
    if output.len() == 0 {
        "(no output)"@
    } else if has_sub(lowercase(output), "all checks passed"@) || has_sub(
        lowercase(output),
        "no issues found"@,
    ) || trim(output).len() == 0 {
        "(no issues)"@
    } else {
        grouping(output)
    }
}

/// A diagnostic as its code and whether it is fixable.
pub open spec fn message_view(m: RuffMessage) -> (Option<Seq<char>>, bool) {
    (
        match m.code {
            Some(c) => Some(c@),
            None => None,
        },
        m.fixable,
    )
}

/// The codes of the diagnostics that have one, in order.
pub open spec fn message_codes(ms: Seq<(Option<Seq<char>>, bool)>) -> Seq<Seq<char>>
    decreases ms.len(),
{
    if ms.len() == 0 {
        Seq::empty()
    } else {
        match ms.last().0 {
            Some(c) => message_codes(ms.drop_last()).push(c),
            None => message_codes(ms.drop_last()),
        }
    }
}

/// The number of fixable diagnostics.
pub open spec fn fixable_count(ms: Seq<(Option<Seq<char>>, bool)>) -> nat
    decreases ms.len(),
{
    if ms.len() == 0 {
        0
    } else {
        fixable_count(ms.drop_last()) + if ms.last().1 {
            1nat
        } else {
            0nat
        }
    }
}

/// Summary of parsed diagnostics: their number, the ten most frequent codes
/// and the number of fixable ones.
pub open spec fn ruff_json_summary(ms: Seq<(Option<Seq<char>>, bool)>) -> Seq<char> {
    if ms.len() == 0 {
        "(no issues)"@
    } else {
        let codes = message_codes(ms);
        let top = first_n(sort_desc(tally(codes)), 10);
        join(
            seq![decimal(ms.len()) + " issues"@] + if codes.len() > 0 {
                seq!["codes: ["@ + join(render_kvs(top, ""@), ", "@) + "]"@]
            } else {
                Seq::empty()
            } + if fixable_count(ms) > 0 {
                seq![decimal(fixable_count(ms)) + " fixable"@]
            } else {
                Seq::empty()
            },
            ", "@,
        )
    }
}

/// What JSON output becomes: the summary of the parsed diagnostics, or line
/// grouping when the output did not parse as a list of diagnostics.
pub open spec fn ruff_json(output: Seq<char>, parsed: Option<Seq<(Option<Seq<char>>, bool)>>) -> Seq<char> {
    match parsed {
        Some(ms) => ruff_json_summary(ms),
        None => grouping(output),
    }
}

/// A `location` field reads: absent, `null`, or a record of `row` and
/// `column`, each absent, `null` or a `usize`.
pub open spec fn location_ok(t: Option<Seq<char>>) -> bool {
    match t {
        Some(x) => json_kind(x) == Some(JsonKind::Null) || match record_shape(x, 2) {
            Some(obj) => usize_field_ok(record_field(x, obj, "row"@, 0)) && usize_field_ok(
                record_field(x, obj, "column"@, 1),
            ),
            None => false,
        },
        None => true,
    }
}

/// A `fix` field reads: absent, `null`, or a record of `message`, absent,
/// `null` or a string.
pub open spec fn fix_ok(t: Option<Seq<char>>) -> bool {
    match t {
        Some(x) => json_kind(x) == Some(JsonKind::Null) || match record_shape(x, 1) {
            Some(obj) => string_field_ok(record_field(x, obj, "message"@, 0)),
            None => false,
        },
        None => true,
    }
}

/// A diagnostic carries a fix: its `fix` field is present and not `null`.
pub open spec fn fix_present(t: Option<Seq<char>>) -> bool {
    match t {
        Some(x) => json_kind(x) != Some(JsonKind::Null),
        None => false,
    }
}

/// The diagnostic a JSON value holds, as its code and whether it is
/// fixable: a record with the fields `type`, `message`, `code` (each absent,
/// `null` or a string), `location` and `fix`, read from an object or from an
/// array of exactly those five fields in that order.
pub open spec fn ruff_message(s: Seq<char>) -> Option<(Option<Seq<char>>, bool)> {
    match record_shape(s, 5) {
        Some(obj) => {
            let kind = record_field(s, obj, "type"@, 0);
            let message = record_field(s, obj, "message"@, 1);
            let code = record_field(s, obj, "code"@, 2);
            let location = record_field(s, obj, "location"@, 3);
            let fix = record_field(s, obj, "fix"@, 4);
            if string_field_ok(kind) && string_field_ok(message) && string_field_ok(code)
                && location_ok(location) && fix_ok(fix) {
                Some((string_field(code), fix_present(fix)))
            } else {
                None
            }
        },
        None => None,
    }
}

/// The diagnostics of the first `n` elements of array `s`, when each holds
/// one.
pub open spec fn ruff_messages_upto(s: Seq<char>, n: nat) -> Option<Seq<(Option<Seq<char>>, bool)>>
    decreases n,
{
    if n == 0 {
        Some(Seq::empty())
    } else {
        match ruff_messages_upto(s, (n - 1) as nat) {
            Some(ms) => match json_element_text(s, (n - 1) as usize) {
                Some(e) => match ruff_message(e) {
                    Some(m) => Some(ms.push(m)),
                    None => None,
                },
                None => None,
            },
            None => None,
        }
    }
}

/// The diagnostics of JSON output: an array whose every element holds one;
/// None when the output does not read as such a list.
pub open spec fn ruff_messages(output: Seq<char>) -> Option<Seq<(Option<Seq<char>>, bool)>> {
    if json_kind(output) == Some(JsonKind::List) {
        match json_array_len(output) {
            Some(n) => ruff_messages_upto(output, n as nat),
            None => None,
        }
    } else {
        None
    }
}

proof fn lemma_messages_upto_none(s: Seq<char>, k: nat, m: nat)
    requires
        k <= m,
        ruff_messages_upto(s, k) is None,
    ensures
        ruff_messages_upto(s, m) is None,
    decreases m - k,
{
    if k < m {
        lemma_messages_upto_none(s, k, (m - 1) as nat);
    }
}

fn location_ok_exec(t: &Option<String>) -> (r: bool)
    ensures
        r == location_ok(opt_view(*t)),
{
    match t {
        Some(x) => {
            if json_kind_of(x.as_str()) == Some(JsonKind::Null) {
                return true;
            }
            match record_shape_exec(x.as_str(), 2) {
                Some(obj) => usize_field_ok_exec(&record_field_exec(x.as_str(), obj, "row", 0))
                    && usize_field_ok_exec(&record_field_exec(x.as_str(), obj, "column", 1)),
                None => false,
            }
        },
        None => true,
    }
}

fn fix_ok_exec(t: &Option<String>) -> (r: bool)
    ensures
        r == fix_ok(opt_view(*t)),
{
    match t {
        Some(x) => {
            if json_kind_of(x.as_str()) == Some(JsonKind::Null) {
                return true;
            }
            match record_shape_exec(x.as_str(), 1) {
                Some(obj) => string_field_ok_exec(&record_field_exec(x.as_str(), obj, "message", 0)),
                None => false,
            }
        },
        None => true,
    }
}

fn fix_present_exec(t: &Option<String>) -> (r: bool)
    ensures
        r == fix_present(opt_view(*t)),
{
    match t {
        Some(x) => json_kind_of(x.as_str()) != Some(JsonKind::Null),
        None => false,
    }
}

/// The diagnostic a JSON value holds (see `ruff_message`).
pub fn parse_message(s: &str) -> (r: Option<RuffMessage>)
    ensures
        match r {
            Some(m) => ruff_message(s@) == Some(message_view(m)),
            None => ruff_message(s@) is None,
        },
{
    let obj = record_shape_exec(s, 5)?;
    let kind = record_field_exec(s, obj, "type", 0);
    let message = record_field_exec(s, obj, "message", 1);
    let code = record_field_exec(s, obj, "code", 2);
    let location = record_field_exec(s, obj, "location", 3);
    let fix = record_field_exec(s, obj, "fix", 4);
    if string_field_ok_exec(&kind) && string_field_ok_exec(&message) && string_field_ok_exec(&code)
        && location_ok_exec(&location) && fix_ok_exec(&fix) {
        Some(RuffMessage { code: string_field_exec(&code), fixable: fix_present_exec(&fix) })
    } else {
        None
    }
}

/// The diagnostics of JSON output (see `ruff_messages`).
pub fn parse_messages(output: &str) -> (r: Option<Vec<RuffMessage>>)
    ensures
        messages_view(r) == ruff_messages(output@),
{
    if json_kind_of(output) != Some(JsonKind::List) {
        return None;
    }
    let n = json_len(output)?;
    let mut ms: Vec<RuffMessage> = Vec::new();
    let mut i: usize = 0;
    while i < n
        invariant
            i <= n,
            json_array_len(output@) == Some(n),
            json_kind(output@) == Some(JsonKind::List),
            ruff_messages_upto(output@, i as nat) == messages_view(Some(ms)),
        decreases n - i,
    {
        let e = match json_element(output, i) {
            Some(e) => e,
            None => {
                proof {
                    lemma_messages_upto_none(output@, (i + 1) as nat, n as nat);
                }
                return None;
            },
        };
        match parse_message(e.as_str()) {
            Some(m) => {
                let ghost old_ms = ms@;
                ms.push(m);
                assert(messages_view(Some(ms)) == Some(
                    messages_view(Some(ms)).unwrap(),
                ));
                assert(messages_view(Some(ms)).unwrap() =~= Seq::new(
                    old_ms.len() as nat,
                    |j: int| message_view(old_ms[j]),
                ).push(message_view(m)));
            },
            None => {
                proof {
                    lemma_messages_upto_none(output@, (i + 1) as nat, n as nat);
                }
                return None;
            },
        }
        i += 1;
    }
    Some(ms)
}

/// The diagnostics of a parse result.
pub open spec fn messages_view(parsed: Option<Vec<RuffMessage>>) -> Option<Seq<(Option<Seq<char>>, bool)>> {
    match parsed {
        Some(v) => Some(Seq::new(v.len() as nat, |i: int| message_view(v@[i]))),
        None => None,
    }
}

// ---------------------------------------------------------------------
// Executable
// ---------------------------------------------------------------------

fn is_json_text_exec(output: &Vec<char>) -> (r: bool)
    ensures
        r == is_json_text(output@),
{
    let t = trim_of(output);
    let enclosed = (starts_with_str(&t, "[") && ends_with_str(&t, "]")) || (starts_with_str(
        &t,
        "{",
    ) && ends_with_str(&t, "}"));
    if !enclosed {
        return false;
    }
    proof {
        reveal_strlit("[");
        reveal_strlit("{");
    }
    assert(t@.len() >= 1);
    let inner = trim_start_of(&slice_of(&t, 1, t.len()));
    assert(t@.subrange(1, t@.len() as int) == t@.skip(1));
    if inner.len() == 0 {
        return false;
    }
    let c = inner[0];
    if t[0] == '[' {
        c == ']' || c == '{'
    } else {
        c == '}' || c == '"'
    }
}

fn is_json_command_exec(command: &Vec<char>) -> (r: bool)
    ensures
        r == is_json_command(command@),
{
    let l = lower(command);
    contains_str(&l, "--output-format=json") || contains_str(&l, "--output-format json")
        || contains_str(&l, "--format=json") || contains_str(&l, "--format json")
        || contains_str(&l, "-o json")
}

impl RuffModule {
    pub fn new() -> (r: Self) {
        Self { grouping_strategy: GroupingByPattern }
    }

    /// Whether the output is read as JSON diagnostics.
    pub fn is_json_route(&self, output: &str, context: &Context) -> (r: bool)
        ensures
            r == ruff_json_route(output@, context@),
    {
        let v = to_chars(output);
        match &context.command {
            Some(c) => {
                let cv = to_chars(c.as_str());
                is_json_command_exec(&cv) || is_json_text_exec(&v)
            },
            None => is_json_text_exec(&v),
        }
    }

    /// Summary of text output.
    fn handle_text_output(&self, output: &str) -> (r: String)
        ensures
            r@ == ruff_text(output@),
    {
        let v = to_chars(output);
        if v.len() == 0 {
            return String::from_str("(no output)");
        }
        let l = lower(&v);
        let t = trim_of(&v);
        if contains_str(&l, "all checks passed") || contains_str(&l, "no issues found") || t.len()
            == 0 {
            return String::from_str("(no issues)");
        }
        grouping_exec(output)
    }

    /// What JSON output becomes, given the result of parsing it as a list of
    /// diagnostics (`None` when it does not parse).
    pub fn compress_json(&self, output: &str, parsed: &Option<Vec<RuffMessage>>) -> (r: String)
        ensures
            r@ == ruff_json(output@, messages_view(*parsed)),
    {
        match parsed {
            None => grouping_exec(output),
            Some(ms) => summarize_messages(ms),
        }
    }
}

/// Summary of parsed diagnostics.
fn summarize_messages(ms: &Vec<RuffMessage>) -> (r: String)
    ensures
        r@ == ruff_json_summary(Seq::new(ms.len() as nat, |i: int| message_view(ms@[i]))),
{
    let ghost mv = Seq::new(ms.len() as nat, |i: int| message_view(ms@[i]));
    if ms.len() == 0 {
        return String::from_str("(no issues)");
    }
    let mut codes: Vec<Vec<char>> = Vec::new();
    let mut fixable: usize = 0;
    let mut i: usize = 0;
    assert(views(codes@) =~= message_codes(mv.take(0)));
    while i < ms.len()
        invariant
            i <= ms.len(),
            mv == Seq::new(ms.len() as nat, |i: int| message_view(ms@[i])),
            views(codes@) == message_codes(mv.take(i as int)),
            fixable == fixable_count(mv.take(i as int)),
            fixable <= i,
        decreases ms.len() - i,
    {
        assert(mv.take(i + 1).drop_last() == mv.take(i as int));
        assert(mv.take(i + 1).last() == message_view(ms@[i as int]));
        match &ms[i].code {
            Some(c) => {
                let cv = to_chars(c.as_str());
                let ghost c0 = codes@;
                codes.push(cv);
                proof {
                    lemma_views_push(c0, cv);
                }
            },
            None => {},
        }
        if ms[i].fixable {
            fixable = fixable + 1;
        }
        i += 1;
    }
    assert(mv.take(ms.len() as int) == mv);
    let mut parts: Vec<Vec<char>> = Vec::new();
    let mut first: Vec<char> = Vec::new();
    push_decimal(&mut first, ms.len());
    push_str(&mut first, " issues");
    parts.push(first);
    let ghost p1 = seq![first@];
    assert(views(parts@) =~= p1);
    if codes.len() > 0 {
        let (keys, counts) = tally_of(&codes);
        let (sk, sc) = sort_exec(keys, counts);
        let top = render_top(&sk, &sc, 10, "");
        let j = join_str(&top, ", ");
        let mut l = to_chars("codes: [");
        push_all(&mut l, &j);
        push_str(&mut l, "]");
        let ghost q0 = parts@;
        parts.push(l);
        proof {
            lemma_views_push(q0, l);
        }
        assert(views(parts@) =~= p1 + seq![
            "codes: ["@ + join(
                render_kvs(first_n(sort_desc(tally(message_codes(mv))), 10), ""@),
                ", "@,
            ) + "]"@,
        ]);
    } else {
        assert(views(parts@) =~= p1 + Seq::<Seq<char>>::empty());
    }
    let ghost p2 = views(parts@);
    if fixable > 0 {
        let mut l: Vec<char> = Vec::new();
        push_decimal(&mut l, fixable);
        push_str(&mut l, " fixable");
        let ghost q1 = parts@;
        parts.push(l);
        proof {
            lemma_views_push(q1, l);
        }
    }
    assert(views(parts@) =~= seq![decimal(mv.len()) + " issues"@] + (if message_codes(mv).len() > 0 {
        seq![
            "codes: ["@ + join(
                render_kvs(first_n(sort_desc(tally(message_codes(mv))), 10), ""@),
                ", "@,
            ) + "]"@,
        ]
    } else {
        Seq::empty()
    }) + (if fixable_count(mv) > 0 {
        seq![decimal(fixable_count(mv)) + " fixable"@]
    } else {
        Seq::empty()
    }));
    let r = join_str(&parts, ", ");
    from_chars(&r)
}

impl CommandModule for RuffModule {
    open spec fn spec_name(&self) -> Seq<char> {
        "ruff"@
    }

    open spec fn spec_strategy(&self) -> Seq<char> {
        "json_text_dual"@
    }

    open spec fn spec_compress(&self, output: Seq<char>, context: ContextView) -> Seq<char> {
        ruff_compress(output, context)
    }

    open spec fn accepts(&self, output: Seq<char>, context: ContextView) -> bool {
        true
    }


    fn name(&self) -> (r: &'static str) {
        "ruff"
    }

    fn strategy(&self) -> (r: &'static str) {
        "json_text_dual"
    }

    fn compress(&self, output: &str, context: &Context) -> (r: Result<String, RtkError>) {
        if self.is_json_route(output, context) {
            let parsed = parse_messages(output);
            return Ok(self.compress_json(output, &parsed));
        }
        Ok(self.handle_text_output(output))
    }
}

} // verus!
