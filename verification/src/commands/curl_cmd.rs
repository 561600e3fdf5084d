//! `curl` output: errors, or a summary of status and headers.

use crate::commands::git::context_command;
use crate::commands::CommandModule;
use crate::filter::error_only::{error_only, error_only_exec, first_n};
use crate::filter::grouping::{grouping, grouping_exec};
use crate::filter::{ErrorOnly, GroupingByPattern};
use crate::text::{contains_char, contains_str, copy, eq_str, from_chars, has_sub, is_prefix, join, join_str, lemma_views_push, lines, lines_of, lower, lowercase, push_all, push_str, split_char, split_on, split_whitespace, starts_with_str, strip_prefix_str, to_chars, trim, trim_of, views, words};
use crate::{Context, ContextView, RtkError};
use vstd::prelude::*;

verus! {

/// Compression module for `curl`.
pub struct CurlModule {
    error_strategy: ErrorOnly,
    grouping_strategy: GroupingByPattern,
}

/// What a scan of curl output has found so far.
pub struct CurlScan {
    pub status: Option<Seq<char>>,
    pub content_type: Option<Seq<char>>,
    pub content_length: Option<Seq<char>>,
    pub has_body: bool,
    pub errors: Seq<Seq<char>>,
}

/// A trimmed line that reports a connection-level failure (without the
/// timeout pattern).
pub open spec fn is_curl_failure(t: Seq<char>) -> bool {
    is_prefix("curl:"@, t) || has_sub(t, "Connection refused"@) || has_sub(
        t,
        "Could not resolve host"@,
    ) || has_sub(t, "Failed to connect"@) || has_sub(t, "SSL certificate problem"@)
}

/// A trimmed line that reports a curl error.
pub open spec fn is_curl_error(t: Seq<char>) -> bool {
    is_curl_failure(t) || has_sub(t, "Operation timed out"@)
}

/// The value after the first colon of a header line, trimmed (empty when
/// there is no colon).
pub open spec fn header_value(line: Seq<char>) -> Seq<char> {
    let pieces = split_on(line, ':');
    if pieces.len() > 1 {
        trim(pieces[1])
    } else {
        Seq::empty()
    }
}

/// A trimmed line without curl's `< ` prefix for incoming headers.
pub open spec fn curl_clean(t: Seq<char>) -> Seq<char> {
    if is_prefix("< "@, t) {
        t.skip("< "@.len() as int)
    } else {
        t
    }
}

/// The status text of an `HTTP/` line: its second and third words.
pub open spec fn status_text(cleaned: Seq<char>) -> Option<Seq<char>> {
    let parts = words(cleaned);
    if is_prefix("HTTP/"@, cleaned) && parts.len() >= 2 {
        Some(parts[1] + " "@ + if parts.len() > 2 {
            parts[2]
        } else {
            Seq::empty()
        })
    } else {
        None
    }
}

/// The scan after one more line.
pub open spec fn curl_step(st: CurlScan, line: Seq<char>) -> CurlScan {
    let t = trim(line);
    let c = curl_clean(t);
    let low = lowercase(c);
    CurlScan {
        status: match status_text(c) {
            Some(s) => Some(s),
            None => st.status,
        },
        content_type: if is_prefix("content-type:"@, low) {
            Some(header_value(c))
        } else {
            st.content_type
        },
        content_length: if is_prefix("content-length:"@, low) {
            Some(header_value(c))
        } else {
            st.content_length
        },
        has_body: st.has_body || (t.len() > 0 && !has_sub(t, seq![':']) && !is_prefix(
            "HTTP/"@,
            t,
        )),
        errors: if is_curl_failure(t) {
            st.errors.push(t)
        } else {
            st.errors
        },
    }
}

/// The scan of a list of lines.
pub open spec fn curl_scan(ls: Seq<Seq<char>>) -> CurlScan
    decreases ls.len(),
{
    if ls.len() == 0 {
        CurlScan {
            status: None,
            content_type: None,
            content_length: None,
            has_body: false,
            errors: Seq::empty(),
        }
    } else {
        curl_step(curl_scan(ls.drop_last()), ls.last())
    }
}

/// The header summary lines of a scan.
pub open spec fn curl_parts(st: CurlScan) -> Seq<Seq<char>> {
    (match st.status {
        Some(s) => seq!["Status: "@ + s],
        None => Seq::empty(),
    }) + (match st.content_type {
        Some(s) => seq!["Content-Type: "@ + s],
        None => Seq::empty(),
    }) + (match st.content_length {
        Some(s) => seq!["Content-Length: "@ + s + " bytes"@],
        None => Seq::empty(),
    })
}

/// The response summary of curl output.
pub open spec fn curl_response_summary(output: Seq<char>) -> Seq<char> {
    let ls = lines_of(output);
    let st = curl_scan(ls);
    let parts = curl_parts(st);
    if st.errors.len() > 0 {
        "Error: "@ + join(st.errors, "; "@)
    } else if st.has_body && parts.len() == 0 {
        grouping(output)
    } else if parts.len() == 0 {
        if output.len() == 0 {
            "(no output)"@
        } else if first_n(ls, 5).len() < ls.len() {
            join(first_n(ls, 5), "\n"@) + "\n... (truncated)"@
        } else {
            output
        }
    } else {
        join(parts, "\n"@)
    }
}

/// The trimmed error lines of `ls`.
pub open spec fn curl_error_lines(ls: Seq<Seq<char>>) -> Seq<Seq<char>>
    decreases ls.len(),
{
    if ls.len() == 0 {
        Seq::empty()
    } else if is_curl_error(trim(ls.last())) {
        curl_error_lines(ls.drop_last()).push(trim(ls.last()))
    } else {
        curl_error_lines(ls.drop_last())
    }
}

/// Whether a command line asks for verbose output.
pub open spec fn is_verbose(command: Seq<char>) -> bool {
    exists|k: int|
        0 <= k < words(command).len() && (#[trigger] words(command)[k] == "-v"@ || words(
            command,
        )[k] == "--verbose"@)
}

/// What the curl module makes of `output`.
pub open spec fn curl_compress(output: Seq<char>, context: ContextView) -> Seq<char> {
    let errs = join(curl_error_lines(lines_of(output)), "\n"@);
    if errs.len() > 0 {
        errs
    } else if context.exit_code != 0 {
        error_only(output)
    } else if (match context_command(context) {
        Some(c) => is_verbose(c),
        None => false,
    }) {
        curl_response_summary(output)
    } else if has_sub(output, "HTTP/"@) {
        curl_response_summary(output)
    } else if lines_of(output).len() > 20 {
        grouping(output)
    } else if output.len() == 0 {
        "(no output)"@
    } else {
        output
    }
}

/// Whether a trimmed line reports a connection-level failure.
fn is_curl_failure_exec(t: &Vec<char>) -> (r: bool)
    ensures
        r == is_curl_failure(t@),
{
    starts_with_str(t, "curl:") || contains_str(t, "Connection refused") || contains_str(
        t,
        "Could not resolve host",
    ) || contains_str(t, "Failed to connect") || contains_str(t, "SSL certificate problem")
}

/// The value after the first colon of a header line, trimmed.
fn header_value_exec(line: &Vec<char>) -> (r: Vec<char>)
    ensures
        r@ == header_value(line@),
{
    let pieces = split_char(line, ':');
    if pieces.len() > 1 {
        assert(views(pieces@)[1] == pieces@[1]@);
        trim_of(&pieces[1])
    } else {
        Vec::new()
    }
}

/// The status text of an `HTTP/` line.
fn status_text_exec(c: &Vec<char>) -> (r: Option<Vec<char>>)
    ensures
        match r {
            Some(s) => status_text(c@) == Some(s@),
            None => status_text(c@) is None,
        },
{
    if !starts_with_str(c, "HTTP/") {
        return None;
    }
    let parts = split_whitespace(c);
    if parts.len() < 2 {
        return None;
    }
    assert(views(parts@)[1] == parts@[1]@);
    let mut s = copy(&parts[1]);
    push_str(&mut s, " ");
    if parts.len() > 2 {
        assert(views(parts@)[2] == parts@[2]@);
        push_all(&mut s, &parts[2]);
    } else {
        assert(s@ + Seq::<char>::empty() == s@);
    }
    Some(s)
}

impl CurlModule {
    pub fn new() -> (r: Self) {
        Self { error_strategy: ErrorOnly, grouping_strategy: GroupingByPattern }
    }

    /// Summary of status line and headers of curl output.
    pub fn extract_response_summary(&self, output: &str) -> (r: String)
        ensures
            r@ == curl_response_summary(output@),
    {
        let v = to_chars(output);
        let ls = lines(&v);
        let ghost lv = views(ls@);
        let mut status: Option<Vec<char>> = None;
        let mut content_type: Option<Vec<char>> = None;
        let mut content_length: Option<Vec<char>> = None;
        let mut has_body = false;
        let mut errors: Vec<Vec<char>> = Vec::new();
        let mut i: usize = 0;
        assert(views(errors@) =~= Seq::<Seq<char>>::empty());
        while i < ls.len()
            invariant
                i <= ls.len(),
                lv == views(ls@),
                ({
                    let st = curl_scan(lv.take(i as int));
                    &&& st.status == (match status {
                        Some(s) => Some(s@),
                        None => None,
                    })
                    &&& st.content_type == (match content_type {
                        Some(s) => Some(s@),
                        None => None,
                    })
                    &&& st.content_length == (match content_length {
                        Some(s) => Some(s@),
                        None => None,
                    })
                    &&& st.has_body == has_body
                    &&& st.errors == views(errors@)
                }),
            decreases ls.len() - i,
        {
            let line = &ls[i];
            assert(lv.take(i + 1).drop_last() == lv.take(i as int));
            assert(lv[i as int] == line@);
            let t = trim_of(line);
            let c = match strip_prefix_str(&t, "< ") {
                Some(rest) => rest,
                None => copy(&t),
            };
            match status_text_exec(&c) {
                Some(s) => {
                    status = Some(s);
                },
                None => {},
            }
            let low = lower(&c);
            if starts_with_str(&low, "content-type:") {
                content_type = Some(header_value_exec(&c));
            }
            if starts_with_str(&low, "content-length:") {
                content_length = Some(header_value_exec(&c));
            }
            if t.len() > 0 && !contains_char(&t, ':') && !starts_with_str(&t, "HTTP/") {
                has_body = true;
            }
            if is_curl_failure_exec(&t) {
                let ghost e0 = errors@;
                errors.push(t);
                proof {
                    lemma_views_push(e0, t);
                }
            }
            i += 1;
        }
        assert(lv.take(ls.len() as int) == lv);
        if errors.len() > 0 {
            let j = join_str(&errors, "; ");
            let mut r = to_chars("Error: ");
            push_all(&mut r, &j);
            return from_chars(&r);
        }
        let mut parts: Vec<Vec<char>> = Vec::new();
        assert(views(parts@) =~= Seq::<Seq<char>>::empty());
        match status {
            Some(s) => {
                let mut p = to_chars("Status: ");
                push_all(&mut p, &s);
                parts.push(p);
                assert(views(parts@) =~= seq![p@]);
            },
            None => {},
        }
        match content_type {
            Some(s) => {
                let mut p = to_chars("Content-Type: ");
                push_all(&mut p, &s);
                let ghost p0 = parts@;
                parts.push(p);
                proof {
                    lemma_views_push(p0, p);
                }
            },
            None => {},
        }
        match content_length {
            Some(s) => {
                let mut p = to_chars("Content-Length: ");
                push_all(&mut p, &s);
                push_str(&mut p, " bytes");
                let ghost p0 = parts@;
                parts.push(p);
                proof {
                    lemma_views_push(p0, p);
                }
            },
            None => {},
        }
        assert(views(parts@) =~= curl_parts(curl_scan(lv)));
        if has_body && parts.len() == 0 {
            return grouping_exec(output);
        }
        if parts.len() == 0 {
            if v.len() == 0 {
                return String::from_str("(no output)");
            }
            if ls.len() > 5 {
                let mut first: Vec<Vec<char>> = Vec::new();
                let mut k: usize = 0;
                while k < 5
                    invariant
                        k <= 5,
                        5 < ls.len(),
                        lv == views(ls@),
                        views(first@) == lv.take(k as int),
                    decreases 5 - k,
                {
                    let l = copy(&ls[k]);
                    let ghost f0 = first@;
                    first.push(l);
                    proof {
                        lemma_views_push(f0, l);
                        assert(lv.take(k + 1) == lv.take(k as int).push(lv[k as int]));
                    }
                    k += 1;
                }
                let mut r = join_str(&first, "\n");
                push_str(&mut r, "\n... (truncated)");
                return from_chars(&r);
            }
            return from_chars(&v);
        }
        let j = join_str(&parts, "\n");
        from_chars(&j)
    }

    /// Whether a command line asks for verbose output.
    pub fn is_verbose_output(&self, command: &str) -> (r: bool)
        ensures
            r == is_verbose(command@),
    {
        let v = to_chars(command);
        let args = split_whitespace(&v);
        let mut k: usize = 0;
        while k < args.len()
            invariant
                k <= args.len(),
                views(args@) == words(command@),
                forall|j: int|
                    0 <= j < k ==> !(#[trigger] words(command@)[j] == "-v"@ || words(command@)[j]
                        == "--verbose"@),
            decreases args.len() - k,
        {
            assert(views(args@)[k as int] == args@[k as int]@);
            if eq_str(&args[k], "-v") || eq_str(&args[k], "--verbose") {
                return true;
            }
            k += 1;
        }
        false
    }

    /// The curl error lines of `output`, trimmed and joined by newlines.
    pub fn extract_curl_errors(&self, output: &str) -> (r: String)
        ensures
            r@ == join(curl_error_lines(lines_of(output@)), "\n"@),
    {
        let ls = crate::text::str_lines(output);
        let ghost lv = views(ls@);
        let mut errors: Vec<Vec<char>> = Vec::new();
        let mut i: usize = 0;
        while i < ls.len()
            invariant
                i <= ls.len(),
                lv == views(ls@),
                views(errors@) == curl_error_lines(lv.take(i as int)),
            decreases ls.len() - i,
        {
            assert(lv.take(i + 1).drop_last() == lv.take(i as int));
            assert(lv[i as int] == ls@[i as int]@);
            let t = trim_of(&ls[i]);
            if is_curl_failure_exec(&t) || contains_str(&t, "Operation timed out") {
                let ghost e0 = errors@;
                errors.push(t);
                proof {
                    lemma_views_push(e0, t);
                }
            }
            i += 1;
        }
        assert(lv.take(ls.len() as int) == lv);
        let j = join_str(&errors, "\n");
        from_chars(&j)
    }
}

impl CommandModule for CurlModule {
    open spec fn spec_name(&self) -> Seq<char> {
        "curl"@
    }

    open spec fn spec_strategy(&self) -> Seq<char> {
        "multi_strategy"@
    }

    open spec fn spec_compress(&self, output: Seq<char>, context: ContextView) -> Seq<char> {
        curl_compress(output, context)
    }

    open spec fn accepts(&self, output: Seq<char>, context: ContextView) -> bool {
        true
    }


    fn name(&self) -> (r: &'static str) {
        "curl"
    }

    fn strategy(&self) -> (r: &'static str) {
        "multi_strategy"
    }

    fn compress(&self, output: &str, context: &Context) -> (r: Result<String, RtkError>) {
        let errs = self.extract_curl_errors(output);
        let ev = to_chars(errs.as_str());
        if ev.len() > 0 {
            return Ok(errs);
        }
        if context.exit_code != 0 {
            return Ok(error_only_exec(output));
        }
        match &context.command {
            Some(cmd) => {
                if self.is_verbose_output(cmd.as_str()) {
                    return Ok(self.extract_response_summary(output));
                }
            },
            None => {},
        }
        let v = to_chars(output);
        if contains_str(&v, "HTTP/") {
            return Ok(self.extract_response_summary(output));
        }
        let ls = lines(&v);
        if ls.len() > 20 {
            return Ok(grouping_exec(output));
        }
        if v.len() == 0 {
            return Ok(String::from_str("(no output)"));
        }
        Ok(from_chars(&v))
    }
}

} // verus!
