//! File contents: passed through when short, otherwise statistics and the
//! first lines with comment-only lines removed.

use crate::commands::git::context_command;
use crate::commands::CommandModule;
use crate::filter::error_only::first_n;
use crate::text::{
    copy, decimal, eq_str, from_chars, is_prefix, join, join_str, lemma_views_push, lines,
    lines_of, opt_view, path_extension, path_extension_of, push_all, push_decimal, push_str,
    split_whitespace, starts_with_str, to_chars, trim, trim_of, views, words,
};
use crate::{Context, ContextView, RtkError};
use vstd::prelude::*;

verus! {

/// Compression module for reading files.
pub struct ReadModule;

/// The line-comment marker of a language, by file extension.
pub open spec fn comment_marker(ext: Seq<char>) -> Option<Seq<char>> {
    if ext == "rs"@ || ext == "js"@ || ext == "ts"@ || ext == "jsx"@ || ext == "tsx"@ || ext
        == "c"@ || ext == "cpp"@ || ext == "java"@ || ext == "go"@ {
        Some("//"@)
    } else if ext == "py"@ || ext == "sh"@ || ext == "bash"@ || ext == "zsh"@ || ext == "yaml"@
        || ext == "yml"@ || ext == "toml"@ {
        Some("#"@)
    } else if ext == "sql"@ {
        Some("--"@)
    } else if ext == "html"@ || ext == "xml"@ {
        Some("<!--"@)
    } else {
        None
    }
}

/// Whether a line is kept when comments are stripped: not blank and not a
/// comment-only line.
pub open spec fn is_kept_line(line: Seq<char>, ext: Seq<char>) -> bool {
    let t = trim(line);
    t.len() > 0 && match comment_marker(ext) {
        Some(m) => !is_prefix(m, t),
        None => true,
    }
}

/// The kept lines of `ls`, each followed by a newline.
pub open spec fn stripped_text(ls: Seq<Seq<char>>, ext: Seq<char>) -> Seq<char>
    decreases ls.len(),
{
    if ls.len() == 0 {
        Seq::empty()
    } else if is_kept_line(ls.last(), ext) {
        stripped_text(ls.drop_last(), ext) + ls.last() + "\n"@
    } else {
        stripped_text(ls.drop_last(), ext)
    }
}

/// Number of non-blank lines.
pub open spec fn code_lines(ls: Seq<Seq<char>>) -> nat
    decreases ls.len(),
{
    if ls.len() == 0 {
        0
    } else {
        code_lines(ls.drop_last()) + if trim(ls.last()).len() > 0 {
            1nat
        } else {
            0nat
        }
    }
}

/// `"<n> lines (<c> code, <b> blank), <k> chars"`.
pub open spec fn read_stats(content: Seq<char>) -> Seq<char> {
    let ls = lines_of(content);
    let c = code_lines(ls);
    decimal(ls.len()) + " lines ("@ + decimal(c) + " code, "@ + decimal((ls.len() - c) as nat)
        + " blank), "@ + decimal(content.len()) + " chars"@
}

/// The extension of the last non-flag word of `ws` that has one.
pub open spec fn last_extension(ws: Seq<Seq<char>>) -> Option<Seq<char>>
    decreases ws.len(),
{
    if ws.len() == 0 {
        None
    } else if is_prefix("-"@, ws.last()) {
        last_extension(ws.drop_last())
    } else {
        match path_extension(ws.last()) {
            Some(e) => Some(e),
            None => last_extension(ws.drop_last()),
        }
    }
}

/// The file extension named by a context's command line.
pub open spec fn context_extension(context: ContextView) -> Option<Seq<char>> {
    match context_command(context) {
        Some(c) => last_extension(words(c)),
        None => None,
    }
}

/// `content` cut to its first `max` lines, with a marker when cut.
pub open spec fn truncated(content: Seq<char>, max: nat) -> Seq<char> {
    let ls = lines_of(content);
    if ls.len() <= max {
        content
    } else {
        join(first_n(ls, max), "\n"@) + "\n... (truncated)"@
    }
}

/// What the read module makes of `output`.
pub open spec fn read_compress(output: Seq<char>, context: ContextView) -> Seq<char> {
    let n = lines_of(output).len();
    if output.len() == 0 {
        "(empty file)"@
    } else if n <= 20 {
        output
    } else {
        let ext = match context_extension(context) {
            Some(e) => e,
            None => Seq::empty(),
        };
        let stripped = stripped_text(lines_of(output), ext);
        if lines_of(stripped).len() < n {
            read_stats(output) + "\n\n---\n"@ + truncated(stripped, 30)
        } else {
            read_stats(output) + "\n\n---\n"@ + truncated(output, 30)
        }
    }
}

/// The comment marker for an extension.
fn comment_marker_exec(ext: &Vec<char>) -> (r: Option<&'static str>)
    ensures
        match r {
            Some(m) => comment_marker(ext@) == Some(m@),
            None => comment_marker(ext@) is None,
        },
{
    if eq_str(ext, "rs") || eq_str(ext, "js") || eq_str(ext, "ts") || eq_str(ext, "jsx")
        || eq_str(ext, "tsx") || eq_str(ext, "c") || eq_str(ext, "cpp") || eq_str(ext, "java")
        || eq_str(ext, "go") {
        Some("//")
    } else if eq_str(ext, "py") || eq_str(ext, "sh") || eq_str(ext, "bash") || eq_str(ext, "zsh")
        || eq_str(ext, "yaml") || eq_str(ext, "yml") || eq_str(ext, "toml") {
        Some("#")
    } else if eq_str(ext, "sql") {
        Some("--")
    } else if eq_str(ext, "html") || eq_str(ext, "xml") {
        Some("<!--")
    } else {
        None
    }
}

impl ReadModule {
    pub fn new() -> (r: Self) {
        ReadModule
    }

    /// The lines of `content` that are neither blank nor comment-only, each
    /// followed by a newline.
    pub fn strip_comments(&self, content: &str, extension: &str) -> (r: String)
        ensures
            r@ == stripped_text(lines_of(content@), extension@),
    {
        let ls = crate::text::str_lines(content);
        let ghost lv = views(ls@);
        let ext = to_chars(extension);
        let marker = comment_marker_exec(&ext);
        let mut result: Vec<char> = Vec::new();
        let mut i: usize = 0;
        while i < ls.len()
            invariant
                i <= ls.len(),
                lv == views(ls@),
                ext@ == extension@,
                match marker {
                    Some(m) => comment_marker(ext@) == Some(m@),
                    None => comment_marker(ext@) is None,
                },
                result@ == stripped_text(lv.take(i as int), extension@),
            decreases ls.len() - i,
        {
            assert(lv.take(i + 1).drop_last() == lv.take(i as int));
            assert(lv[i as int] == ls@[i as int]@);
            let t = trim_of(&ls[i]);
            let is_comment = match marker {
                Some(m) => starts_with_str(&t, m),
                None => false,
            };
            if !is_comment && t.len() > 0 {
                push_all(&mut result, &ls[i]);
                push_str(&mut result, "\n");
            }
            i += 1;
        }
        assert(lv.take(ls.len() as int) == lv);
        from_chars(&result)
    }

    /// Line, blank-line and character counts of `content`.
    pub fn extract_file_stats(&self, content: &str) -> (r: String)
        ensures
            r@ == read_stats(content@),
    {
        let v = to_chars(content);
        let ls = lines(&v);
        let ghost lv = views(ls@);
        let mut code: usize = 0;
        let mut i: usize = 0;
        while i < ls.len()
            invariant
                i <= ls.len(),
                lv == views(ls@),
                code == code_lines(lv.take(i as int)),
                code <= i,
            decreases ls.len() - i,
        {
            assert(lv.take(i + 1).drop_last() == lv.take(i as int));
            assert(lv[i as int] == ls@[i as int]@);
            let t = trim_of(&ls[i]);
            if t.len() > 0 {
                code += 1;
            }
            i += 1;
        }
        assert(lv.take(ls.len() as int) == lv);
        let mut r: Vec<char> = Vec::new();
        push_decimal(&mut r, ls.len());
        push_str(&mut r, " lines (");
        push_decimal(&mut r, code);
        push_str(&mut r, " code, ");
        push_decimal(&mut r, ls.len() - code);
        push_str(&mut r, " blank), ");
        push_decimal(&mut r, v.len());
        push_str(&mut r, " chars");
        from_chars(&r)
    }

    /// The file extension named by the context's command line.
    pub fn get_extension(&self, context: &Context) -> (r: Option<String>)
        ensures
            opt_view(r) == context_extension(context@),
    {
        match &context.command {
            Some(cmd) => {
                let v = to_chars(cmd.as_str());
                let parts = split_whitespace(&v);
                let ghost pv = views(parts@);
                let mut k = parts.len();
                assert(pv.take(k as int) == pv);
                while k > 0
                    invariant
                        k <= parts.len(),
                        pv == views(parts@),
                        pv == words(cmd@),
                        context_extension(context@) == last_extension(pv),
                        last_extension(pv) == last_extension(pv.take(k as int)),
                    decreases k,
                {
                    let part = &parts[k - 1];
                    assert(pv.take(k as int).drop_last() == pv.take(k - 1));
                    assert(pv.take(k as int).last() == part@);
                    if !starts_with_str(part, "-") {
                        let ps = from_chars(part);
                        match path_extension_of(ps.as_str()) {
                            Some(e) => {
                                return Some(e);
                            },
                            None => {},
                        }
                    }
                    k -= 1;
                }
                None
            },
            None => None,
        }
    }

    /// `content` cut to its first `max_lines` lines.
    pub fn truncate(&self, content: &str, max_lines: usize) -> (r: String)
        ensures
            r@ == truncated(content@, max_lines as nat),
    {
        let v = to_chars(content);
        let ls = lines(&v);
        if ls.len() <= max_lines {
            return from_chars(&v);
        }
        let ghost lv = views(ls@);
        let mut first: Vec<Vec<char>> = Vec::new();
        let mut k: usize = 0;
        while k < max_lines
            invariant
                k <= max_lines,
                max_lines < ls.len(),
                lv == views(ls@),
                views(first@) == lv.take(k as int),
            decreases max_lines - k,
        {
            let l = copy(&ls[k]);
            let ghost f0 = first@;
            first.push(l);
            proof {
                lemma_views_push(f0, l);
                assert(lv.take(k + 1) == lv.take(k as int).push(lv[k as int]));
            }
            k += 1;
        }
        let mut r = join_str(&first, "\n");
        push_str(&mut r, "\n... (truncated)");
        from_chars(&r)
    }
}

impl CommandModule for ReadModule {
    open spec fn spec_name(&self) -> Seq<char> {
        "read"@
    }

    open spec fn spec_strategy(&self) -> Seq<char> {
        "grouping_by_pattern"@
    }

    open spec fn spec_compress(&self, output: Seq<char>, context: ContextView) -> Seq<char> {
        read_compress(output, context)
    }

    open spec fn accepts(&self, output: Seq<char>, context: ContextView) -> bool {
        true
    }


    fn name(&self) -> (r: &'static str) {
        "read"
    }

    fn strategy(&self) -> (r: &'static str) {
        "grouping_by_pattern"
    }

    fn compress(&self, output: &str, context: &Context) -> (r: Result<String, RtkError>) {
        let v = to_chars(output);
        if v.len() == 0 {
            return Ok(String::from_str("(empty file)"));
        }
        let ls = lines(&v);
        let n = ls.len();
        if n <= 20 {
            return Ok(from_chars(&v));
        }
        let stats = self.extract_file_stats(output);
        let ext = match self.get_extension(context) {
            Some(e) => e,
            None => String::new(),
        };
        let stripped = self.strip_comments(output, ext.as_str());
        let sl = crate::text::str_lines(stripped.as_str());
        let body = if sl.len() < n {
            self.truncate(stripped.as_str(), 30)
        } else {
            self.truncate(output, 30)
        };
        let mut r = to_chars(stats.as_str());
        push_str(&mut r, "\n\n---\n");
        push_str(&mut r, body.as_str());
        Ok(from_chars(&r))
    }
}

} // verus!
