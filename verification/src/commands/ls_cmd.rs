//! `ls` output: passed through when short, otherwise counts of directories,
//! files, hidden entries and extensions.

use crate::commands::CommandModule;
use crate::filter::error_only::first_n;
use crate::filter::grouping::{entries, render_kvs, render_top, sort_desc, sort_exec, tally, tally_of};
use crate::text::{copy, decimal, find_last, from_chars, has_sub, is_prefix, join, join_str, lemma_views_push, lines, lines_of, push_all, push_decimal, push_str, rfind, slice_of, split_whitespace, starts_with_str, to_chars, trim, trim_of, views, words};
use crate::{Context, ContextView, RtkError};
use vstd::prelude::*;

verus! {

/// Compression module for `ls`.
pub struct LsModule;

/// What a scan of ls output has counted so far.
pub struct LsScan {
    pub files: nat,
    pub dirs: nat,
    pub hidden: nat,
    pub exts: Seq<Seq<char>>,
}

/// A trimmed line in `ls -l` format.
pub open spec fn is_long_format(t: Seq<char>) -> bool {
    is_prefix("-"@, t) || is_prefix("d"@, t) || is_prefix("l"@, t)
}

/// The entry name of a trimmed line: the last word in long format.
pub open spec fn ls_name(t: Seq<char>) -> Seq<char> {
    if is_long_format(t) && words(t).len() > 0 {
        words(t).last()
    } else {
        t
    }
}

/// The extension key of a file name: the text after its last dot, unless
/// that dot is first or last; otherwise `(no ext)`.
pub open spec fn ls_ext(name: Seq<char>) -> Seq<char> {
    match find_last(name, "."@) {
        Some(p) => if p > 0 && p < name.len() - 1 {
            name.skip(p + 1)
        } else {
            "(no ext)"@
        },
        None => "(no ext)"@,
    }
}

/// The scan after one more line.
pub open spec fn ls_step(st: LsScan, line: Seq<char>) -> LsScan {
    let t = trim(line);
    let name = ls_name(t);
    if t.len() == 0 || is_prefix("total "@, t) {
        st
    } else if is_prefix("d"@, t) {
        LsScan {
            dirs: st.dirs + 1,
            hidden: st.hidden + if is_prefix("."@, name) {
                1nat
            } else {
                0nat
            },
            ..st
        }
    } else if is_prefix("."@, name) {
        LsScan { hidden: st.hidden + 1, ..st }
    } else if !is_long_format(t) && has_sub(name, " "@) && !has_sub(name, "."@) {
        st
    } else {
        LsScan { files: st.files + 1, exts: st.exts.push(ls_ext(name)), ..st }
    }
}

/// The scan of a list of lines.
pub open spec fn ls_scan(ls: Seq<Seq<char>>) -> LsScan
    decreases ls.len(),
{
    if ls.len() == 0 {
        LsScan { files: 0, dirs: 0, hidden: 0, exts: Seq::empty() }
    } else {
        ls_step(ls_scan(ls.drop_last()), ls.last())
    }
}

/// `"<n><label>"` as a one-element list when `n > 0`.
pub open spec fn nonzero_part(n: nat, label: Seq<char>) -> Seq<Seq<char>> {
    if n > 0 {
        seq![decimal(n) + label]
    } else {
        Seq::empty()
    }
}

/// The statistics of ls output.
pub open spec fn ls_stats(output: Seq<char>) -> Seq<char> {
    if output.len() == 0 {
        "(empty directory)"@
    } else {
        let st = ls_scan(lines_of(output));
        if st.files == 0 && st.dirs == 0 {
            "(empty directory)"@
        } else {
            let exts = sort_desc(tally(st.exts));
            join(
                nonzero_part(st.dirs, " directories"@) + nonzero_part(st.files, " files"@)
                    + nonzero_part(st.hidden, " hidden"@) + (if exts.len() > 0 {
                    seq!["\n"@ + join(render_kvs(first_n(exts, 8), "."@), ", "@)]
                } else {
                    Seq::empty()
                }),
                ", "@,
            )
        }
    }
}

/// What the ls module makes of `output`.
pub open spec fn ls_compress(output: Seq<char>) -> Seq<char> {
    if output.len() == 0 {
        "(empty directory)"@
    } else if lines_of(output).len() <= 10 {
        output
    } else {
        ls_stats(output)
    }
}

/// The extension key of a file name.
fn ls_ext_exec(name: &Vec<char>) -> (r: Vec<char>)
    ensures
        r@ == ls_ext(name@),
{
    let dot = to_chars(".");
    match rfind(name, &dot) {
        Some(p) => {
            if p > 0 && p < name.len() - 1 {
                slice_of(name, p + 1, name.len())
            } else {
                to_chars("(no ext)")
            }
        },
        None => to_chars("(no ext)"),
    }
}

/// The effect of a line classified as `kind` (0 skipped, 1 directory,
/// 2 hidden directory, 3 hidden file, 4 file with extension `ext`).
pub open spec fn ls_apply(st: LsScan, kind: u8, ext: Seq<char>) -> LsScan {
    if kind == 1 {
        LsScan { dirs: st.dirs + 1, ..st }
    } else if kind == 2 {
        LsScan { dirs: st.dirs + 1, hidden: st.hidden + 1, ..st }
    } else if kind == 3 {
        LsScan { hidden: st.hidden + 1, ..st }
    } else if kind == 4 {
        LsScan { files: st.files + 1, exts: st.exts.push(ext), ..st }
    } else {
        st
    }
}

/// Classifies one line of ls output.
fn ls_classify(line: &Vec<char>) -> (r: (u8, Vec<char>))
    ensures
        r.0 <= 4,
        forall|st: LsScan| #[trigger] ls_step(st, line@) == ls_apply(st, r.0, r.1@),
{
    let t = trim_of(line);
    let long = starts_with_str(&t, "-") || starts_with_str(&t, "d") || starts_with_str(&t, "l");
    let name = if long {
        let ws = split_whitespace(&t);
        if ws.len() > 0 {
            assert(views(ws@)[ws.len() - 1] == ws@[ws.len() - 1]@);
            copy(&ws[ws.len() - 1])
        } else {
            copy(&t)
        }
    } else {
        copy(&t)
    };
    assert(name@ == ls_name(t@));
    if t.len() == 0 || starts_with_str(&t, "total ") {
        (0, Vec::new())
    } else if starts_with_str(&t, "d") {
        if starts_with_str(&name, ".") {
            (2, Vec::new())
        } else {
            (1, Vec::new())
        }
    } else if starts_with_str(&name, ".") {
        (3, Vec::new())
    } else if !long && crate::text::contains_str(&name, " ") && !crate::text::contains_str(
        &name,
        ".",
    ) {
        (0, Vec::new())
    } else {
        (4, ls_ext_exec(&name))
    }
}

fn push_nonzero(parts: &mut Vec<Vec<char>>, n: usize, label: &str)
    ensures
        views(final(parts)@) == views(old(parts)@) + nonzero_part(n as nat, label@),
{
    if n > 0 {
        let mut p: Vec<char> = Vec::new();
        push_decimal(&mut p, n);
        push_str(&mut p, label);
        let ghost p0 = parts@;
        parts.push(p);
        proof {
            lemma_views_push(p0, p);
        }
    } else {
        assert(views(parts@) + Seq::<Seq<char>>::empty() == views(parts@));
    }
}

impl LsModule {
    pub fn new() -> (r: Self) {
        LsModule
    }

    /// Counts of directories, files, hidden entries and extensions.
    pub fn extract_file_stats(&self, output: &str) -> (r: String)
        ensures
            r@ == ls_stats(output@),
    {
        let v = to_chars(output);
        if v.len() == 0 {
            return String::from_str("(empty directory)");
        }
        let ls = lines(&v);
        let ghost lv = views(ls@);
        let mut files: usize = 0;
        let mut dirs: usize = 0;
        let mut hidden: usize = 0;
        let mut exts: Vec<Vec<char>> = Vec::new();
        let mut i: usize = 0;
        assert(views(exts@) =~= Seq::<Seq<char>>::empty());
        while i < ls.len()
            invariant
                i <= ls.len(),
                lv == views(ls@),
                ls_scan(lv.take(i as int)) == (LsScan {
                    files: files as nat,
                    dirs: dirs as nat,
                    hidden: hidden as nat,
                    exts: views(exts@),
                }),
                files + dirs <= i,
                hidden <= i,
                exts.len() <= i,
            decreases ls.len() - i,
        {
            assert(lv.take(i + 1).drop_last() == lv.take(i as int));
            assert(lv[i as int] == ls@[i as int]@);
            let (kind, e) = ls_classify(&ls[i]);
            if kind == 1 {
                dirs += 1;
            } else if kind == 2 {
                dirs += 1;
                hidden += 1;
            } else if kind == 3 {
                hidden += 1;
            } else if kind == 4 {
                files += 1;
                let ghost e0 = exts@;
                exts.push(e);
                proof {
                    lemma_views_push(e0, e);
                }
            }
            i += 1;
        }
        assert(lv.take(ls.len() as int) == lv);
        if files == 0 && dirs == 0 {
            return String::from_str("(empty directory)");
        }
        let mut parts: Vec<Vec<char>> = Vec::new();
        assert(views(parts@) =~= Seq::<Seq<char>>::empty());
        push_nonzero(&mut parts, dirs, " directories");
        push_nonzero(&mut parts, files, " files");
        push_nonzero(&mut parts, hidden, " hidden");
        let (ek, ec) = tally_of(&exts);
        let (sk, sc) = sort_exec(ek, ec);
        if sk.len() > 0 {
            let top = render_top(&sk, &sc, 8, ".");
            let j = join_str(&top, ", ");
            let mut p = to_chars("\n");
            push_all(&mut p, &j);
            let ghost p0 = parts@;
            parts.push(p);
            proof {
                lemma_views_push(p0, p);
            }
        } else {
            assert(views(parts@) + Seq::<Seq<char>>::empty() == views(parts@));
        }
        proof {
            let st = ls_scan(lv);
            let exts = sort_desc(tally(st.exts));
            assert(views(parts@) =~= nonzero_part(st.dirs, " directories"@) + nonzero_part(
                st.files,
                " files"@,
            ) + nonzero_part(st.hidden, " hidden"@) + (if exts.len() > 0 {
                seq!["\n"@ + join(render_kvs(first_n(exts, 8), "."@), ", "@)]
            } else {
                Seq::empty()
            }));
        }
        let j = join_str(&parts, ", ");
        from_chars(&j)
    }
}

impl CommandModule for LsModule {
    open spec fn spec_name(&self) -> Seq<char> {
        "ls"@
    }

    open spec fn spec_strategy(&self) -> Seq<char> {
        "grouping_by_pattern"@
    }

    open spec fn spec_compress(&self, output: Seq<char>, context: ContextView) -> Seq<char> {
        ls_compress(output)
    }

    open spec fn accepts(&self, output: Seq<char>, context: ContextView) -> bool {
        true
    }


    fn name(&self) -> (r: &'static str) {
        "ls"
    }

    fn strategy(&self) -> (r: &'static str) {
        "grouping_by_pattern"
    }

    fn compress(&self, output: &str, context: &Context) -> (r: Result<String, RtkError>) {
        let v = to_chars(output);
        if v.len() == 0 {
            return Ok(String::from_str("(empty directory)"));
        }
        let ls = lines(&v);
        if ls.len() <= 10 {
            return Ok(from_chars(&v));
        }
        Ok(self.extract_file_stats(output))
    }
}

} // verus!
