//! `find` output: passed through when short, otherwise counts per extension
//! and directory.

use crate::commands::CommandModule;
use crate::filter::error_only::first_n;
use crate::filter::grouping::{
    distinct, entries, render_kvs, render_top, sort_desc, sort_exec, tally, tally_of,
};
use crate::text::{decimal, from_chars, join, join_str, lemma_views_push, lines, lines_of, path_extension, path_extension_of, path_parent, path_parent_of, push_all, push_decimal, push_str, to_chars, trim, trim_of, views};
use crate::{Context, ContextView, RtkError};
use vstd::prelude::*;

verus! {

/// Compression module for `find`.
pub struct FindModule;

/// The extension key of a path: its extension, or `(no ext)`.
pub open spec fn ext_key(p: Seq<char>) -> Seq<char> {
    match path_extension(p) {
        Some(e) => e,
        None => "(no ext)"@,
    }
}

/// The trimmed non-blank lines of `ls`.
pub open spec fn found_paths(ls: Seq<Seq<char>>) -> Seq<Seq<char>>
    decreases ls.len(),
{
    if ls.len() == 0 {
        Seq::empty()
    } else if trim(ls.last()).len() == 0 {
        found_paths(ls.drop_last())
    } else {
        found_paths(ls.drop_last()).push(trim(ls.last()))
    }
}

/// The extension keys of `ps`.
pub open spec fn ext_keys(ps: Seq<Seq<char>>) -> Seq<Seq<char>> {
    Seq::new(ps.len(), |i: int| ext_key(ps[i]))
}

/// The non-empty parent directories of `ps`, in order.
pub open spec fn dir_keys(ps: Seq<Seq<char>>) -> Seq<Seq<char>>
    decreases ps.len(),
{
    if ps.len() == 0 {
        Seq::empty()
    } else {
        match path_parent(ps.last()) {
            Some(d) => if d.len() > 0 {
                dir_keys(ps.drop_last()).push(d)
            } else {
                dir_keys(ps.drop_last())
            },
            None => dir_keys(ps.drop_last()),
        }
    }
}

/// The file statistics of find output.
pub open spec fn find_stats(output: Seq<char>) -> Seq<char> {
    if output.len() == 0 {
        "(no files found)"@
    } else {
        let ps = found_paths(lines_of(output));
        if ps.len() == 0 {
            "(no files found)"@
        } else {
            let exts = sort_desc(tally(ext_keys(ps)));
            let dirs = dir_keys(ps);
            decimal(ps.len()) + " files found"@ + (if exts.len() > 0 {
                "\nBy extension:\n"@ + join(render_kvs(first_n(exts, 10), "."@), "\n"@)
            } else {
                ""@
            }) + (if distinct(dirs).len() > 1 {
                "\nBy directory:\n"@ + join(
                    render_kvs(first_n(sort_desc(tally(dirs)), 5), ""@),
                    "\n"@,
                )
            } else {
                ""@
            })
        }
    }
}

/// What the find module makes of `output`.
pub open spec fn find_compress(output: Seq<char>) -> Seq<char> {
    if output.len() == 0 {
        "(no files found)"@
    } else if lines_of(output).len() <= 10 {
        output
    } else {
        find_stats(output)
    }
}

impl FindModule {
    pub fn new() -> (r: Self) {
        FindModule
    }

    /// Counts per extension and directory of find output.
    pub fn extract_file_stats(&self, output: &str) -> (r: String)
        ensures
            r@ == find_stats(output@),
    {
        let v = to_chars(output);
        if v.len() == 0 {
            return String::from_str("(no files found)");
        }
        let ls = lines(&v);
        let ghost lv = views(ls@);
        let mut paths: Vec<Vec<char>> = Vec::new();
        let mut exts: Vec<Vec<char>> = Vec::new();
        let mut dirs: Vec<Vec<char>> = Vec::new();
        let mut i: usize = 0;
        while i < ls.len()
            invariant
                i <= ls.len(),
                lv == views(ls@),
                views(paths@) == found_paths(lv.take(i as int)),
                views(exts@) == ext_keys(found_paths(lv.take(i as int))),
                views(dirs@) == dir_keys(found_paths(lv.take(i as int))),
            decreases ls.len() - i,
        {
            assert(lv.take(i + 1).drop_last() == lv.take(i as int));
            assert(lv[i as int] == ls@[i as int]@);
            let ghost ps0 = found_paths(lv.take(i as int));
            let t = trim_of(&ls[i]);
            if t.len() > 0 {
                let ts = from_chars(&t);
                let e = match path_extension_of(ts.as_str()) {
                    Some(e) => to_chars(e.as_str()),
                    None => to_chars("(no ext)"),
                };
                let ghost e0 = exts@;
                exts.push(e);
                proof {
                    lemma_views_push(e0, e);
                    assert(ps0.push(t@).drop_last() == ps0);
                }
                assert(views(exts@) =~= ext_keys(ps0.push(t@)));
                match path_parent_of(ts.as_str()) {
                    Some(d) => {
                        let dv = to_chars(d.as_str());
                        if dv.len() > 0 {
                            let ghost d0 = dirs@;
                            dirs.push(dv);
                            proof {
                                lemma_views_push(d0, dv);
                            }
                        }
                    },
                    None => {},
                }
                let ghost p0 = paths@;
                paths.push(t);
                proof {
                    lemma_views_push(p0, t);
                }
            }
            i += 1;
        }
        assert(lv.take(ls.len() as int) == lv);
        if paths.len() == 0 {
            return String::from_str("(no files found)");
        }
        let mut r: Vec<char> = Vec::new();
        push_decimal(&mut r, paths.len());
        push_str(&mut r, " files found");
        let (ek, ec) = tally_of(&exts);
        let (sek, sec) = sort_exec(ek, ec);
        if sek.len() > 0 {
            push_str(&mut r, "\nBy extension:\n");
            let top = render_top(&sek, &sec, 10, ".");
            let j = join_str(&top, "\n");
            push_all(&mut r, &j);
        } else {
            push_str(&mut r, "");
        }
        let (dk, dc) = tally_of(&dirs);
        assert(crate::filter::grouping::entries(dk@, dc@).len() == dk@.len());
        assert(crate::filter::grouping::tally(views(dirs@)).len()
            == crate::filter::grouping::distinct(views(dirs@)).len());
        assert(dk.len() == crate::filter::grouping::distinct(views(dirs@)).len());
        if dk.len() > 1 {
            let (sdk, sdc) = sort_exec(dk, dc);
            push_str(&mut r, "\nBy directory:\n");
            let top = render_top(&sdk, &sdc, 5, "");
            let j = join_str(&top, "\n");
            push_all(&mut r, &j);
        } else {
            push_str(&mut r, "");
        }
        from_chars(&r)
    }
}

impl CommandModule for FindModule {
    open spec fn spec_name(&self) -> Seq<char> {
        "find"@
    }

    open spec fn spec_strategy(&self) -> Seq<char> {
        "grouping_by_pattern"@
    }

    open spec fn spec_compress(&self, output: Seq<char>, context: ContextView) -> Seq<char> {
        find_compress(output)
    }

    open spec fn accepts(&self, output: Seq<char>, context: ContextView) -> bool {
        true
    }


    fn name(&self) -> (r: &'static str) {
        "find"
    }

    fn strategy(&self) -> (r: &'static str) {
        "grouping_by_pattern"
    }

    fn compress(&self, output: &str, context: &Context) -> (r: Result<String, RtkError>) {
        let v = to_chars(output);
        if v.len() == 0 {
            return Ok(String::from_str("(no files found)"));
        }
        let ls = lines(&v);
        if ls.len() <= 10 {
            return Ok(from_chars(&v));
        }
        Ok(self.extract_file_stats(output))
    }
}

} // verus!
