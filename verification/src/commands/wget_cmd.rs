//! `wget` output: the download summary, or the errors.

use crate::commands::CommandModule;
use crate::filter::error_only::{error_only, error_only_exec};
use crate::filter::grouping::{grouping, grouping_exec};
use crate::filter::{ErrorOnly, GroupingByPattern};
use crate::text::{
    before_first, before_first_exec, contains_str, find, find_first, find_last, from_chars,
    has_sub, is_prefix, join, join_str, lemma_views_push, lines_of, opt_chars, push_all,
    push_str, rfind, slice_of, starts_with_str, str_lines, to_chars, trim, trim_of, views,
};
use crate::{Context, ContextView, RtkError};
use vstd::prelude::*;

verus! {

/// Compression module for `wget`.
pub struct WgetModule {
    error_strategy: ErrorOnly,
    grouping_strategy: GroupingByPattern,
}

// ---------------------------------------------------------------------
// Specification
// ---------------------------------------------------------------------

/// A line that reports the saved file.
pub open spec fn is_saved_line(t: Seq<char>) -> bool {
    is_prefix("Saving to:"@, t) || has_sub(t, "saved"@) || (is_prefix("'"@, t) && has_sub(
        t,
        "' saved ["@,
    ))
}

/// A line that reports the transfer time and speed.
pub open spec fn is_speed_line(t: Seq<char>) -> bool {
    is_prefix("Downloaded:"@, t) || (has_sub(t, "in"@) && has_sub(t, "/s"@))
}

/// A line that reports an error.
pub open spec fn is_wget_error(t: Seq<char>) -> bool {
    has_sub(t, "ERROR"@) || has_sub(t, "failed:"@) || has_sub(t, "Unable to"@) || has_sub(
        t,
        "Connection refused"@,
    ) || has_sub(t, "No such file"@)
}

/// A speed line whose last `)` comes before its last `(`: the line the
/// summary cannot cut a speed out of.
#[verifier::opaque]
pub open spec fn is_bad_speed_line(t: Seq<char>) -> bool {
    is_speed_line(t) && match (find_last(t, "("@), find_last(t, ")"@)) {
        (Some(p), Some(e)) => e < p + 1,
        _ => false,
    }
}

/// What a scan of wget output has found so far.
pub struct WgetScan {
    pub saved: bool,
    pub path: Option<Seq<char>>,
    pub size: Option<Seq<char>>,
    pub time: Option<Seq<char>>,
    pub speed: Option<Seq<char>>,
    pub has_error: bool,
}

/// The file name between the first `'` and the last `' saved [`.
pub open spec fn saved_path(t: Seq<char>) -> Option<Seq<char>> {
    match (find_first(t, "'"@), find_last(t, "' saved ["@)) {
        (Some(s), Some(e)) => if s + 1 < e {
            Some(t.subrange(s + 1, e))
        } else {
            None
        },
        _ => None,
    }
}

/// The size between `' saved [` and the next `]`.
pub open spec fn saved_size(t: Seq<char>) -> Option<Seq<char>> {
    match find_first(t, "' saved ["@) {
        Some(s) => {
            let rest = t.skip(s + 9);
            match find_first(rest, "]"@) {
                Some(e) => Some(rest.take(e)),
                None => None,
            }
        },
        None => None,
    }
}

/// The time after ` in `, up to a `(`.
pub open spec fn speed_time(t: Seq<char>) -> Option<Seq<char>> {
    match find_first(t, " in "@) {
        Some(p) => Some(trim(before_first(t.skip(p + 4), '('))),
        None => None,
    }
}

/// The speed between the last `(` and the last `)`.
pub open spec fn speed_value(t: Seq<char>) -> Option<Seq<char>> {
    match (find_last(t, "("@), find_last(t, ")"@)) {
        (Some(p), Some(e)) => Some(t.subrange(p + 1, e)),
        _ => None,
    }
}

/// `new` when it is present, else `old`.
pub open spec fn keep_or(old: Option<Seq<char>>, new: Option<Seq<char>>) -> Option<Seq<char>> {
    if new is Some {
        new
    } else {
        old
    }
}

/// The scan after one more line.
pub open spec fn wget_step(st: WgetScan, line: Seq<char>) -> WgetScan {
    let t = trim(line);
    let st1 = if is_saved_line(t) {
        WgetScan {
            saved: true,
            path: keep_or(st.path, saved_path(t)),
            size: keep_or(st.size, saved_size(t)),
            ..st
        }
    } else {
        st
    };
    let st2 = if is_speed_line(t) {
        WgetScan {
            time: keep_or(st1.time, speed_time(t)),
            speed: keep_or(st1.speed, speed_value(t)),
            ..st1
        }
    } else {
        st1
    };
    WgetScan { has_error: st2.has_error || is_wget_error(t), ..st2 }
}

/// The scan over `ls`.
pub open spec fn wget_scan(ls: Seq<Seq<char>>) -> WgetScan
    decreases ls.len(),
{
    if ls.len() == 0 {
        WgetScan { saved: false, path: None, size: None, time: None, speed: None, has_error: false }
    } else {
        wget_step(wget_scan(ls.drop_last()), ls.last())
    }
}

/// `label + value` as a one-line list when the value is present.
pub open spec fn labeled(label: Seq<char>, v: Option<Seq<char>>, suffix: Seq<char>) -> Seq<Seq<char>> {
    match v {
        Some(x) => seq![label + x + suffix],
        None => Seq::empty(),
    }
}

/// Summary of successful wget output.
pub open spec fn wget_summary(output: Seq<char>) -> Seq<char> {
    let st = wget_scan(lines_of(output));
    let parts = labeled("Downloaded: "@, st.path, ""@) + labeled("Size: "@, st.size, " bytes"@)
        + labeled("Time: "@, st.time, ""@) + labeled("Speed: "@, st.speed, ""@);
    if st.has_error {
        error_only(output)
    } else if st.saved || st.path is Some {
        if parts.len() == 0 {
            "(download completed)"@
        } else {
            join(parts, "\n"@)
        }
    } else if output.len() == 0 {
        "(no output)"@
    } else {
        grouping(output)
    }
}

/// What the wget module makes of `output` with exit status `exit_code`.
pub open spec fn wget_compress(output: Seq<char>, exit_code: i32) -> Seq<char> {
    if exit_code != 0 {
        error_only(output)
    } else {
        wget_summary(output)
    }
}

/// The output the module handles: any on failure; on success, output whose
/// speed lines can be cut.
pub open spec fn wget_accepts(output: Seq<char>, exit_code: i32) -> bool {
    exit_code != 0 || forall|i: int|
        0 <= i < lines_of(output).len() ==> !is_bad_speed_line(trim(#[trigger] lines_of(output)[i]))
}

// ---------------------------------------------------------------------
// Executable
// ---------------------------------------------------------------------

/// The scan state held in executable values.
struct WgetState {
    saved: bool,
    path: Option<Vec<char>>,
    size: Option<Vec<char>>,
    time: Option<Vec<char>>,
    speed: Option<Vec<char>>,
    has_error: bool,
}

impl WgetState {
    spec fn scan(&self) -> WgetScan {
        WgetScan {
            saved: self.saved,
            path: opt_chars(self.path),
            size: opt_chars(self.size),
            time: opt_chars(self.time),
            speed: opt_chars(self.speed),
            has_error: self.has_error,
        }
    }

    #[verifier::rlimit(30)]
    fn step(&mut self, line: &Vec<char>)
        requires
            !is_bad_speed_line(trim(line@)),
        ensures
            final(self).scan() == wget_step(old(self).scan(), line@),
    {
        let ghost s0 = self.scan();
        let t = trim_of(line);
        let ghost tv = trim(line@);
        let ghost st1 = if is_saved_line(tv) {
            WgetScan {
                saved: true,
                path: keep_or(s0.path, saved_path(tv)),
                size: keep_or(s0.size, saved_size(tv)),
                ..s0
            }
        } else {
            s0
        };
        let ghost st2 = if is_speed_line(tv) {
            WgetScan {
                time: keep_or(st1.time, speed_time(tv)),
                speed: keep_or(st1.speed, speed_value(tv)),
                ..st1
            }
        } else {
            st1
        };
        if starts_with_str(&t, "Saving to:") || contains_str(&t, "saved") || (starts_with_str(
            &t,
            "'",
        ) && contains_str(&t, "' saved [")) {
            self.saved = true;
            let p = saved_path_exec(&t);
            if p.is_some() {
                self.path = p;
            }
            let z = saved_size_exec(&t);
            if z.is_some() {
                self.size = z;
            }
        }
        assert(self.scan() == st1);
        if starts_with_str(&t, "Downloaded:") || (contains_str(&t, "in") && contains_str(&t, "/s")) {
            let tm = speed_time_exec(&t);
            if tm.is_some() {
                self.time = tm;
            }
            let sp = speed_value_exec(&t);
            if sp.is_some() {
                self.speed = sp;
            }
        }
        assert(self.scan() == st2);
        if contains_str(&t, "ERROR") || contains_str(&t, "failed:") || contains_str(&t, "Unable to")
            || contains_str(&t, "Connection refused") || contains_str(&t, "No such file") {
            self.has_error = true;
        }
    }
}

fn saved_path_exec(t: &Vec<char>) -> (r: Option<Vec<char>>)
    ensures
        opt_chars(r) == saved_path(t@),
{
    let q = to_chars("'");
    let sv = to_chars("' saved [");
    match find(t, &q) {
        Some(s) => match rfind(t, &sv) {
            Some(e) => {
                if s < e && e - s > 1 {
                    Some(slice_of(t, s + 1, e))
                } else {
                    None
                }
            },
            None => None,
        },
        None => None,
    }
}

fn saved_size_exec(t: &Vec<char>) -> (r: Option<Vec<char>>)
    ensures
        opt_chars(r) == saved_size(t@),
{
    let sv = to_chars("' saved [");
    match find(t, &sv) {
        Some(s) => {
            assert(s + sv@.len() <= t@.len());
            proof {
                reveal_strlit("' saved [");
            }
            let n = sv.len();
            assert(s + n <= t.len());
            let rest = slice_of(t, s + n, t.len());
            assert(rest@ =~= t@.skip(s + 9));
            let close = to_chars("]");
            match find(&rest, &close) {
                Some(e) => Some(slice_of(&rest, 0, e)),
                None => None,
            }
        },
        None => None,
    }
}

fn speed_time_exec(t: &Vec<char>) -> (r: Option<Vec<char>>)
    ensures
        opt_chars(r) == speed_time(t@),
{
    let inw = to_chars(" in ");
    match find(t, &inw) {
        Some(p) => {
            proof {
                reveal_strlit(" in ");
            }
            let n = inw.len();
            assert(p + n <= t.len());
            let rest = slice_of(t, p + n, t.len());
            assert(rest@ =~= t@.skip(p + 4));
            let b = before_first_exec(&rest, '(');
            Some(trim_of(&b))
        },
        None => None,
    }
}

fn speed_value_exec(t: &Vec<char>) -> (r: Option<Vec<char>>)
    requires
        !is_bad_speed_line(t@),
        is_speed_line(t@),
    ensures
        opt_chars(r) == speed_value(t@),
{
    reveal(is_bad_speed_line);
    let op = to_chars("(");
    let cp = to_chars(")");
    match rfind(t, &op) {
        Some(p) => match rfind(t, &cp) {
            Some(e) => Some(slice_of(t, p + 1, e)),
            None => None,
        },
        None => None,
    }
}

/// Appends `label + value + suffix` when the value is present.
fn push_labeled(parts: &mut Vec<Vec<char>>, label: &str, v: &Option<Vec<char>>, suffix: &str)
    ensures
        views(final(parts)@) == views(old(parts)@) + labeled(label@, opt_chars(*v), suffix@),
{
    match v {
        Some(x) => {
            let mut l = to_chars(label);
            push_all(&mut l, x);
            push_str(&mut l, suffix);
            let ghost p0 = parts@;
            parts.push(l);
            proof {
                lemma_views_push(p0, l);
            }
        },
        None => {
            assert(views(parts@) + Seq::<Seq<char>>::empty() == views(parts@));
        },
    }
}

/// Whether the module handles `output` with exit status `exit_code`.
#[verifier::rlimit(30)]
pub fn wget_accepts_exec(output: &str, exit_code: i32) -> (r: bool)
    ensures
        r == wget_accepts(output@, exit_code),
{
    if exit_code != 0 {
        return true;
    }
    let ls = str_lines(output);
    let ghost lv = lines_of(output@);
    let mut i: usize = 0;
    while i < ls.len()
        invariant
            i <= ls.len(),
            views(ls@) == lv,
            lv == lines_of(output@),
            exit_code == 0,
            forall|j: int| 0 <= j < i ==> !is_bad_speed_line(trim(#[trigger] lv[j])),
        decreases ls.len() - i,
    {
        assert(lv[i as int] == ls@[i as int]@);
        let t = trim_of(&ls[i]);
        if is_bad_speed_line_exec(&t) {
            assert(is_bad_speed_line(trim(lv[i as int])));
            return false;
        }
        i += 1;
    }
    true
}

#[verifier::rlimit(30)]
fn is_bad_speed_line_exec(t: &Vec<char>) -> (r: bool)
    ensures
        r == is_bad_speed_line(t@),
{
    reveal(is_bad_speed_line);
    let speed = starts_with_str(t, "Downloaded:") || (contains_str(t, "in") && contains_str(t, "/s"));
    assert(speed == is_speed_line(t@));
    if !speed {
        return false;
    }
    let op = to_chars("(");
    let cp = to_chars(")");
    let a = rfind(t, &op);
    let b = rfind(t, &cp);
    let bad = match a {
        Some(p) => match b {
            Some(e) => e <= p,
            None => false,
        },
        None => false,
    };
    assert(bad == match (find_last(t@, "("@), find_last(t@, ")"@)) {
        (Some(p), Some(e)) => e < p + 1,
        _ => false,
    });
    bad
}

impl WgetModule {
    pub fn new() -> (r: Self) {
        Self { error_strategy: ErrorOnly, grouping_strategy: GroupingByPattern }
    }

    /// Summary of successful output: the saved file, its size, the time and
    /// the speed.
    fn extract_download_summary(&self, output: &str) -> (r: String)
        requires
            wget_accepts(output@, 0),
        ensures
            r@ == wget_summary(output@),
    {
        let ls = str_lines(output);
        let ghost lv = views(ls@);
        let mut st = WgetState {
            saved: false,
            path: None,
            size: None,
            time: None,
            speed: None,
            has_error: false,
        };
        let mut i: usize = 0;
        while i < ls.len()
            invariant
                i <= ls.len(),
                lv == views(ls@),
                lv == lines_of(output@),
                wget_accepts(output@, 0),
                st.scan() == wget_scan(lv.take(i as int)),
            decreases ls.len() - i,
        {
            assert(lv.take(i + 1).drop_last() == lv.take(i as int));
            assert(lv[i as int] == ls@[i as int]@);
            assert(!is_bad_speed_line(trim(lines_of(output@)[i as int])));
            st.step(&ls[i]);
            i += 1;
        }
        assert(lv.take(ls.len() as int) == lv);
        if st.has_error {
            return error_only_exec(output);
        }
        if st.saved || st.path.is_some() {
            let mut parts: Vec<Vec<char>> = Vec::new();
            assert(views(parts@) =~= Seq::<Seq<char>>::empty());
            push_labeled(&mut parts, "Downloaded: ", &st.path, "");
            push_labeled(&mut parts, "Size: ", &st.size, " bytes");
            push_labeled(&mut parts, "Time: ", &st.time, "");
            push_labeled(&mut parts, "Speed: ", &st.speed, "");
            if parts.len() == 0 {
                return String::from_str("(download completed)");
            }
            let r = join_str(&parts, "\n");
            return from_chars(&r);
        }
        let v = to_chars(output);
        if v.len() == 0 {
            return String::from_str("(no output)");
        }
        grouping_exec(output)
    }
}

impl CommandModule for WgetModule {
    open spec fn spec_name(&self) -> Seq<char> {
        "wget"@
    }

    open spec fn spec_strategy(&self) -> Seq<char> {
        "multi_strategy"@
    }

    open spec fn spec_compress(&self, output: Seq<char>, context: ContextView) -> Seq<char> {
        wget_compress(output, context.exit_code)
    }

    open spec fn accepts(&self, output: Seq<char>, context: ContextView) -> bool {
        wget_accepts(output, context.exit_code)
    }


    fn name(&self) -> (r: &'static str) {
        "wget"
    }

    fn strategy(&self) -> (r: &'static str) {
        "multi_strategy"
    }

    fn compress(&self, output: &str, context: &Context) -> (r: Result<String, RtkError>) {
        if context.exit_code != 0 {
            return Ok(error_only_exec(output));
        }
        Ok(self.extract_download_summary(output))
    }
}

} // verus!
