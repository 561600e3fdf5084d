//! Tee mode: the full output kept in a file when compression may have lost
//! something. This module holds the file naming, header and rotation rules;
//! the files themselves are written and read by the caller.

pub mod stamp;

use crate::filter::error_only::first_n;
use crate::text::{
    from_chars, is_prefix, join, join_str, lines_of, push_all, push_str, split_whitespace,
    str_lines, strip_prefix_str, take_pieces, to_chars, views, words,
};
use vstd::prelude::*;

verus! {

/// Where tee files go and how many are kept.
pub struct TeeManager {
    /// The directory of the files.
    pub directory: String,
    /// The number of files kept.
    pub max_files: usize,
    /// The days files are kept.
    pub retention_days: u32,
}

impl TeeManager {
    pub fn new(directory: String, max_files: usize, retention_days: u32) -> (r: Self)
        ensures
            r.directory@ == directory@,
            r.max_files == max_files,
            r.retention_days == retention_days,
    {
        TeeManager { directory, max_files, retention_days }
    }
}

/// A character kept in file names: ASCII letters and digits, `_` and `-`.
pub open spec fn is_name_char(c: char) -> bool {
    ('a' <= c && c <= 'z') || ('A' <= c && c <= 'Z') || ('0' <= c && c <= '9') || c == '_' || c
        == '-'
}

/// The file-name form of a character.
pub open spec fn name_char(c: char) -> char {
    if is_name_char(c) {
        c
    } else {
        '_'
    }
}

/// The file-name part of a command: its first three words joined by `_`,
/// other characters replaced by `_`, at most thirty characters.
pub open spec fn sanitized_command(command: Seq<char>) -> Seq<char> {
    let j = join(first_n(words(command), 3), "_"@);
    first_n(Seq::new(j.len(), |i: int| name_char(j[i])), 30)
}

/// The file-name part of a command.
pub fn sanitize_command_for_filename(command: &str) -> (r: String)
    ensures
        r@ == sanitized_command(command@),
{
    let cv = to_chars(command);
    let ws = split_whitespace(&cv);
    let first = take_pieces(&ws, 3);
    let j = join_str(&first, "_");
    let n: usize = if j.len() > 30 {
        30
    } else {
        j.len()
    };
    let mut out: Vec<char> = Vec::new();
    let mut i: usize = 0;
    while i < n
        invariant
            i <= n,
            n <= j.len(),
            out@ == Seq::new(i as nat, |k: int| name_char(j@[k])),
        decreases n - i,
    {
        let c = j[i];
        let ok = ('a' <= c && c <= 'z') || ('A' <= c && c <= 'Z') || ('0' <= c && c <= '9') || c
            == '_' || c == '-';
        out.push(
            if ok {
                c
            } else {
                '_'
            },
        );
        assert(out@ =~= Seq::new((i + 1) as nat, |k: int| name_char(j@[k])));
        i += 1;
    }
    assert(out@ =~= first_n(Seq::new(j@.len(), |k: int| name_char(j@[k])), 30));
    from_chars(&out)
}

/// The name of a tee file: its time stamp, then the command's file-name part.
pub open spec fn tee_file_name(stamp: Seq<char>, command: Seq<char>) -> Seq<char> {
    stamp + "_"@ + sanitized_command(command) + ".log"@
}

/// The name of a tee file saved at `stamp` (`YYYYMMDD_HHMMSS`).
pub fn file_name(stamp: &str, command: &str) -> (r: String)
    ensures
        r@ == tee_file_name(stamp@, command@),
{
    let mut v = to_chars(stamp);
    push_str(&mut v, "_");
    let s = sanitize_command_for_filename(command);
    let sv = to_chars(s.as_str());
    push_all(&mut v, &sv);
    push_str(&mut v, ".log");
    from_chars(&v)
}

/// The contents of a tee file: a header with the command and the time, then
/// the output.
pub open spec fn tee_contents(command: Seq<char>, time: Seq<char>, output: Seq<char>) -> Seq<char> {
    "# RTK Tee File\n"@ + "# Command: "@ + command + "\n"@ + "# Timestamp: "@ + time + "\n"@
        + "#\n"@ + "\n"@ + output
}

/// The contents of a tee file.
pub fn file_contents(command: &str, time: &str, output: &str) -> (r: String)
    ensures
        r@ == tee_contents(command@, time@, output@),
{
    let mut v = to_chars("# RTK Tee File\n");
    push_str(&mut v, "# Command: ");
    push_str(&mut v, command);
    push_str(&mut v, "\n");
    push_str(&mut v, "# Timestamp: ");
    push_str(&mut v, time);
    push_str(&mut v, "\n");
    push_str(&mut v, "#\n");
    push_str(&mut v, "\n");
    push_str(&mut v, output);
    from_chars(&v)
}

/// The command named by the first `# Command: ` line among the first five.
pub open spec fn header_command(ls: Seq<Seq<char>>) -> Option<Seq<char>>
    decreases ls.len(),
{
    if ls.len() == 0 {
        None
    } else {
        match header_command(ls.drop_last()) {
            Some(c) => Some(c),
            None => if is_prefix("# Command: "@, ls.last()) {
                Some(ls.last().skip("# Command: "@.len() as int))
            } else {
                None
            },
        }
    }
}

/// The command recorded in a tee file's contents, or `unknown`.
pub open spec fn recorded_command(content: Seq<char>) -> Seq<char> {
    match header_command(first_n(lines_of(content), 5)) {
        Some(c) => c,
        None => "unknown"@,
    }
}

/// The command recorded in a tee file's contents.
pub fn command_from_contents(content: &str) -> (r: String)
    ensures
        r@ == recorded_command(content@),
{
    let ls = str_lines(content);
    let first = take_pieces(&ls, 5);
    let ghost fv = views(first@);
    assert(fv == first_n(lines_of(content@), 5));
    let mut i: usize = 0;
    while i < first.len()
        invariant
            i <= first.len(),
            fv == views(first@),
            fv == first_n(lines_of(content@), 5),
            header_command(fv.take(i as int)) is None,
        decreases first.len() - i,
    {
        assert(fv.take(i + 1).drop_last() == fv.take(i as int));
        assert(fv[i as int] == first@[i as int]@);
        match strip_prefix_str(&first[i], "# Command: ") {
            Some(rest) => {
                assert(header_command(fv.take(i + 1)) == Some(rest@));
                proof {
                    lemma_header_prefix(fv, i as int);
                }
                return from_chars(&rest);
            },
            None => {},
        }
        i += 1;
    }
    assert(fv.take(first.len() as int) == fv);
    String::from_str("unknown")
}

pub proof fn lemma_header_prefix(ls: Seq<Seq<char>>, k: int)
    requires
        0 <= k < ls.len(),
        header_command(ls.take(k + 1)) is Some,
    ensures
        header_command(ls) == header_command(ls.take(k + 1)),
    decreases ls.len(),
{
    if ls.len() == k + 1 {
        assert(ls.take(k + 1) == ls);
    } else {
        assert(ls.drop_last().take(k + 1) == ls.take(k + 1));
        lemma_header_prefix(ls.drop_last(), k);
    }
}

/// Which files rotation removes: with the files ordered newest first, those
/// past the first `max_files` and those older than `cutoff`.
pub open spec fn rotation_plan(stamps: Seq<i64>, max_files: nat, cutoff: i64) -> Seq<bool> {
    Seq::new(stamps.len(), |i: int| i >= max_files || stamps[i] < cutoff)
}

/// For files ordered newest first, with their time stamps in seconds, which
/// ones rotation removes.
pub fn plan_rotation(stamps: &Vec<i64>, max_files: usize, cutoff: i64) -> (r: Vec<bool>)
    ensures
        r@ == rotation_plan(stamps@, max_files as nat, cutoff),
{
    let mut r: Vec<bool> = Vec::new();
    let mut i: usize = 0;
    while i < stamps.len()
        invariant
            i <= stamps.len(),
            r@ == Seq::new(i as nat, |k: int| k >= max_files || stamps@[k] < cutoff),
        decreases stamps.len() - i,
    {
        r.push(i >= max_files || stamps[i] < cutoff);
        assert(r@ =~= Seq::new((i + 1) as nat, |k: int| k >= max_files || stamps@[k] < cutoff));
        i += 1;
    }
    r
}

/// `order` lists the indices of `stamps`, newest first, equal stamps in their
/// original order.
pub open spec fn newest_first_order(stamps: Seq<i64>, order: Seq<usize>) -> bool {
    &&& order.len() == stamps.len()
    &&& forall|i: int, j: int| 0 <= i < j < order.len() ==> order[i] != order[j]
    &&& forall|i: int| 0 <= i < order.len() ==> order[i] < stamps.len()
    &&& forall|i: int, j: int|
        0 <= i < j < order.len() ==> stamps[order[i] as int] > stamps[order[j] as int] || (
        stamps[order[i] as int] == stamps[order[j] as int] && order[i] < order[j])
}

/// The indices of `stamps`, newest first (a stable sort).
pub fn newest_first(stamps: &Vec<i64>) -> (r: Vec<usize>)
    ensures
        newest_first_order(stamps@, r@),
{
    let mut order: Vec<usize> = Vec::new();
    let mut n: usize = 0;
    while n < stamps.len()
        invariant
            n <= stamps.len(),
            order.len() == n,
            forall|i: int, j: int| 0 <= i < j < order.len() ==> order[i] != order[j],
            forall|i: int| 0 <= i < order.len() ==> order[i] < n,
            forall|i: int, j: int|
                0 <= i < j < order.len() ==> stamps@[order[i] as int] > stamps@[order[j] as int] || (
                stamps@[order[i] as int] == stamps@[order[j] as int] && order[i] < order[j]),
        decreases stamps.len() - n,
    {
        // Insert index n after every entry at least as new.
        let mut pos: usize = order.len();
        while pos > 0 && stamps[order[pos - 1]] < stamps[n]
            invariant
                pos <= order.len(),
                order.len() == n,
                n < stamps.len(),
                forall|i: int| 0 <= i < order.len() ==> order[i] < n,
                forall|i: int| pos <= i < order.len() ==> stamps@[order[i] as int] < stamps@[n as int],
            decreases pos,
        {
            pos -= 1;
        }
        let ghost old_order = order@;
        order.insert(pos, n);
        assert(forall|i: int| 0 <= i < pos ==> order@[i] == old_order[i]);
        assert(order@[pos as int] == n);
        assert(forall|i: int| pos < i < order.len() ==> order@[i] == old_order[i - 1]);
        assert forall|i: int, j: int| 0 <= i < j < order.len() implies stamps@[order[i] as int]
            > stamps@[order[j] as int] || (stamps@[order[i] as int] == stamps@[order[j] as int]
            && order[i] < order[j]) by {
            if i < pos && j == pos {
                if pos > 0 {
                    assert(!(stamps@[old_order[pos - 1] as int] < stamps@[n as int]));
                    if i < pos - 1 {
                        assert(stamps@[old_order[i] as int] > stamps@[old_order[pos - 1] as int]
                            || stamps@[old_order[i] as int] == stamps@[old_order[pos - 1] as int]);
                    }
                }
            } else if i == pos && j > pos {
            } else if i < pos && j > pos {
            } else {
            }
        }
        n += 1;
    }
    order
}

} // verus!
