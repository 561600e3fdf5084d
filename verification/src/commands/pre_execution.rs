//! Pre-execution flag optimization: add output-reducing flags to a command
//! line before it runs.

use super::scan::{
    command_parts, has_heredoc, has_heredoc_spec, has_pipe, has_pipe_operator, has_subshell,
    has_subshell_spec, parse_parts, pipe_pieces, split_pipeline,
};
use crate::text::{copy, eq_chars, eq_str, from_chars, has_sub, is_prefix, is_suffix, join, join_vec, lemma_views_push, lower, lowercase, push_all, push_str, slice_of, starts_with_str, to_chars, trim, trim_of, views};
use crate::RtkError;
use vstd::prelude::*;

verus! {

/// Condition under which a flag mapping applies.
#[derive(Debug, Clone, Copy)]
pub enum FlagCondition {
    /// Only apply if this flag is not already on the command line.
    NoFlagPresent(&'static str),
    /// Only apply if the output is expected to be large (no help flag).
    OutputLikelyLarge,
}

/// Flags to append to a command (and optionally subcommand).
#[derive(Debug)]
pub struct FlagMapping {
    /// Base command (e.g. "git").
    pub command: &'static str,
    /// Optional subcommand (e.g. "status").
    pub subcommand: Option<&'static str>,
    /// Flags to append.
    pub flags: Vec<&'static str>,
    /// Condition for applying the flags.
    pub condition: Option<FlagCondition>,
}

/// Result of command optimization.
#[derive(Debug)]
pub struct OptimizedCommand {
    /// The command as given.
    pub original: String,
    /// The command with flags added.
    pub optimized: String,
    /// The flags that were added.
    pub flags_added: Vec<String>,
    /// Whether optimization was skipped.
    pub skipped: bool,
    /// Why optimization was skipped.
    pub skip_reason: Option<String>,
}

/// The condition of a mapping, as text.
pub enum ConditionSpec {
    NoFlagPresent(Seq<char>),
    OutputLikelyLarge,
}

/// A flag mapping, as text.
pub struct MappingSpec {
    pub command: Seq<char>,
    pub subcommand: Option<Seq<char>>,
    pub flags: Seq<Seq<char>>,
    pub condition: Option<ConditionSpec>,
}

/// An optimization result, as text.
pub struct OptimizedSpec {
    pub original: Seq<char>,
    pub optimized: Seq<char>,
    pub flags_added: Seq<Seq<char>>,
    pub skipped: bool,
    pub skip_reason: Option<Seq<char>>,
}

/// The contents of a list of strings.
pub open spec fn strings(v: Seq<String>) -> Seq<Seq<char>> {
    Seq::new(v.len(), |i: int| v[i]@)
}

/// The contents of a list of string literals.
pub open spec fn strs(v: Seq<&'static str>) -> Seq<Seq<char>> {
    Seq::new(v.len(), |i: int| v[i]@)
}

pub proof fn lemma_strings_push(vs: Seq<String>, x: String)
    ensures
        strings(vs.push(x)) == strings(vs).push(x@),
{
    assert(strings(vs.push(x)) =~= strings(vs).push(x@));
}

pub open spec fn opt_string(o: Option<String>) -> Option<Seq<char>> {
    match o {
        Some(s) => Some(s@),
        None => None,
    }
}

impl FlagMapping {
    pub open spec fn spec(&self) -> MappingSpec {
        MappingSpec {
            command: self.command@,
            subcommand: match self.subcommand {
                Some(s) => Some(s@),
                None => None,
            },
            flags: strs(self.flags@),
            condition: match self.condition {
                Some(FlagCondition::NoFlagPresent(f)) => Some(ConditionSpec::NoFlagPresent(f@)),
                Some(FlagCondition::OutputLikelyLarge) => Some(ConditionSpec::OutputLikelyLarge),
                None => None,
            },
        }
    }
}

impl OptimizedCommand {
    pub open spec fn spec(&self) -> OptimizedSpec {
        OptimizedSpec {
            original: self.original@,
            optimized: self.optimized@,
            flags_added: strings(self.flags_added@),
            skipped: self.skipped,
            skip_reason: opt_string(self.skip_reason),
        }
    }
}

// ---------------------------------------------------------------------
// The mapping table
// ---------------------------------------------------------------------

pub open spec fn mapping(cmd: Seq<char>, sub: Option<Seq<char>>, flags: Seq<Seq<char>>) -> MappingSpec {
    MappingSpec { command: cmd, subcommand: sub, flags, condition: None }
}

/// The flag mappings, in the order they are searched.
pub open spec fn mapping_table() -> Seq<MappingSpec> {
    seq![
        mapping("git"@, Some("status"@), seq!["--porcelain"@, "-b"@]),
        mapping("git"@, Some("diff"@), seq!["--stat"@]),
        mapping("git"@, Some("log"@), seq!["--oneline"@]),
        mapping("git"@, Some("push"@), seq!["--quiet"@]),
        mapping("git"@, Some("fetch"@), seq!["--quiet"@]),
        mapping("git"@, Some("pull"@), seq!["--quiet"@]),
        mapping("npm"@, Some("test"@), seq!["--silent"@]),
        mapping("npm"@, Some("install"@), seq!["--silent"@, "--no-progress"@]),
        mapping("npm"@, Some("run"@), seq!["--silent"@]),
        mapping("yarn"@, Some("test"@), seq!["--silent"@]),
        mapping("yarn"@, Some("install"@), seq!["--silent"@]),
        mapping("pnpm"@, Some("test"@), seq!["--silent"@]),
        mapping("pnpm"@, Some("install"@), seq!["--silent"@]),
        mapping("cargo"@, Some("build"@), seq!["--quiet"@]),
        mapping("cargo"@, Some("test"@), seq!["--quiet"@]),
        mapping("cargo"@, Some("clippy"@), seq!["--quiet"@]),
        mapping("cargo"@, Some("check"@), seq!["--quiet"@]),
        mapping("cargo"@, Some("run"@), seq!["--quiet"@]),
        mapping("cargo"@, Some("doc"@), seq!["--quiet"@]),
        mapping("pytest"@, None, seq!["-q"@]),
        mapping("curl"@, None, seq!["-s"@]),
        mapping("wget"@, None, seq!["-q"@]),
    ]
}

fn map_entry(
    command: &'static str,
    subcommand: Option<&'static str>,
    f1: &'static str,
    f2: Option<&'static str>,
) -> (r: FlagMapping)
    ensures
        r.spec() == mapping(
            command@,
            match subcommand {
                Some(s) => Some(s@),
                None => None,
            },
            match f2 {
                Some(g) => seq![f1@, g@],
                None => seq![f1@],
            },
        ),
{
    let mut flags: Vec<&'static str> = Vec::new();
    flags.push(f1);
    if let Some(g) = f2 {
        flags.push(g);
    }
    let r = FlagMapping { command, subcommand, flags, condition: None };
    assert(r.spec().flags =~= match f2 {
        Some(g) => seq![f1@, g@],
        None => seq![f1@],
    });
    r
}

/// All flag mappings for pre-execution optimization.
pub fn flag_mappings() -> (r: Vec<FlagMapping>)
    ensures
        r.len() == mapping_table().len(),
        forall|i: int| 0 <= i < r.len() ==> #[trigger] r@[i].spec() == mapping_table()[i],
{
    let mut r: Vec<FlagMapping> = Vec::new();
    r.push(map_entry("git", Some("status"), "--porcelain", Some("-b")));
    r.push(map_entry("git", Some("diff"), "--stat", None));
    r.push(map_entry("git", Some("log"), "--oneline", None));
    r.push(map_entry("git", Some("push"), "--quiet", None));
    r.push(map_entry("git", Some("fetch"), "--quiet", None));
    r.push(map_entry("git", Some("pull"), "--quiet", None));
    r.push(map_entry("npm", Some("test"), "--silent", None));
    r.push(map_entry("npm", Some("install"), "--silent", Some("--no-progress")));
    r.push(map_entry("npm", Some("run"), "--silent", None));
    r.push(map_entry("yarn", Some("test"), "--silent", None));
    r.push(map_entry("yarn", Some("install"), "--silent", None));
    r.push(map_entry("pnpm", Some("test"), "--silent", None));
    r.push(map_entry("pnpm", Some("install"), "--silent", None));
    r.push(map_entry("cargo", Some("build"), "--quiet", None));
    r.push(map_entry("cargo", Some("test"), "--quiet", None));
    r.push(map_entry("cargo", Some("clippy"), "--quiet", None));
    r.push(map_entry("cargo", Some("check"), "--quiet", None));
    r.push(map_entry("cargo", Some("run"), "--quiet", None));
    r.push(map_entry("cargo", Some("doc"), "--quiet", None));
    r.push(map_entry("pytest", None, "-q", None));
    r.push(map_entry("curl", None, "-s", None));
    r.push(map_entry("wget", None, "-q", None));
    assert forall|i: int| 0 <= i < r.len() implies #[trigger] r@[i].spec() == mapping_table()[i] by {
    }
    r
}

// ---------------------------------------------------------------------
// Specification
// ---------------------------------------------------------------------

/// A skipped result: the command unchanged, with a reason.
pub open spec fn skip(original: Seq<char>, reason: Seq<char>) -> OptimizedSpec {
    OptimizedSpec {
        original,
        optimized: original,
        flags_added: Seq::empty(),
        skipped: true,
        skip_reason: Some(reason),
    }
}

/// `s` after its last `/` or `\`, or all of `s` when it holds neither.
pub open spec fn after_last_separator(s: Seq<char>) -> Seq<char>
    decreases s.len(),
{
    if s.len() == 0 {
        s
    } else if s.last() == '/' || s.last() == '\\' {
        Seq::empty()
    } else {
        after_last_separator(s.drop_last()).push(s.last())
    }
}

/// The base command of a command word: its last path component, with one
/// `.exe` suffix removed, lowercased.
pub open spec fn base_command(word: Seq<char>) -> Seq<char> {
    let b = after_last_separator(word);
    let b2 = if is_suffix(".exe"@, b) {
        b.take(b.len() - ".exe"@.len())
    } else {
        b
    };
    lowercase(b2)
}

/// Words that precede the real command: environment assignments and
/// privilege or scheduling wrappers.
pub open spec fn is_prefix_word(part: Seq<char>) -> bool {
    let low = lowercase(part);
    (has_sub(part, "="@) && !is_prefix("-"@, part)) || low == "sudo"@ || low == "doas"@ || low
        == "run0"@ || low == "nice"@ || low == "ionice"@ || low == "env"@
}

/// Index of the first word of `parts` at or after `i` that is not a prefix
/// word.
pub open spec fn actual_index_from(parts: Seq<Seq<char>>, i: int) -> Option<int>
    decreases parts.len() - i,
{
    if i < 0 || i >= parts.len() {
        None
    } else if is_prefix_word(parts[i]) {
        actual_index_from(parts, i + 1)
    } else {
        Some(i)
    }
}

/// Whether mapping `m` applies to base command `base` and subcommand `sub`.
pub open spec fn mapping_matches(m: MappingSpec, base: Seq<char>, sub: Option<Seq<char>>) -> bool {
    lowercase(m.command) == base && match (m.subcommand, sub) {
        (Some(a), Some(b)) => lowercase(a) == lowercase(b),
        (None, None) => true,
        (Some(_), None) => false,
        (None, Some(_)) => true,
    }
}

/// Index of the first mapping of `table` at or after `k` that applies.
pub open spec fn find_mapping_from(
    table: Seq<MappingSpec>,
    base: Seq<char>,
    sub: Option<Seq<char>>,
    k: int,
) -> Option<int>
    decreases table.len() - k,
{
    if k < 0 || k >= table.len() {
        None
    } else if mapping_matches(table[k], base, sub) {
        Some(k)
    } else {
        find_mapping_from(table, base, sub, k + 1)
    }
}

/// Whether `flag` is already among the flag words of `parts`.
pub open spec fn flag_present(parts: Seq<Seq<char>>, flag: Seq<char>) -> bool {
    exists|k: int| 0 <= k < parts.len() && is_prefix("-"@, parts[k]) && parts[k] == flag
}

/// The flags of `flags` not already present in `parts`, in order.
pub open spec fn new_flags(flags: Seq<Seq<char>>, parts: Seq<Seq<char>>) -> Seq<Seq<char>>
    decreases flags.len(),
{
    if flags.len() == 0 {
        Seq::empty()
    } else if flag_present(parts, flags.last()) {
        new_flags(flags.drop_last(), parts)
    } else {
        new_flags(flags.drop_last(), parts).push(flags.last())
    }
}

/// Whether some word of `parts` equals `w`.
pub open spec fn has_word(parts: Seq<Seq<char>>, w: Seq<char>) -> bool {
    exists|k: int| 0 <= k < parts.len() && parts[k] == w
}

/// Applying mapping `m` to command `original` with words `parts`.
pub open spec fn apply_spec(original: Seq<char>, parts: Seq<Seq<char>>, m: MappingSpec) -> OptimizedSpec {
    let blocked = match m.condition {
        Some(ConditionSpec::NoFlagPresent(f)) => if has_word(parts, f) {
            Some("flag "@ + f + " already present"@)
        } else {
            None
        },
        Some(ConditionSpec::OutputLikelyLarge) => if has_word(parts, "--help"@) || has_word(
            parts,
            "-h"@,
        ) {
            Some("help flag present"@)
        } else {
            None
        },
        None => None,
    };
    match blocked {
        Some(reason) => skip(original, reason),
        None => {
            let add = new_flags(m.flags, parts);
            if add.len() == 0 {
                skip(original, "all flags already present"@)
            } else {
                OptimizedSpec {
                    original,
                    optimized: original + " "@ + join(add, " "@),
                    flags_added: add,
                    skipped: false,
                    skip_reason: None,
                }
            }
        },
    }
}

/// Optimizing a command that holds no pipe, heredoc or subshell.
pub open spec fn optimize_single_spec(command: Seq<char>) -> OptimizedSpec {
    let parts = command_parts(command);
    if parts.len() == 0 {
        skip(command, "no base command"@)
    } else {
        match actual_index_from(parts, 0) {
            None => skip(command, "no actual command found"@),
            Some(i) => {
                let base = base_command(parts[i]);
                let sub = if i + 1 < parts.len() {
                    Some(parts[i + 1])
                } else {
                    None
                };
                match find_mapping_from(mapping_table(), base, sub, 0) {
                    None => skip(command, "no matching flag mapping"@),
                    Some(k) => apply_spec(command, parts, mapping_table()[k]),
                }
            },
        }
    }
}

/// Every piece trimmed.
pub open spec fn trim_all(ps: Seq<Seq<char>>) -> Seq<Seq<char>> {
    Seq::new(ps.len(), |i: int| trim(ps[i]))
}

/// Optimizing a piped command: only the first segment of the pipeline gets
/// flags; the segments are split at pipe operators only (not inside quotes,
/// not at `||`).
pub open spec fn optimize_piped_spec(command: Seq<char>) -> OptimizedSpec {
    let segs = pipe_pieces(command);
    let first = optimize_single_spec(trim(segs[0]));
    if first.skipped {
        skip(command, "first segment not optimizable"@)
    } else {
        OptimizedSpec {
            original: command,
            optimized: join(seq![first.optimized] + trim_all(segs.skip(1)), " | "@),
            flags_added: first.flags_added,
            skipped: false,
            skip_reason: None,
        }
    }
}

/// What `optimize_command` returns for `command`.
pub open spec fn optimize_spec(command: Seq<char>) -> OptimizedSpec {
    let t = trim(command);
    if t.len() == 0 {
        skip(command, "empty command"@)
    } else if has_pipe(t) {
        optimize_piped_spec(t)
    } else if has_heredoc_spec(t) {
        skip(command, "heredoc detected"@)
    } else if has_subshell_spec(t) {
        skip(command, "subshell detected"@)
    } else {
        optimize_single_spec(t)
    }
}

// ---------------------------------------------------------------------
// Executable
// ---------------------------------------------------------------------

fn skipped_result(original: &Vec<char>, reason: &str) -> (r: OptimizedCommand)
    ensures
        r.spec() == skip(original@, reason@),
{
    let r = OptimizedCommand {
        original: from_chars(original),
        optimized: from_chars(original),
        flags_added: Vec::new(),
        skipped: true,
        skip_reason: Some(String::from_str(reason)),
    };
    assert(strings(r.flags_added@) =~= Seq::<Seq<char>>::empty());
    r
}

/// `s` after its last `/` or `\`.
fn after_last_separator_exec(s: &Vec<char>) -> (r: Vec<char>)
    ensures
        r@ == after_last_separator(s@),
{
    let mut i: usize = s.len();
    while i > 0 && s[i - 1] != '/' && s[i - 1] != '\\'
        invariant
            i <= s.len(),
            forall|j: int| i <= j < s.len() ==> s@[j] != '/' && s@[j] != '\\',
        decreases i,
    {
        i -= 1;
    }
    let r = slice_of(s, i, s.len());
    assert(r@ == after_last_separator(s@)) by {
        lemma_after_last_separator(s@, i as int);
    }
    r
}

proof fn lemma_after_last_separator(s: Seq<char>, i: int)
    requires
        0 <= i <= s.len(),
        forall|j: int| i <= j < s.len() ==> s[j] != '/' && s[j] != '\\',
        i > 0 ==> (s[i - 1] == '/' || s[i - 1] == '\\'),
    ensures
        after_last_separator(s) == s.subrange(i, s.len() as int),
    decreases s.len(),
{
    if s.len() > 0 {
        if i == s.len() {
            assert(s.subrange(i, s.len() as int) =~= Seq::<char>::empty());
        } else {
            lemma_after_last_separator(s.drop_last(), i);
            assert(s.drop_last().subrange(i, s.len() - 1).push(s.last()) =~= s.subrange(
                i,
                s.len() as int,
            ));
        }
    }
}

/// The base command of a command word (last path component, `.exe`
/// removed, lowercased).
pub fn base_command_exec(word: &Vec<char>) -> (r: Vec<char>)
    ensures
        r@ == base_command(word@),
{
    let b = after_last_separator_exec(word);
    let exe = to_chars(".exe");
    let b2 = if crate::text::ends_with(&b, &exe) {
        slice_of(&b, 0, b.len() - exe.len())
    } else {
        b
    };
    lower(&b2)
}

/// Extracts the base command from a possibly path-qualified command word.
pub fn extract_base_command(command: &str) -> (r: String)
    ensures
        r@ == base_command(command@),
{
    let v = to_chars(command);
    let b = base_command_exec(&v);
    from_chars(&b)
}

fn is_prefix_word_exec(part: &Vec<char>) -> (r: bool)
    ensures
        r == is_prefix_word(part@),
{
    let low = lower(part);
    let eq = to_chars("=");
    (crate::text::contains(part, &eq) && !starts_with_str(part, "-")) || eq_str(&low, "sudo")
        || eq_str(&low, "doas") || eq_str(&low, "run0") || eq_str(&low, "nice") || eq_str(
        &low,
        "ionice",
    ) || eq_str(&low, "env")
}

/// Finds the real command among `parts`, skipping environment assignments
/// and wrappers such as `sudo`.
pub fn extract_actual_command(parts: &Vec<Vec<char>>) -> (r: Option<usize>)
    ensures
        match r {
            Some(i) => actual_index_from(views(parts@), 0) == Some(i as int) && i < parts.len(),
            None => actual_index_from(views(parts@), 0) is None,
        },
{
    let ghost pv = views(parts@);
    let mut i: usize = 0;
    while i < parts.len()
        invariant
            i <= parts.len(),
            pv == views(parts@),
            actual_index_from(pv, 0) == actual_index_from(pv, i as int),
        decreases parts.len() - i,
    {
        if !is_prefix_word_exec(&parts[i]) {
            return Some(i);
        }
        i += 1;
    }
    None
}

fn lower_str(s: &'static str) -> (r: Vec<char>)
    ensures
        r@ == lowercase(s@),
{
    let v = to_chars(s);
    lower(&v)
}

/// Finds the first mapping that applies to `base` and `sub`.
pub fn find_mapping(table: &Vec<FlagMapping>, base: &Vec<char>, sub: Option<&Vec<char>>) -> (r:
    Option<usize>)
    ensures
        match r {
            Some(k) => find_mapping_from(
                Seq::new(table.len() as nat, |i: int| table@[i].spec()),
                base@,
                match sub {
                    Some(s) => Some(s@),
                    None => None,
                },
                0,
            ) == Some(k as int) && k < table.len(),
            None => find_mapping_from(
                Seq::new(table.len() as nat, |i: int| table@[i].spec()),
                base@,
                match sub {
                    Some(s) => Some(s@),
                    None => None,
                },
                0,
            ) is None,
        },
{
    let ghost ts = Seq::new(table.len() as nat, |i: int| table@[i].spec());
    let ghost sv = match sub {
        Some(s) => Some(s@),
        None => None,
    };
    let mut k: usize = 0;
    while k < table.len()
        invariant
            k <= table.len(),
            ts == Seq::new(table.len() as nat, |i: int| table@[i].spec()),
            sv == match sub {
                Some(s) => Some(s@),
                None => None::<Seq<char>>,
            },
            find_mapping_from(ts, base@, sv, 0) == find_mapping_from(ts, base@, sv, k as int),
        decreases table.len() - k,
    {
        let m = &table[k];
        assert(ts[k as int] == m.spec());
        let cmd = lower_str(m.command);
        let c1 = eq_chars(&cmd, base);
        let ok = match (m.subcommand, sub) {
            (Some(a), Some(b)) => {
                let la = lower_str(a);
                let lb = lower(b);
                eq_chars(&la, &lb)
            },
            (None, None) => true,
            (Some(_), None) => false,
            (None, Some(_)) => true,
        };
        assert((c1 && ok) == mapping_matches(ts[k as int], base@, sv));
        if c1 && ok {
            return Some(k);
        }
        k += 1;
    }
    None
}

/// Whether `parts` holds the word `w`.
fn has_word_exec(parts: &Vec<Vec<char>>, w: &Vec<char>) -> (r: bool)
    ensures
        r == has_word(views(parts@), w@),
{
    let mut k: usize = 0;
    while k < parts.len()
        invariant
            k <= parts.len(),
            forall|j: int| 0 <= j < k ==> views(parts@)[j] != w@,
        decreases parts.len() - k,
    {
        if eq_chars(&parts[k], w) {
            assert(views(parts@)[k as int] == w@);
            return true;
        }
        k += 1;
    }
    false
}

/// Whether `flag` is one of the flag words of `parts`.
fn flag_present_exec(parts: &Vec<Vec<char>>, flag: &Vec<char>) -> (r: bool)
    ensures
        r == flag_present(views(parts@), flag@),
{
    let mut k: usize = 0;
    while k < parts.len()
        invariant
            k <= parts.len(),
            forall|j: int|
                0 <= j < k ==> !(is_prefix("-"@, views(parts@)[j]) && views(parts@)[j] == flag@),
        decreases parts.len() - k,
    {
        assert(views(parts@)[k as int] == parts@[k as int]@);
        if starts_with_str(&parts[k], "-") && eq_chars(&parts[k], flag) {
            return true;
        }
        k += 1;
    }
    false
}

fn str_chars(s: &'static str) -> (r: Vec<char>)
    ensures
        r@ == s@,
{
    to_chars(s)
}

/// Applies a flag mapping to a command.
pub fn apply_mapping(original: &Vec<char>, parts: &Vec<Vec<char>>, m: &FlagMapping) -> (r:
    OptimizedCommand)
    ensures
        r.spec() == apply_spec(original@, views(parts@), m.spec()),
{
    match m.condition {
        Some(FlagCondition::NoFlagPresent(flag)) => {
            let f = str_chars(flag);
            if has_word_exec(parts, &f) {
                let mut reason: Vec<char> = Vec::new();
                push_str(&mut reason, "flag ");
                push_str(&mut reason, flag);
                push_str(&mut reason, " already present");
                let r = OptimizedCommand {
                    original: from_chars(original),
                    optimized: from_chars(original),
                    flags_added: Vec::new(),
                    skipped: true,
                    skip_reason: Some(from_chars(&reason)),
                };
                assert(strings(r.flags_added@) =~= Seq::<Seq<char>>::empty());
                return r;
            }
        },
        Some(FlagCondition::OutputLikelyLarge) => {
            let h1 = str_chars("--help");
            let h2 = str_chars("-h");
            if has_word_exec(parts, &h1) || has_word_exec(parts, &h2) {
                return skipped_result(original, "help flag present");
            }
        },
        None => {},
    }
    let ghost fl = m.spec().flags;
    let mut add: Vec<Vec<char>> = Vec::new();
    let mut i: usize = 0;
    while i < m.flags.len()
        invariant
            i <= m.flags.len(),
            fl == strs(m.flags@),
            views(add@) == new_flags(fl.take(i as int), views(parts@)),
        decreases m.flags.len() - i,
    {
        assert(fl.take(i + 1).drop_last() == fl.take(i as int));
        let f = str_chars(m.flags[i]);
        assert(f@ == fl[i as int]);
        if !flag_present_exec(parts, &f) {
            let ghost a0 = add@;
            add.push(f);
            proof {
                lemma_views_push(a0, f);
            }
        }
        i += 1;
    }
    assert(fl.take(m.flags.len() as int) == fl);
    if add.len() == 0 {
        return skipped_result(original, "all flags already present");
    }
    let sp = to_chars(" ");
    let joined = join_vec(&add, &sp);
    let mut opt: Vec<char> = copy(original);
    push_str(&mut opt, " ");
    push_all(&mut opt, &joined);
    let mut flags_added: Vec<String> = Vec::new();
    let mut j: usize = 0;
    while j < add.len()
        invariant
            j <= add.len(),
            strings(flags_added@) == views(add@).take(j as int),
        decreases add.len() - j,
    {
        let s = from_chars(&add[j]);
        let ghost f0 = flags_added@;
        flags_added.push(s);
        proof {
            lemma_strings_push(f0, s);
            assert(views(add@)[j as int] == add@[j as int]@);
            assert(views(add@).take(j + 1) == views(add@).take(j as int).push(views(add@)[j as int]));
        }
        j += 1;
    }
    assert(views(add@).take(add.len() as int) == views(add@));
    OptimizedCommand {
        original: from_chars(original),
        optimized: from_chars(&opt),
        flags_added,
        skipped: false,
        skip_reason: None,
    }
}

/// Optimizes a command that holds no pipe, heredoc or subshell.
pub fn optimize_single_command(command: &Vec<char>) -> (r: OptimizedCommand)
    ensures
        r.spec() == optimize_single_spec(command@),
{
    let parts = parse_parts(command);
    if parts.len() == 0 {
        return skipped_result(command, "no base command");
    }
    let idx = match extract_actual_command(&parts) {
        Some(i) => i,
        None => {
            return skipped_result(command, "no actual command found");
        },
    };
    let base = base_command_exec(&parts[idx]);
    let table = flag_mappings();
    let ghost ts = Seq::new(table.len() as nat, |i: int| table@[i].spec());
    assert(ts =~= mapping_table());
    let found = if idx + 1 < parts.len() {
        find_mapping(&table, &base, Some(&parts[idx + 1]))
    } else {
        find_mapping(&table, &base, None)
    };
    match found {
        Some(k) => apply_mapping(command, &parts, &table[k]),
        None => skipped_result(command, "no matching flag mapping"),
    }
}

/// Optimizes a piped command: only the first segment gets flags.
pub fn optimize_piped_command(command: &Vec<char>) -> (r: OptimizedCommand)
    ensures
        r.spec() == optimize_piped_spec(command@),
{
    let segments = split_pipeline(command);
    let first_segment = trim_of(&segments[0]);
    let first_result = optimize_single_command(&first_segment);
    if first_result.skipped {
        return skipped_result(command, "first segment not optimizable");
    }
    let ghost segv = views(segments@);
    let mut pieces: Vec<Vec<char>> = Vec::new();
    pieces.push(to_chars(first_result.optimized.as_str()));
    let mut i: usize = 1;
    while i < segments.len()
        invariant
            1 <= i <= segments.len(),
            segv == views(segments@),
            views(pieces@) == seq![first_result.optimized@] + trim_all(segv.subrange(1, i as int)),
        decreases segments.len() - i,
    {
        let t = trim_of(&segments[i]);
        let ghost p0 = pieces@;
        pieces.push(t);
        proof {
            lemma_views_push(p0, t);
        }
        assert(seq![first_result.optimized@] + trim_all(segv.subrange(1, i + 1)) =~= views(
            pieces@,
        ));
        i += 1;
    }
    assert(segv.subrange(1, segv.len() as int) == segv.skip(1));
    let sep = to_chars(" | ");
    let joined = join_vec(&pieces, &sep);
    OptimizedCommand {
        original: from_chars(command),
        optimized: from_chars(&joined),
        flags_added: first_result.flags_added,
        skipped: false,
        skip_reason: None,
    }
}

/// Optimizes a command by adding output-reducing flags.
pub fn optimize_command(command: &str) -> (r: Result<OptimizedCommand, RtkError>)
    ensures
        r matches Ok(o) && o.spec() == optimize_spec(command@),
{
    let v = to_chars(command);
    let trimmed = trim_of(&v);
    if trimmed.len() == 0 {
        return Ok(skipped_result(&v, "empty command"));
    }
    if has_pipe_operator(&trimmed) {
        return Ok(optimize_piped_command(&trimmed));
    }
    if has_heredoc(&trimmed) {
        return Ok(skipped_result(&v, "heredoc detected"));
    }
    if has_subshell(&trimmed) {
        return Ok(skipped_result(&v, "subshell detected"));
    }
    Ok(optimize_single_command(&trimmed))
}

/// Splits a command line into words, honouring quotes and backslashes.
pub fn parse_command_parts(command: &str) -> (r: Vec<String>)
    ensures
        strings(r@) == command_parts(command@),
{
    let v = to_chars(command);
    let parts = parse_parts(&v);
    let mut r: Vec<String> = Vec::new();
    let mut i: usize = 0;
    while i < parts.len()
        invariant
            i <= parts.len(),
            strings(r@) == views(parts@).take(i as int),
        decreases parts.len() - i,
    {
        let s = from_chars(&parts[i]);
        let ghost r0 = r@;
        r.push(s);
        proof {
            lemma_strings_push(r0, s);
            assert(views(parts@)[i as int] == parts@[i as int]@);
            assert(views(parts@).take(i + 1) == views(parts@).take(i as int).push(views(parts@)[i as int]));
        }
        i += 1;
    }
    assert(views(parts@).take(parts.len() as int) == views(parts@));
    r
}

} // verus!
