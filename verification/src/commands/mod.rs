//! Command detection and per-command compression modules.

pub mod aws_cmd;
pub mod cargo_cmd;
pub mod diff_cmd;
pub mod curl_cmd;
pub mod docker;
pub mod find_cmd;
pub mod git;
pub mod go_cmd;
pub mod golangci_cmd;
pub mod grep_cmd;
pub mod lint_cmd;
pub mod ls_cmd;
pub mod next_cmd;
pub mod pip_cmd;
pub mod npm_cmd;
pub mod playwright_cmd;
pub mod pnpm_cmd;
pub mod pre_execution;
pub mod prisma_cmd;
pub mod psql_cmd;
pub mod pytest_cmd;
pub mod read_cmd;
pub mod ruff_cmd;
pub mod scan;
pub mod tsc_cmd;
pub mod vitest_cmd;
pub mod wget_cmd;

pub use pre_execution::{optimize_command, FlagMapping, OptimizedCommand};

use crate::text::{
    after_last_char, after_last_char_exec, contains_char, ends_with, eq_chars, eq_str, has_sub,
    is_prefix, is_suffix,
    lower, lowercase, split_whitespace, starts_with, strip_all_suffix, strip_all_suffix_exec,
    to_chars, trim, trim_of, words,
};
use crate::{Context, ContextView, RtkError};
use vstd::prelude::*;

verus! {

/// A compression module for one command.
pub trait CommandModule {
    /// The command name the module handles.
    spec fn spec_name(&self) -> Seq<char>;

    /// The name of the module's strategy.
    spec fn spec_strategy(&self) -> Seq<char>;

    /// What the module makes of `output` in `context`.
    spec fn spec_compress(&self, output: Seq<char>, context: ContextView) -> Seq<char>;

    /// The outputs the module handles without failing.
    spec fn accepts(&self, output: Seq<char>, context: ContextView) -> bool;

    fn name(&self) -> (r: &'static str)
        ensures
            r@ == self.spec_name(),
    ;

    fn strategy(&self) -> (r: &'static str)
        ensures
            r@ == self.spec_strategy(),
    ;

    fn compress(&self, output: &str, context: &Context) -> (r: Result<String, RtkError>)
        requires
            self.accepts(output@, context@),
        ensures
            r matches Ok(s) && s@ == self.spec_compress(output@, context@),
    ;
}

/// The first whitespace-separated word of `c`, or `c` itself when it has none.
pub open spec fn first_token(c: Seq<char>) -> Seq<char> {
    if words(c).len() > 0 {
        words(c)[0]
    } else {
        c
    }
}

/// A word that names an executable file: it ends in `.exe`, `.cmd` or `.bat`.
pub open spec fn is_exe_word(w: Seq<char>) -> bool {
    is_suffix(".exe"@, w) || is_suffix(".cmd"@, w) || is_suffix(".bat"@, w)
}

/// Where a Windows program path that starts at word `i` ends: the first word
/// from `i` on that names an executable file, when every word up to it holds
/// a backslash (a path with spaces, such as `C:\\Program Files\\node\\npm.cmd`);
/// None when the run of such words ends first.
pub open spec fn exe_end_from(ws: Seq<Seq<char>>, i: int) -> Option<int>
    decreases ws.len() - i,
{
    if i < 0 || i >= ws.len() || !has_sub(ws[i], seq!['\\']) {
        None
    } else if is_exe_word(ws[i]) {
        Some(i)
    } else {
        exe_end_from(ws, i + 1)
    }
}

proof fn lemma_exe_end_from(ws: Seq<Seq<char>>, i: int)
    ensures
        exe_end_from(ws, i) matches Some(j) ==> i <= j < ws.len(),
    decreases ws.len() - i,
{
    if 0 <= i < ws.len() && has_sub(ws[i], seq!['\\']) && !is_exe_word(ws[i]) {
        lemma_exe_end_from(ws, i + 1);
    }
}

/// The command name of a (lowercased) command line: the file name of its
/// program, without `.exe`, `.cmd` or `.bat` endings. The program is the
/// first word. When that is a Windows path (backslashes, no `/`) that names
/// no executable file, and the words after it hold backslashes up to one
/// that does, the program path runs on to that word, so that a path with
/// spaces (`C:\\Program Files\\node\\npm.cmd`) gives `npm`; arguments after a
/// complete program path (`C:\\bin\\grep.exe \\d+`) are never read.
pub open spec fn detected_base(c: Seq<char>) -> Seq<char> {
    let first = first_token(c);
    let ws = words(c);
    let b = if has_sub(first, seq!['/']) {
        after_last_char(first, '/')
    } else if has_sub(first, seq!['\\']) {
        if ws.len() > 0 {
            match exe_end_from(ws, 0) {
                Some(j) => after_last_char(ws[j], '\\'),
                None => after_last_char(ws[0], '\\'),
            }
        } else {
            after_last_char(first, '\\')
        }
    } else {
        first
    };
    strip_all_suffix(strip_all_suffix(strip_all_suffix(b, ".exe"@), ".cmd"@), ".bat"@)
}

/// `c` starts with `w` followed by a space or a tab, directly or after `rtk `.
pub open spec fn starts_with_word(c: Seq<char>, w: Seq<char>) -> bool {
    is_prefix(w + " "@, c) || is_prefix(w + "\t"@, c) || is_prefix("rtk "@ + w + " "@, c)
        || is_prefix("rtk "@ + w + "\t"@, c)
}

/// Whether the module named `name` handles `command`.
pub open spec fn matches_module(name: Seq<char>, command: Seq<char>) -> bool {
    let c = lowercase(trim(command));
    let base = detected_base(c);
    if name == "pip"@ {
        starts_with_word(c, "pip"@) || c == "pip"@ || starts_with_word(c, "pip3"@) || c
            == "pip3"@ || base == "pip"@ || base == "pip3"@
    } else {
        starts_with_word(c, name) || c == name || base == name
    }
}

/// The modules, in the order detection tries them.
#[derive(Debug, Clone, Copy, PartialEq, Eq)]
pub enum Module {
    Git,
    Npm,
    Cargo,
    Docker,
    Pytest,
    Lint,
    Tsc,
    Next,
    Playwright,
    Prisma,
    Vitest,
    Pnpm,
    Pip,
    Ruff,
    Go,
    Golangci,
    Wget,
    Curl,
    Aws,
    Psql,
    Grep,
    Diff,
    Find,
    Ls,
    Read,
}

/// The modules in detection order.
pub open spec fn module_order() -> Seq<Module> {
    seq![
        Module::Git,
        Module::Npm,
        Module::Cargo,
        Module::Docker,
        Module::Pytest,
        Module::Lint,
        Module::Tsc,
        Module::Next,
        Module::Playwright,
        Module::Prisma,
        Module::Vitest,
        Module::Pnpm,
        Module::Pip,
        Module::Ruff,
        Module::Go,
        Module::Golangci,
        Module::Wget,
        Module::Curl,
        Module::Aws,
        Module::Psql,
        Module::Grep,
        Module::Diff,
        Module::Find,
        Module::Ls,
        Module::Read,
    ]
}

/// The command name of a module.
pub open spec fn module_name(m: Module) -> Seq<char> {
    match m {
        Module::Git => "git"@,
        Module::Npm => "npm"@,
        Module::Cargo => "cargo"@,
        Module::Docker => "docker"@,
        Module::Pytest => "pytest"@,
        Module::Lint => "eslint"@,
        Module::Tsc => "tsc"@,
        Module::Next => "next"@,
        Module::Playwright => "playwright"@,
        Module::Prisma => "prisma"@,
        Module::Vitest => "vitest"@,
        Module::Pnpm => "pnpm"@,
        Module::Pip => "pip"@,
        Module::Ruff => "ruff"@,
        Module::Go => "go"@,
        Module::Golangci => "golangci-lint"@,
        Module::Wget => "wget"@,
        Module::Curl => "curl"@,
        Module::Aws => "aws"@,
        Module::Psql => "psql"@,
        Module::Grep => "grep"@,
        Module::Diff => "diff"@,
        Module::Find => "find"@,
        Module::Ls => "ls"@,
        Module::Read => "read"@,
    }
}

/// The first module at or after position `k` that handles `command`.
pub open spec fn detect_from(command: Seq<char>, k: int) -> Option<Module>
    decreases module_order().len() - k,
{
    if k < 0 || k >= module_order().len() {
        None
    } else if matches_module(module_name(module_order()[k]), command) {
        Some(module_order()[k])
    } else {
        detect_from(command, k + 1)
    }
}

impl Module {
    /// The command name of the module.
    pub fn name(&self) -> (r: &'static str)
        ensures
            r@ == module_name(*self),
    {
        self.module_name_str()
    }

    /// The command name of the module.
    pub fn module_name_str(self) -> (r: &'static str)
        ensures
            r@ == module_name(self),
    {
        match self {
            Module::Git => "git",
            Module::Npm => "npm",
            Module::Cargo => "cargo",
            Module::Docker => "docker",
            Module::Pytest => "pytest",
            Module::Lint => "eslint",
            Module::Tsc => "tsc",
            Module::Next => "next",
            Module::Playwright => "playwright",
            Module::Prisma => "prisma",
            Module::Vitest => "vitest",
            Module::Pnpm => "pnpm",
            Module::Pip => "pip",
            Module::Ruff => "ruff",
            Module::Go => "go",
            Module::Golangci => "golangci-lint",
            Module::Wget => "wget",
            Module::Curl => "curl",
            Module::Aws => "aws",
            Module::Psql => "psql",
            Module::Grep => "grep",
            Module::Diff => "diff",
            Module::Find => "find",
            Module::Ls => "ls",
            Module::Read => "read",
        }
    }
}

/// The modules in detection order.
fn module_list() -> (r: Vec<Module>)
    ensures
        r@ == module_order(),
{
    let r = vec![
        Module::Git,
        Module::Npm,
        Module::Cargo,
        Module::Docker,
        Module::Pytest,
        Module::Lint,
        Module::Tsc,
        Module::Next,
        Module::Playwright,
        Module::Prisma,
        Module::Vitest,
        Module::Pnpm,
        Module::Pip,
        Module::Ruff,
        Module::Go,
        Module::Golangci,
        Module::Wget,
        Module::Curl,
        Module::Aws,
        Module::Psql,
        Module::Grep,
        Module::Diff,
        Module::Find,
        Module::Ls,
        Module::Read,
    ];
    assert(r@ =~= module_order());
    r
}

/// The command name of a lowercased command line.
pub fn detected_base_exec(c: &Vec<char>) -> (r: Vec<char>)
    ensures
        r@ == detected_base(c@),
{
    let ws = split_whitespace(c);
    let first = if ws.len() > 0 {
        crate::text::copy(&ws[0])
    } else {
        crate::text::copy(c)
    };
    let b = if contains_char(&first, '/') {
        after_last_char_exec(&first, '/')
    } else if contains_char(&first, '\\') {
        if ws.len() > 0 {
            let ghost wv = crate::text::views(ws@);
            let exe = to_chars(".exe");
            let cmd = to_chars(".cmd");
            let bat = to_chars(".bat");
            let mut k: usize = 0;
            let mut found: Option<usize> = None;
            let mut stop = false;
            while k < ws.len() && !stop
                invariant
                    k <= ws.len(),
                    wv == crate::text::views(ws@),
                    exe@ == ".exe"@,
                    cmd@ == ".cmd"@,
                    bat@ == ".bat"@,
                    !stop ==> found is None && exe_end_from(wv, 0) == exe_end_from(wv, k as int),
                    stop && found is None ==> exe_end_from(wv, 0) is None,
                    found matches Some(j) ==> stop && exe_end_from(wv, 0) == Some(j as int),
                decreases ws.len() - k + if stop {
                    0int
                } else {
                    1int
                },
            {
                assert(wv[k as int] == ws@[k as int]@);
                if !contains_char(&ws[k], '\\') {
                    stop = true;
                } else if ends_with(&ws[k], &exe) || ends_with(&ws[k], &cmd) || ends_with(
                    &ws[k],
                    &bat,
                ) {
                    found = Some(k);
                    stop = true;
                } else {
                    k += 1;
                }
            }
            proof {
                lemma_exe_end_from(wv, 0);
                assert(wv[0] == ws@[0]@);
            }
            match found {
                Some(j) => {
                    assert(wv[j as int] == ws@[j as int]@);
                    after_last_char_exec(&ws[j], '\\')
                },
                None => after_last_char_exec(&ws[0], '\\'),
            }
        } else {
            after_last_char_exec(&first, '\\')
        }
    } else {
        first
    };
    let b1 = strip_all_suffix_exec(&b, ".exe");
    let b2 = strip_all_suffix_exec(&b1, ".cmd");
    strip_all_suffix_exec(&b2, ".bat")
}

/// Whether `c` starts with word `w` followed by a space or tab, directly or
/// after `rtk `.
fn starts_with_word_exec(c: &Vec<char>, w: &Vec<char>) -> (r: bool)
    ensures
        r == starts_with_word(c@, w@),
{
    let sp = to_chars(" ");
    let tab = to_chars("\t");
    let rtk = to_chars("rtk ");
    let mut p1 = crate::text::copy(w);
    crate::text::push_all(&mut p1, &sp);
    let mut p2 = crate::text::copy(w);
    crate::text::push_all(&mut p2, &tab);
    let mut p3 = crate::text::copy(&rtk);
    crate::text::push_all(&mut p3, &p1);
    let mut p4 = crate::text::copy(&rtk);
    crate::text::push_all(&mut p4, &p2);
    assert(p3@ == "rtk "@ + w@ + " "@);
    assert(p4@ == "rtk "@ + w@ + "\t"@);
    starts_with(c, &p1) || starts_with(c, &p2) || starts_with(c, &p3) || starts_with(c, &p4)
}

/// Whether the module named `name` handles `command`.
pub fn matches_module_exec(name: &'static str, command: &Vec<char>) -> (r: bool)
    ensures
        r == matches_module(name@, command@),
{
    let t = trim_of(command);
    let c = lower(&t);
    let base = detected_base_exec(&c);
    let n = to_chars(name);
    if eq_str(&n, "pip") {
        let pip = to_chars("pip");
        let pip3 = to_chars("pip3");
        starts_with_word_exec(&c, &pip) || eq_str(&c, "pip") || starts_with_word_exec(&c, &pip3)
            || eq_str(&c, "pip3") || eq_str(&base, "pip") || eq_str(&base, "pip3")
    } else {
        starts_with_word_exec(&c, &n) || eq_chars(&c, &n) || eq_chars(&base, &n)
    }
}

/// Finds the module that handles `command`, trying modules in a fixed order.
pub fn detect_command(command: &str) -> (r: Option<Module>)
    ensures
        r == detect_from(command@, 0),
{
    let v = to_chars(command);
    let mods = module_list();
    let mut k: usize = 0;
    while k < mods.len()
        invariant
            k <= mods.len(),
            mods@ == module_order(),
            v@ == command@,
            detect_from(command@, 0) == detect_from(command@, k as int),
        decreases mods.len() - k,
    {
        let m = mods[k];
        assert(m == module_order()[k as int]);
        let name = m.module_name_str();
        let hit = matches_module_exec(name, &v);
        assert(hit == matches_module(module_name(module_order()[k as int]), command@));
        if hit {
            return Some(m);
        }
        k += 1;
    }
    None
}

/// The strategy name of a module.
pub open spec fn module_strategy(m: Module) -> Seq<char> {
    match m {
        Module::Git => "multi_strategy"@,
        Module::Npm => "error_only"@,
        Module::Cargo => "error_only"@,
        Module::Docker => "grouping_by_pattern"@,
        Module::Pytest => "state_machine"@,
        Module::Lint => "grouping_by_pattern"@,
        Module::Tsc => "grouping_by_pattern"@,
        Module::Next => "error_only"@,
        Module::Playwright => "error_only"@,
        Module::Prisma => "error_only"@,
        Module::Vitest => "error_only"@,
        Module::Pnpm => "grouping_by_pattern"@,
        Module::Pip => "multi_strategy"@,
        Module::Ruff => "json_text_dual"@,
        Module::Go => "ndjson_parsing"@,
        Module::Golangci => "grouping_by_pattern"@,
        Module::Wget => "multi_strategy"@,
        Module::Curl => "multi_strategy"@,
        Module::Aws => "multi_strategy"@,
        Module::Psql => "multi_strategy"@,
        Module::Grep => "grouping_by_pattern"@,
        Module::Diff => "stats_extraction"@,
        Module::Find => "grouping_by_pattern"@,
        Module::Ls => "grouping_by_pattern"@,
        Module::Read => "grouping_by_pattern"@,
    }
}

/// What module `m` makes of `output` in `context`.
pub open spec fn module_compress(m: Module, output: Seq<char>, context: ContextView) -> Seq<char> {
    match m {
        Module::Git => crate::commands::git::git_compress(output, crate::commands::git::context_git_subcommand(context), context.exit_code),
        Module::Npm => crate::filter::error_only::error_only(output),
        Module::Cargo => crate::filter::error_only::error_only(output),
        Module::Docker => crate::filter::grouping::grouping(output),
        Module::Pytest => crate::commands::pytest_cmd::pytest_compress(output),
        Module::Lint => crate::filter::grouping::grouping(output),
        Module::Tsc => crate::filter::grouping::grouping(output),
        Module::Next => crate::filter::error_only::error_only(output),
        Module::Playwright => crate::filter::error_only::error_only(output),
        Module::Prisma => crate::filter::error_only::error_only(output),
        Module::Vitest => crate::filter::error_only::error_only(output),
        Module::Pnpm => crate::filter::grouping::grouping(output),
        Module::Pip => crate::commands::pip_cmd::pip_compress(output, context),
        Module::Ruff => crate::commands::ruff_cmd::ruff_compress(output, context),
        Module::Go => crate::commands::go_cmd::go_compress(output, context),
        Module::Golangci => crate::commands::golangci_cmd::golangci_compress(output, context),
        Module::Wget => crate::commands::wget_cmd::wget_compress(output, context.exit_code),
        Module::Curl => crate::commands::curl_cmd::curl_compress(output, context),
        Module::Aws => crate::commands::aws_cmd::aws_compress(output, context.exit_code),
        Module::Psql => crate::commands::psql_cmd::psql_compress(output, context.exit_code),
        Module::Grep => crate::commands::grep_cmd::grep_compress(output),
        Module::Diff => crate::commands::diff_cmd::diff_compress(output, context.exit_code),
        Module::Find => crate::commands::find_cmd::find_compress(output),
        Module::Ls => crate::commands::ls_cmd::ls_compress(output),
        Module::Read => crate::commands::read_cmd::read_compress(output, context),
    }
}

impl CommandModule for Module {
    open spec fn spec_name(&self) -> Seq<char> {
        module_name(*self)
    }

    open spec fn spec_strategy(&self) -> Seq<char> {
        module_strategy(*self)
    }

    open spec fn spec_compress(&self, output: Seq<char>, context: ContextView) -> Seq<char> {
        module_compress(*self, output, context)
    }

    open spec fn accepts(&self, output: Seq<char>, context: ContextView) -> bool {
        match *self {
            Module::Wget => crate::commands::wget_cmd::wget_accepts(output, context.exit_code),
            _ => true,
        }
    }


    fn name(&self) -> (r: &'static str) {
        self.module_name_str()
    }

    fn strategy(&self) -> (r: &'static str) {
        match *self {
            Module::Git => "multi_strategy",
            Module::Npm => "error_only",
            Module::Cargo => "error_only",
            Module::Docker => "grouping_by_pattern",
            Module::Pytest => "state_machine",
            Module::Lint => "grouping_by_pattern",
            Module::Tsc => "grouping_by_pattern",
            Module::Next => "error_only",
            Module::Playwright => "error_only",
            Module::Prisma => "error_only",
            Module::Vitest => "error_only",
            Module::Pnpm => "grouping_by_pattern",
            Module::Pip => "multi_strategy",
            Module::Ruff => "json_text_dual",
            Module::Go => "ndjson_parsing",
            Module::Golangci => "grouping_by_pattern",
            Module::Wget => "multi_strategy",
            Module::Curl => "multi_strategy",
            Module::Aws => "multi_strategy",
            Module::Psql => "multi_strategy",
            Module::Grep => "grouping_by_pattern",
            Module::Diff => "stats_extraction",
            Module::Find => "grouping_by_pattern",
            Module::Ls => "grouping_by_pattern",
            Module::Read => "grouping_by_pattern",
        }
    }

    fn compress(&self, output: &str, context: &Context) -> (r: Result<String, RtkError>) {
        match *self {
            Module::Git => git::GitModule::new().compress(output, context),
            Module::Npm => npm_cmd::NpmModule::new().compress(output, context),
            Module::Cargo => cargo_cmd::CargoModule::new().compress(output, context),
            Module::Docker => docker::DockerModule::new().compress(output, context),
            Module::Pytest => pytest_cmd::PytestModule::new().compress(output, context),
            Module::Lint => lint_cmd::LintModule::new().compress(output, context),
            Module::Tsc => tsc_cmd::TscModule::new().compress(output, context),
            Module::Next => next_cmd::NextModule::new().compress(output, context),
            Module::Playwright => playwright_cmd::PlaywrightModule::new().compress(output, context),
            Module::Prisma => prisma_cmd::PrismaModule::new().compress(output, context),
            Module::Vitest => vitest_cmd::VitestModule::new().compress(output, context),
            Module::Pnpm => pnpm_cmd::PnpmModule::new().compress(output, context),
            Module::Pip => pip_cmd::PipModule::new().compress(output, context),
            Module::Ruff => ruff_cmd::RuffModule::new().compress(output, context),
            Module::Go => go_cmd::GoModule::new().compress(output, context),
            Module::Golangci => golangci_cmd::GolangciModule::new().compress(output, context),
            Module::Wget => wget_cmd::WgetModule::new().compress(output, context),
            Module::Curl => curl_cmd::CurlModule::new().compress(output, context),
            Module::Aws => aws_cmd::AwsModule::new().compress(output, context),
            Module::Psql => psql_cmd::PsqlModule::new().compress(output, context),
            Module::Grep => grep_cmd::GrepModule::new().compress(output, context),
            Module::Diff => diff_cmd::DiffModule::new().compress(output, context),
            Module::Find => find_cmd::FindModule::new().compress(output, context),
            Module::Ls => ls_cmd::LsModule::new().compress(output, context),
            Module::Read => read_cmd::ReadModule::new().compress(output, context),
        }
    }
}

impl Module {
    /// Whether the module handles `output` in `context`: every output but the
    /// successful `wget` output whose speed cannot be cut out.
    pub fn accepts_input(&self, output: &str, context: &Context) -> (r: bool)
        ensures
            r == self.accepts(output@, context@),
    {
        match *self {
            Module::Wget => wget_cmd::wget_accepts_exec(output, context.exit_code),
            _ => true,
        }
    }
}

} // verus!
