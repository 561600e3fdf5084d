//! Configuration values and the resolution of per-model runtime policies.

use crate::text::{from_chars, push_all, push_str, to_chars, trim, trim_of};
use vstd::prelude::*;

verus! {

/// General settings.
pub struct GeneralConfig {
    pub enable_tracking: bool,
    pub database_path: String,
    pub retention_days: u32,
    pub default_filter_level: String,
    pub verbosity: u8,
    /// Enables flag optimization before commands run.
    pub enable_pre_execution_flags: bool,
    /// A file of custom flag mappings.
    pub flag_mappings_path: Option<String>,
}

/// Daemon settings.
pub struct DaemonConfig {
    pub socket_path: String,
    pub max_connections: u32,
    pub timeout_seconds: u64,
    pub auto_restart: bool,
    /// The TCP address used where Unix sockets are unavailable.
    pub tcp_address: Option<String>,
}

impl Default for DaemonConfig {
    fn default() -> (r: Self)
        ensures
            r.socket_path@ == "/tmp/opencode-rtk.sock"@,
            r.max_connections == 100,
            r.timeout_seconds == 5,
            r.auto_restart,
            r.tcp_address is None,
    {
        DaemonConfig {
            socket_path: String::from_str("/tmp/opencode-rtk.sock"),
            max_connections: 100,
            timeout_seconds: 5,
            auto_restart: true,
            tcp_address: None,
        }
    }
}

/// Settings of tee mode, which keeps full outputs on disk.
pub struct TeeConfig {
    pub enabled: bool,
    /// `failures`, `always` or `never`.
    pub mode: String,
    /// The number of files kept.
    pub max_files: usize,
    /// The days files are kept.
    pub retention_days: u32,
    /// The directory of the files.
    pub directory: String,
}

impl TeeConfig {
    /// The default settings, with files in `directory`.
    pub fn defaults_in(directory: String) -> (r: Self)
        ensures
            r.enabled,
            r.mode@ == "failures"@,
            r.max_files == 20,
            r.retention_days == 90,
            r.directory@ == directory@,
    {
        TeeConfig {
            enabled: true,
            mode: String::from_str("failures"),
            max_files: 20,
            retention_days: 90,
            directory,
        }
    }
}

/// The kind of a language model.
#[derive(Debug, Clone, Copy, PartialEq, Eq, Structural)]
pub enum ModelCategory {
    Reasoning,
    Instruct,
    Compact,
}

impl Default for ModelCategory {
    fn default() -> (r: Self)
        ensures
            r == ModelCategory::Instruct,
    {
        ModelCategory::Instruct
    }
}

/// What happens to command output after it ran.
#[derive(Debug, Clone, Copy, PartialEq, Eq, Structural)]
pub enum PostExecutionPolicyMode {
    Off,
    MetadataOnly,
    ReplaceOutput,
}

impl Default for PostExecutionPolicyMode {
    fn default() -> (r: Self)
        ensures
            r == PostExecutionPolicyMode::MetadataOnly,
    {
        PostExecutionPolicyMode::MetadataOnly
    }
}

/// How strongly output is compressed.
#[derive(Debug, Clone, Copy, PartialEq, Eq, Structural)]
pub enum CompressionAggressiveness {
    Low,
    Medium,
    High,
}

impl Default for CompressionAggressiveness {
    fn default() -> (r: Self)
        ensures
            r == CompressionAggressiveness::Medium,
    {
        CompressionAggressiveness::Medium
    }
}

/// Automatic per-model policy selection.
pub struct ModelAutoConfig {
    pub enabled: bool,
    pub default_category: ModelCategory,
    pub default_policy_mode: PostExecutionPolicyMode,
    pub default_compression_aggressiveness: CompressionAggressiveness,
    pub strip_reasoning: bool,
}

impl Default for ModelAutoConfig {
    fn default() -> (r: Self)
        ensures
            !r.enabled,
            r.default_category == ModelCategory::Instruct,
            r.default_policy_mode == PostExecutionPolicyMode::MetadataOnly,
            r.default_compression_aggressiveness == CompressionAggressiveness::Medium,
            r.strip_reasoning,
    {
        ModelAutoConfig {
            enabled: false,
            default_category: ModelCategory::Instruct,
            default_policy_mode: PostExecutionPolicyMode::MetadataOnly,
            default_compression_aggressiveness: CompressionAggressiveness::Medium,
            strip_reasoning: true,
        }
    }
}

/// A rule that changes the policy of the models whose id matches a glob
/// pattern (`*` any text, `?` one character, case ignored).
pub struct ModelOverride {
    pub match_pattern: String,
    pub category: Option<ModelCategory>,
    pub policy_mode: Option<PostExecutionPolicyMode>,
    pub compression_aggressiveness: Option<CompressionAggressiveness>,
    pub strip_reasoning: Option<bool>,
}

/// The policy that applies to one model.
pub struct ModelRuntimePolicy {
    pub model_id: String,
    pub category: ModelCategory,
    pub policy_mode: PostExecutionPolicyMode,
    pub compression_aggressiveness: CompressionAggressiveness,
    pub strip_reasoning: bool,
}

/// OpenRouter settings.
pub struct OpenRouterConfig {
    /// The environment variable that holds the API key.
    pub api_key_env: String,
    /// A file that holds the API key.
    pub api_key_file: Option<String>,
    pub model: String,
    pub base_url: String,
    pub reasoning_effort: String,
    pub max_input_tokens: usize,
    pub max_output_tokens: usize,
}

/// The model used when none is configured.
pub open spec fn builtin_model() -> Seq<char> {
    "openai/gpt-oss-20b"@
}

/// The default model for a model setting (`OPENROUTER_MODEL`): the setting
/// trimmed when it is present and not blank, else the built-in model.
pub open spec fn default_model_for(setting: Option<Seq<char>>) -> Seq<char> {
    match setting {
        Some(s) => if trim(s).len() > 0 {
            trim(s)
        } else {
            builtin_model()
        },
        None => builtin_model(),
    }
}

/// The default model for a model setting (see `default_model_for`).
pub fn default_model_from(setting: Option<&str>) -> (r: String)
    ensures
        r@ == default_model_for(
            match setting {
                Some(s) => Some(s@),
                None => None,
            },
        ),
{
    match setting {
        Some(s) => {
            let t = trim_of(&to_chars(s));
            if t.len() > 0 {
                return from_chars(&t);
            }
        },
        None => {},
    }
    String::from_str("openai/gpt-oss-20b")
}

/// The API key in the contents of a key file: the contents trimmed, unless
/// that leaves nothing.
pub fn key_from_file_contents(contents: &str) -> (r: Option<String>)
    ensures
        match r {
            Some(k) => trim(contents@).len() > 0 && k@ == trim(contents@),
            None => trim(contents@).len() == 0,
        },
{
    let t = trim_of(&to_chars(contents));
    if t.len() > 0 {
        Some(from_chars(&t))
    } else {
        None
    }
}

impl OpenRouterConfig {
    /// The default settings, for `model`.
    pub fn defaults_for(model: String) -> (r: Self)
        ensures
            r.api_key_env@ == "OPENROUTER_API_KEY"@,
            r.api_key_file is None,
            r.model@ == model@,
            r.base_url@ == "https://openrouter.ai/api/v1"@,
            r.reasoning_effort@ == "low"@,
            r.max_input_tokens == 2000,
            r.max_output_tokens == 100,
    {
        OpenRouterConfig {
            api_key_env: String::from_str("OPENROUTER_API_KEY"),
            api_key_file: None,
            model,
            base_url: String::from_str("https://openrouter.ai/api/v1"),
            reasoning_effort: String::from_str("low"),
            max_input_tokens: 2000,
            max_output_tokens: 100,
        }
    }
}

// ---------------------------------------------------------------------
// Glob patterns
// ---------------------------------------------------------------------

/// A character that `regex::escape` escapes (regex-syntax's
/// `is_meta_character`).
pub open spec fn is_regex_meta(c: char) -> bool {
    c == '\\' || c == '.' || c == '+' || c == '*' || c == '?' || c == '(' || c == ')' || c == '|'
        || c == '[' || c == ']' || c == '{' || c == '}' || c == '^' || c == '$' || c == '#' || c
        == '&' || c == '-' || c == '~'
}

/// `s` with a backslash before each regex meta character.
pub open spec fn regex_escaped(s: Seq<char>) -> Seq<char>
    decreases s.len(),
{
    if s.len() == 0 {
        Seq::empty()
    } else {
        regex_escaped(s.drop_last()) + if is_regex_meta(s.last()) {
            seq!['\\', s.last()]
        } else {
            seq![s.last()]
        }
    }
}

/// Whether `Regex::new` accepts the pattern and, if so, whether the regex
/// matches somewhere in the value.
pub uninterp spec fn regex_matches(pattern: Seq<char>, value: Seq<char>) -> Option<bool>;

/// `regex::escape`: a backslash before each meta character.
#[verifier::external_body]
fn regex_escape(s: &str) -> (r: String)
    ensures
        r@ == regex_escaped(s@),
{
    regex::escape(s)
}

/// `Regex::new(pattern)` then `Regex::is_match(value)`; `None` when the
/// pattern does not compile.
#[verifier::external_body]
fn regex_is_match(pattern: &str, value: &str) -> (r: Option<bool>)
    ensures
        r == regex_matches(pattern@, value@),
{
    match regex::Regex::new(pattern) {
        Ok(re) => Some(re.is_match(value)),
        Err(_) => None,
    }
}

/// The regex text of one glob character.
pub open spec fn glob_piece(c: char) -> Seq<char> {
    if c == '*' {
        ".*"@
    } else if c == '?' {
        "."@
    } else {
        regex_escaped(seq![c])
    }
}

/// The regex text of a glob pattern's characters.
pub open spec fn glob_body(p: Seq<char>) -> Seq<char>
    decreases p.len(),
{
    if p.len() == 0 {
        Seq::empty()
    } else {
        glob_body(p.drop_last()) + glob_piece(p.last())
    }
}

/// The case-insensitive, anchored regex of a glob pattern.
pub open spec fn glob_regex(p: Seq<char>) -> Seq<char> {
    "(?i:"@ + "^"@ + glob_body(p) + "$"@ + ")"@
}

/// Whether `value` matches the glob pattern; a pattern whose regex does not
/// compile matches nothing.
pub open spec fn glob_match(p: Seq<char>, value: Seq<char>) -> bool {
    match regex_matches(glob_regex(p), value) {
        Some(b) => b,
        None => false,
    }
}

/// Whether `value` matches the glob pattern.
pub fn glob_matches(pattern: &str, value: &str) -> (r: bool)
    ensures
        r == glob_match(pattern@, value@),
{
    let pv = to_chars(pattern);
    let mut body: Vec<char> = Vec::new();
    let mut i: usize = 0;
    while i < pv.len()
        invariant
            i <= pv.len(),
            pv@ == pattern@,
            body@ == glob_body(pv@.take(i as int)),
        decreases pv.len() - i,
    {
        assert(pv@.take(i + 1).drop_last() == pv@.take(i as int));
        let c = pv[i];
        if c == '*' {
            push_str(&mut body, ".*");
        } else if c == '?' {
            push_str(&mut body, ".");
        } else {
            let mut one: Vec<char> = Vec::new();
            one.push(c);
            assert(one@ == seq![c]);
            let s = from_chars(&one);
            let e = regex_escape(s.as_str());
            let ev = to_chars(e.as_str());
            push_all(&mut body, &ev);
        }
        i += 1;
    }
    assert(pv@.take(pv.len() as int) == pv@);
    let mut re = to_chars("(?i:");
    push_str(&mut re, "^");
    push_all(&mut re, &body);
    push_str(&mut re, "$");
    push_str(&mut re, ")");
    let rs = from_chars(&re);
    match regex_is_match(rs.as_str(), value) {
        Some(b) => b,
        None => false,
    }
}

// ---------------------------------------------------------------------
// Policy resolution
// ---------------------------------------------------------------------

/// The rule applies to `model`: its trimmed pattern is not empty and matches.
pub open spec fn rule_applies(o: ModelOverride, model: Seq<char>) -> bool {
    trim(o.match_pattern@).len() > 0 && glob_match(trim(o.match_pattern@), model)
}

/// The index of the first rule that applies to `model`, if any.
pub open spec fn first_rule(rules: Seq<ModelOverride>, model: Seq<char>) -> Option<int>
    decreases rules.len(),
{
    if rules.len() == 0 {
        None
    } else {
        match first_rule(rules.drop_last(), model) {
            Some(k) => Some(k),
            None => if rule_applies(rules.last(), model) {
                Some(rules.len() - 1)
            } else {
                None
            },
        }
    }
}

/// `o`'s value when it sets one, else `d`.
pub open spec fn or_default<T>(o: Option<T>, d: T) -> T {
    match o {
        Some(v) => v,
        None => d,
    }
}

/// The resolved policy is the defaults, changed by the first rule that
/// applies to the trimmed model id.
pub open spec fn policy_is(
    p: ModelRuntimePolicy,
    auto: ModelAutoConfig,
    rules: Seq<ModelOverride>,
    model_id: Seq<char>,
) -> bool {
    let m = trim(model_id);
    &&& p.model_id@ == m
    &&& match first_rule(rules, m) {
        Some(k) => {
            &&& p.category == or_default(rules[k].category, auto.default_category)
            &&& p.policy_mode == or_default(rules[k].policy_mode, auto.default_policy_mode)
            &&& p.compression_aggressiveness == or_default(
                rules[k].compression_aggressiveness,
                auto.default_compression_aggressiveness,
            )
            &&& p.strip_reasoning == or_default(rules[k].strip_reasoning, auto.strip_reasoning)
        },
        None => {
            &&& p.category == auto.default_category
            &&& p.policy_mode == auto.default_policy_mode
            &&& p.compression_aggressiveness == auto.default_compression_aggressiveness
            &&& p.strip_reasoning == auto.strip_reasoning
        },
    }
}

/// The runtime policy of a model: `None` when automatic selection is off.
pub fn resolve_model_policy(auto: &ModelAutoConfig, rules: &Vec<ModelOverride>, model_id: &str) -> (r:
    Option<ModelRuntimePolicy>)
    ensures
        match r {
            Some(p) => auto.enabled && policy_is(p, *auto, rules@, model_id@),
            None => !auto.enabled,
        },
{
    if !auto.enabled {
        return None;
    }
    let mv = to_chars(model_id);
    let m = trim_of(&mv);
    let ms = from_chars(&m);
    let mut i: usize = 0;
    while i < rules.len()
        invariant
            i <= rules.len(),
            m@ == trim(model_id@),
            ms@ == m@,
            first_rule(rules@.take(i as int), m@) is None,
            auto.enabled,
        decreases rules.len() - i,
    {
        assert(rules@.take(i + 1).drop_last() == rules@.take(i as int));
        let pv = to_chars(rules[i].match_pattern.as_str());
        let p = trim_of(&pv);
        if p.len() > 0 {
            let ps = from_chars(&p);
            if glob_matches(ps.as_str(), ms.as_str()) {
                assert(first_rule(rules@.take(i + 1), m@) == Some(i as int));
                proof {
                    lemma_first_rule_prefix(rules@, m@, i as int);
                }
                let o = &rules[i];
                let category = match o.category {
                    Some(c) => c,
                    None => auto.default_category,
                };
                let policy_mode = match o.policy_mode {
                    Some(c) => c,
                    None => auto.default_policy_mode,
                };
                let compression_aggressiveness = match o.compression_aggressiveness {
                    Some(c) => c,
                    None => auto.default_compression_aggressiveness,
                };
                let strip_reasoning = match o.strip_reasoning {
                    Some(c) => c,
                    None => auto.strip_reasoning,
                };
                assert(*o == rules@[i as int]);
                assert(category == or_default(rules@[i as int].category, auto.default_category));
                assert(strip_reasoning == or_default(rules@[i as int].strip_reasoning, auto.strip_reasoning));
                let p = ModelRuntimePolicy {
                    model_id: ms,
                    category,
                    policy_mode,
                    compression_aggressiveness,
                    strip_reasoning,
                };
                return Some(p);
            }
        }
        i += 1;
    }
    assert(rules@.take(rules.len() as int) == rules@);
    Some(
        ModelRuntimePolicy {
            model_id: ms,
            category: auto.default_category,
            policy_mode: auto.default_policy_mode,
            compression_aggressiveness: auto.default_compression_aggressiveness,
            strip_reasoning: auto.strip_reasoning,
        },
    )
}

/// A rule found in a prefix stays the first in the whole list.
proof fn lemma_first_rule_prefix(rules: Seq<ModelOverride>, m: Seq<char>, k: int)
    requires
        0 <= k < rules.len(),
        first_rule(rules.take(k + 1), m) == Some(k),
    ensures
        first_rule(rules, m) == Some(k),
    decreases rules.len(),
{
    if rules.len() == k + 1 {
        assert(rules.take(k + 1) == rules);
    } else {
        assert(rules.drop_last().take(k + 1) == rules.take(k + 1));
        lemma_first_rule_prefix(rules.drop_last(), m, k);
    }
}

} // verus!
