//! The decisions around a compression request: when to keep the module's
//! result, when to ask a language model, and what to ask it.

use crate::config::{CompressionAggressiveness, PostExecutionPolicyMode};
use crate::daemon::policy::max_output_size;
use crate::text::{
    decimal, from_chars, is_prefix, matches_at, push_all, push_decimal, push_str, slice_of,
    to_chars, trim, trim_of, utf8_len, utf8_len_below,
};
use crate::utils::tokens::{estimate_tokens, token_estimate};
use vstd::prelude::*;

verus! {

/// The request sent to the model, with `{command}`, `{exit_code}` and
/// `{output}` to fill in.
pub open spec fn prompt_template() -> Seq<char> {
    "Compress this command output. Output ONLY the compressed result.\n\nPRESERVE: errors, warnings, file paths, exit codes, key metrics, test failures\nREMOVE: progress bars, timestamps, debug logs, verbose stack traces, repetitive lines\nFORMAT: Single line or brief bullets\nMAX: 100 tokens\n\nCommand: {command} (exit: {exit_code})\nOutput:\n{output}\n\nCompressed:"@
}

fn prompt_template_exec() -> (r: Vec<char>)
    ensures
        r@ == prompt_template(),
{
    to_chars(
        "Compress this command output. Output ONLY the compressed result.\n\nPRESERVE: errors, warnings, file paths, exit codes, key metrics, test failures\nREMOVE: progress bars, timestamps, debug logs, verbose stack traces, repetitive lines\nFORMAT: Single line or brief bullets\nMAX: 100 tokens\n\nCommand: {command} (exit: {exit_code})\nOutput:\n{output}\n\nCompressed:",
    )
}

/// `s` with every occurrence of `p`, from the left and not overlapping,
/// replaced by `t` (`str::replace` with a non-empty pattern).
pub open spec fn replace_all(s: Seq<char>, p: Seq<char>, t: Seq<char>) -> Seq<char>
    decreases s.len(),
{
    if p.len() == 0 || s.len() == 0 {
        s
    } else if is_prefix(p, s) {
        t + replace_all(s.skip(p.len() as int), p, t)
    } else {
        seq![s[0]] + replace_all(s.drop_first(), p, t)
    }
}

/// `str::replace` with a non-empty pattern.
pub fn replace_exec(s: &Vec<char>, p: &str, t: &Vec<char>) -> (r: Vec<char>)
    ensures
        r@ == replace_all(s@, p@, t@),
{
    let pv = to_chars(p);
    if pv.len() == 0 {
        return crate::text::copy(s);
    }
    let mut out: Vec<char> = Vec::new();
    let mut i: usize = 0;
    assert(s@.skip(0) =~= s@);
    assert(out@ + replace_all(s@, p@, t@) =~= replace_all(s@, p@, t@));
    while i < s.len()
        invariant
            i <= s.len(),
            pv@ == p@,
            pv.len() > 0,
            out@ + replace_all(s@.skip(i as int), p@, t@) == replace_all(s@, p@, t@),
        decreases s.len() - i,
    {
        let ghost rest = s@.skip(i as int);
        if pv.len() <= s.len() - i && matches_at(s, &pv, i) {
            assert(rest.subrange(0, pv@.len() as int) =~= s@.subrange(i as int, i + pv@.len()));
            assert(is_prefix(p@, rest));
            assert(rest.skip(pv@.len() as int) =~= s@.skip(i + pv.len()));
            push_all(&mut out, t);
            i = i + pv.len();
        } else {
            assert(!is_prefix(p@, rest)) by {
                if is_prefix(p@, rest) {
                    assert(rest.subrange(0, pv@.len() as int) =~= s@.subrange(
                        i as int,
                        i + pv@.len(),
                    ));
                }
            }
            assert(rest.drop_first() =~= s@.skip(i + 1));
            out.push(s[i]);
            i = i + 1;
        }
    }
    assert(s@.skip(s.len() as int) =~= Seq::<char>::empty());
    assert(out@ + Seq::<char>::empty() == out@);
    out
}

/// The decimal text of a signed number (`i32::to_string`).
pub open spec fn signed_decimal(n: i32) -> Seq<char> {
    if n < 0 {
        "-"@ + decimal((-(n as int)) as nat)
    } else {
        decimal(n as nat)
    }
}

fn signed_decimal_exec(n: i32) -> (r: Vec<char>)
    ensures
        r@ == signed_decimal(n),
{
    let mut r: Vec<char> = Vec::new();
    if n < 0 {
        push_str(&mut r, "-");
        let m: i64 = -(n as i64);
        push_decimal(&mut r, m as usize);
    } else {
        push_decimal(&mut r, n as usize);
    }
    r
}

/// The marker after a cut prompt.
pub open spec fn prompt_cut_marker() -> Seq<char> {
    "...\n[TRUNCATED]\n\nCompressed output:"@
}

/// The request sent to the model: the template filled in, cut to
/// `max_input_tokens * 4` characters when longer.
pub open spec fn model_prompt(command: Seq<char>, output: Seq<char>, exit_code: i32, max_input_tokens: nat) -> Seq<char> {
    let p = replace_all(
        replace_all(replace_all(prompt_template(), "{command}"@, command), "{exit_code}"@, signed_decimal(exit_code)),
        "{output}"@,
        output,
    );
    if p.len() > max_input_tokens * 4 {
        p.take((max_input_tokens * 4) as int) + prompt_cut_marker()
    } else {
        p
    }
}

/// The request sent to the model.
pub fn build_prompt(command: &str, output: &str, exit_code: i32, max_input_tokens: usize) -> (r: String)
    requires
        max_input_tokens * 4 <= usize::MAX,
    ensures
        r@ == model_prompt(command@, output@, exit_code, max_input_tokens as nat),
{
    let tmpl = prompt_template_exec();
    let cv = to_chars(command);
    let p1 = replace_exec(&tmpl, "{command}", &cv);
    let ev = signed_decimal_exec(exit_code);
    let p2 = replace_exec(&p1, "{exit_code}", &ev);
    let ov = to_chars(output);
    let p3 = replace_exec(&p2, "{output}", &ov);
    let limit = max_input_tokens * 4;
    if p3.len() > limit {
        let mut t = slice_of(&p3, 0, limit);
        push_str(&mut t, "...\n[TRUNCATED]\n\nCompressed output:");
        from_chars(&t)
    } else {
        from_chars(&p3)
    }
}

/// The text taken from a model's reply: its content when it has any, else
/// its reasoning unless that is to be dropped; `None` when nothing is left.
pub open spec fn reply_text(content: Option<Seq<char>>, reasoning: Option<Seq<char>>, strip_reasoning: bool) -> Option<Seq<char>> {
    let c = match content {
        Some(x) => trim(x),
        None => Seq::empty(),
    };
    let r = match reasoning {
        Some(x) => trim(x),
        None => Seq::empty(),
    };
    if c.len() > 0 {
        Some(c)
    } else if !strip_reasoning && r.len() > 0 {
        Some(r)
    } else {
        None
    }
}

/// The text taken from a model's reply, given the text extracted from its
/// content and its reasoning.
pub fn choose_reply(content: Option<&str>, reasoning: Option<&str>, strip_reasoning: bool) -> (r: Option<String>)
    ensures
        crate::text::opt_view(r) == reply_text(
            match content {
                Some(s) => Some(s@),
                None => None,
            },
            match reasoning {
                Some(s) => Some(s@),
                None => None,
            },
            strip_reasoning,
        ),
{
    let c = match content {
        Some(s) => {
            let v = to_chars(s);
            trim_of(&v)
        },
        None => Vec::new(),
    };
    if c.len() > 0 {
        return Some(from_chars(&c));
    }
    if strip_reasoning {
        return None;
    }
    let r = match reasoning {
        Some(s) => {
            let v = to_chars(s);
            trim_of(&v)
        },
        None => Vec::new(),
    };
    if r.len() > 0 {
        Some(from_chars(&r))
    } else {
        None
    }
}

/// What happens after the modules ran.
#[derive(Debug, Clone, Copy, PartialEq, Eq, Structural)]
pub enum NextStep {
    /// A module handled the command: its result stands.
    Keep,
    /// The output is cut and filtered without a model.
    Fallback,
    /// The output is sent to a language model.
    AskModel,
}

/// The step after compression by the modules: a module's result stands; an
/// output no module handled goes to the model unless it is larger than the
/// aggressiveness allows.
pub open spec fn next_step(module: Seq<char>, output: Seq<char>, aggressiveness: CompressionAggressiveness) -> NextStep {
    if module != "unknown"@ {
        NextStep::Keep
    } else if utf8_len(output) > max_output_size(aggressiveness) {
        NextStep::Fallback
    } else {
        NextStep::AskModel
    }
}

/// The step after compression by the modules.
pub fn step_after_compress(module: &str, output: &str, aggressiveness: CompressionAggressiveness) -> (r: NextStep)
    ensures
        r == next_step(module@, output@, aggressiveness),
{
    let mv = to_chars(module);
    if !crate::text::eq_str(&mv, "unknown") {
        return NextStep::Keep;
    }
    let ov = to_chars(output);
    let limit = crate::daemon::policy::max_output_size_bytes(aggressiveness);
    if !utf8_len_below(&ov, limit + 1) {
        NextStep::Fallback
    } else {
        NextStep::AskModel
    }
}

/// The model's text is used when it saves tokens; the result is its token
/// count and the tokens saved.
pub open spec fn model_saving(original_tokens: nat, reply: Seq<char>) -> Option<(nat, nat)> {
    let t = token_estimate(reply);
    if original_tokens > t {
        Some((t, (original_tokens - t) as nat))
    } else {
        None
    }
}

/// Whether the model's reply is used: `Some` with its token count and the
/// tokens saved, `None` when it saves nothing and the fallback is used.
pub fn accept_model_reply(original_tokens: usize, reply: &str) -> (r: Option<(usize, usize)>)
    ensures
        match (r, model_saving(original_tokens as nat, reply@)) {
            (Some((a, b)), Some((c, d))) => a == c && b == d,
            (None, None) => true,
            _ => false,
        },
{
    let t = estimate_tokens(reply);
    if original_tokens > t {
        Some((t, original_tokens - t))
    } else {
        None
    }
}

/// Whether a compressed text may replace the output at all: the policy asks
/// for replacement and the text is not blank. The saving threshold, a
/// floating-point percentage, is left to the caller.
pub fn replacement_allowed(policy_mode: PostExecutionPolicyMode, compressed: &str) -> (r: bool)
    ensures
        r == (policy_mode == PostExecutionPolicyMode::ReplaceOutput && trim(compressed@).len() > 0),
{
    match policy_mode {
        PostExecutionPolicyMode::ReplaceOutput => trim_of(&to_chars(compressed)).len() > 0,
        _ => false,
    }
}

} // verus!
