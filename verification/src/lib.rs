//! Output compression and command optimization for shell tools.

pub mod commands;
pub mod config;
pub mod daemon;
pub mod filter;
pub mod json;
pub mod summary_laws;
pub mod laws;
pub mod tee;
pub mod text;
pub mod tracking;
pub mod utils;

use crate::commands::{detect_command, detect_from, module_compress, module_name, module_strategy, CommandModule};
use crate::text::{is_control, to_chars, utf8_len, utf8_len_below};
use crate::utils::tokens::{estimate_tokens as count_tokens, token_estimate};
use vstd::prelude::*;

verus! {

/// The largest command or output accepted, in bytes.
pub const MAX_INPUT_SIZE: usize = 10485760;

/// Where and how a command ran.
#[derive(Debug, Clone)]
pub struct Context {
    pub cwd: String,
    pub exit_code: i32,
    pub tool: String,
    pub session_id: Option<String>,
    pub command: Option<String>,
}

/// A context as text: where and how a command ran.
pub struct ContextView {
    pub cwd: Seq<char>,
    pub exit_code: i32,
    pub tool: Seq<char>,
    pub session_id: Option<Seq<char>>,
    pub command: Option<Seq<char>>,
}

impl View for Context {
    type V = ContextView;

    open spec fn view(&self) -> ContextView {
        ContextView {
            cwd: self.cwd@,
            exit_code: self.exit_code,
            tool: self.tool@,
            session_id: text::opt_view(self.session_id),
            command: text::opt_view(self.command),
        }
    }
}

/// Errors the library reports.
#[derive(Debug, Clone, Copy, PartialEq, Eq)]
pub enum RtkError {
    /// The command is longer than the input limit.
    CommandTooLarge,
    /// The output is longer than the input limit.
    OutputTooLarge,
    /// The command holds a control character other than newline or tab.
    InvalidControlCharacters,
}

/// The result of a compression.
pub struct Compression {
    pub compressed: String,
    pub original_tokens: usize,
    pub compressed_tokens: usize,
    pub saved_tokens: usize,
    pub strategy: String,
    pub module: String,
}

/// The text holds no control character other than newline and tab.
pub open spec fn control_free(c: Seq<char>) -> bool {
    forall|i: int| 0 <= i < c.len() ==> !is_control(#[trigger] c[i]) || c[i] == '\n' || c[i] == '\t'
}

/// The context a module sees: the given one with the command line set.
pub open spec fn with_command(context: ContextView, command: Seq<char>) -> ContextView {
    ContextView { command: Some(command), ..context }
}

/// The command and output are within the size limits and the command holds
/// no forbidden control character.
pub open spec fn valid_input(command: Seq<char>, output: Seq<char>) -> bool {
    utf8_len(command) <= MAX_INPUT_SIZE && utf8_len(output) <= MAX_INPUT_SIZE && control_free(
        command,
    )
}

/// The error `compress` reports for input it refuses.
pub open spec fn input_error(command: Seq<char>, output: Seq<char>) -> RtkError {
    if utf8_len(command) > MAX_INPUT_SIZE {
        RtkError::CommandTooLarge
    } else if utf8_len(output) > MAX_INPUT_SIZE {
        RtkError::OutputTooLarge
    } else {
        RtkError::InvalidControlCharacters
    }
}

/// The compressed text, tokens, strategy and module of a compression.
pub open spec fn compression_is(
    c: Compression,
    output: Seq<char>,
    compressed: Seq<char>,
    strategy: Seq<char>,
    module: Seq<char>,
) -> bool {
    &&& c.compressed@ == compressed
    &&& c.original_tokens == token_estimate(output)
    &&& c.compressed_tokens == token_estimate(compressed)
    &&& c.saved_tokens == (if token_estimate(output) >= token_estimate(compressed) {
        token_estimate(output) - token_estimate(compressed)
    } else {
        0
    })
    &&& c.strategy@ == strategy
    &&& c.module@ == module
}

/// Builds the result of a compression of `output` into `compressed`.
pub fn summarize(output: &str, compressed: String, strategy: &str, module: &str) -> (r: Compression)
    ensures
        compression_is(r, output@, compressed@, strategy@, module@),
{
    let original_tokens = count_tokens(output);
    let compressed_tokens = count_tokens(compressed.as_str());
    let saved_tokens = original_tokens.saturating_sub(compressed_tokens);
    Compression {
        compressed,
        original_tokens,
        compressed_tokens,
        saved_tokens,
        strategy: String::from_str(strategy),
        module: String::from_str(module),
    }
}

/// Whether the text holds no control character other than newline and tab.
fn control_free_exec(c: &Vec<char>) -> (r: bool)
    ensures
        r == control_free(c@),
{
    let mut i: usize = 0;
    while i < c.len()
        invariant
            i <= c.len(),
            forall|j: int| 0 <= j < i ==> !is_control(#[trigger] c@[j]) || c@[j] == '\n' || c@[j]
                == '\t',
        decreases c.len() - i,
    {
        let ch = c[i];
        if crate::text::char_is_control(ch) && ch != '\n' && ch != '\t' {
            return false;
        }
        i += 1;
    }
    true
}

/// Compresses the output of `command` with the module that handles it; the
/// output of a command that no module handles is kept.
pub fn compress(command: &str, output: &str, context: Context) -> (r: Result<Compression, RtkError>)
    requires
        valid_input(command@, output@) ==> (detect_from(command@, 0) matches Some(m) ==> m.accepts(
            output@,
            with_command(context@, command@),
        )),
    ensures
        !valid_input(command@, output@) ==> r == Err::<Compression, RtkError>(
            input_error(command@, output@),
        ),
        valid_input(command@, output@) ==> match detect_from(command@, 0) {
            Some(m) => r matches Ok(c) && compression_is(
                c,
                output@,
                module_compress(m, output@, with_command(context@, command@)),
                module_strategy(m),
                module_name(m),
            ),
            None => r matches Ok(c) && compression_is(c, output@, output@, "none"@, "unknown"@),
        },
{
    let cv = to_chars(command);
    let ov = to_chars(output);
    if !utf8_len_below(&cv, MAX_INPUT_SIZE + 1) {
        return Err(RtkError::CommandTooLarge);
    }
    if !utf8_len_below(&ov, MAX_INPUT_SIZE + 1) {
        return Err(RtkError::OutputTooLarge);
    }
    if !control_free_exec(&cv) {
        return Err(RtkError::InvalidControlCharacters);
    }
    let mut context = context;
    context.command = Some(String::from_str(command));
    match detect_command(command) {
        Some(m) => {
            let compressed = m.compress(output, &context)?;
            Ok(summarize(output, compressed, m.strategy(), m.name()))
        },
        None => {
            let kept = String::from_str(output);
            Ok(summarize(output, kept, "none", "unknown"))
        },
    }
}

/// Estimates the number of model tokens `text` takes.
pub fn estimate_tokens(text: &str) -> (r: usize)
    ensures
        r == token_estimate(text@),
{
    count_tokens(text)
}

/// Whether `compress` takes these inputs: it refuses invalid input with an
/// error, and handles every valid input but the few a module cannot.
pub fn input_accepted(command: &str, output: &str, context: &Context) -> (r: bool)
    ensures
        r == (valid_input(command@, output@) ==> (detect_from(command@, 0) matches Some(m)
            ==> m.accepts(output@, with_command(context@, command@)))),
{
    let cv = to_chars(command);
    let ov = to_chars(output);
    if !utf8_len_below(&cv, MAX_INPUT_SIZE + 1) || !utf8_len_below(&ov, MAX_INPUT_SIZE + 1)
        || !control_free_exec(&cv) {
        return true;
    }
    match detect_command(command) {
        Some(m) => {
            let mut ctx = context.clone_context();
            ctx.command = Some(String::from_str(command));
            m.accepts_input(output, &ctx)
        },
        None => true,
    }
}

impl Context {
    /// A copy of the context.
    pub fn clone_context(&self) -> (r: Context)
        ensures
            r@ == self@,
    {
        Context {
            cwd: String::from_str(self.cwd.as_str()),
            exit_code: self.exit_code,
            tool: String::from_str(self.tool.as_str()),
            session_id: match &self.session_id {
                Some(s) => Some(String::from_str(s.as_str())),
                None => None,
            },
            command: match &self.command {
                Some(s) => Some(String::from_str(s.as_str())),
                None => None,
            },
        }
    }
}

} // verus!
