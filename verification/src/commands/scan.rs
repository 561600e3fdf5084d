//! Shell-syntax scanners used before a command is optimized: pipes,
//! heredocs, subshells, and splitting a command line into words.

use crate::text::{alphanumeric, char_is_alphanumeric, contains_str, has_sub, lemma_views_push, views};
use vstd::prelude::*;

verus! {

// ---------------------------------------------------------------------
// Pipes
// ---------------------------------------------------------------------

/// Whether a single `|` outside quotes occurs in `cs` from index `i` on,
/// given the quote state at `i`; `||` does not count.
pub open spec fn pipe_from(cs: Seq<char>, i: int, in_quotes: bool, quote: char) -> bool
    decreases cs.len() - i,
{
    if i < 0 || i >= cs.len() {
        false
    } else {
        let c = cs[i];
        if c == '"' || c == '\'' {
            if in_quotes {
                pipe_from(cs, i + 1, c != quote, quote)
            } else {
                pipe_from(cs, i + 1, true, c)
            }
        } else if c == '|' && !in_quotes {
            if i + 1 < cs.len() && cs[i + 1] == '|' {
                pipe_from(cs, i + 2, in_quotes, quote)
            } else {
                true
            }
        } else {
            pipe_from(cs, i + 1, in_quotes, quote)
        }
    }
}

/// The command holds a pipe operator (a single `|` outside quotes).
pub open spec fn has_pipe(cs: Seq<char>) -> bool {
    pipe_from(cs, 0, false, ' ')
}

/// Whether `command` holds a pipe operator.
pub fn has_pipe_operator(command: &Vec<char>) -> (r: bool)
    ensures
        r == has_pipe(command@),
{
    let mut i: usize = 0;
    let mut in_quotes = false;
    let mut quote_char = ' ';
    while i < command.len()
        invariant
            i <= command.len() + 1,
            has_pipe(command@) == pipe_from(command@, i as int, in_quotes, quote_char),
        decreases command.len() + 1 - i,
    {
        let c = command[i];
        if c == '"' || c == '\'' {
            if in_quotes {
                if c == quote_char {
                    in_quotes = false;
                }
            } else {
                in_quotes = true;
                quote_char = c;
            }
        } else if c == '|' && !in_quotes {
            if i + 1 < command.len() && command[i + 1] == '|' {
                i += 1;
            } else {
                return true;
            }
        }
        i += 1;
    }
    false
}

/// The pieces of `cs` from index `i` on, split at each pipe operator (a
/// single `|` outside quotes, as `pipe_from` finds them), given the quote
/// state at `i` and the piece `cur` read so far. `||` stays inside a piece.
pub open spec fn pipe_pieces_from(cs: Seq<char>, i: int, in_quotes: bool, quote: char, cur: Seq<char>) -> Seq<Seq<char>>
    decreases cs.len() - i,
{
    if i < 0 || i >= cs.len() {
        seq![cur]
    } else {
        let c = cs[i];
        if c == '"' || c == '\'' {
            if in_quotes {
                pipe_pieces_from(cs, i + 1, c != quote, quote, cur.push(c))
            } else {
                pipe_pieces_from(cs, i + 1, true, c, cur.push(c))
            }
        } else if c == '|' && !in_quotes {
            if i + 1 < cs.len() && cs[i + 1] == '|' {
                pipe_pieces_from(cs, i + 2, in_quotes, quote, cur.push('|').push('|'))
            } else {
                seq![cur] + pipe_pieces_from(cs, i + 1, in_quotes, quote, Seq::empty())
            }
        } else {
            pipe_pieces_from(cs, i + 1, in_quotes, quote, cur.push(c))
        }
    }
}

/// The segments of a pipeline: `cs` split at its pipe operators.
pub open spec fn pipe_pieces(cs: Seq<char>) -> Seq<Seq<char>> {
    pipe_pieces_from(cs, 0, false, ' ', Seq::empty())
}

/// The segments of a pipeline (see `pipe_pieces`).
pub fn split_pipeline(command: &Vec<char>) -> (r: Vec<Vec<char>>)
    ensures
        views(r@) == pipe_pieces(command@),
        r.len() >= 1,
{
    let mut done: Vec<Vec<char>> = Vec::new();
    let mut cur: Vec<char> = Vec::new();
    let mut i: usize = 0;
    let mut in_quotes = false;
    let mut quote_char = ' ';
    while i < command.len()
        invariant
            i <= command.len() + 1,
            pipe_pieces(command@) == views(done@) + pipe_pieces_from(
                command@,
                i as int,
                in_quotes,
                quote_char,
                cur@,
            ),
        decreases command.len() + 1 - i,
    {
        let c = command[i];
        if c == '"' || c == '\'' {
            if in_quotes {
                if c == quote_char {
                    in_quotes = false;
                }
            } else {
                in_quotes = true;
                quote_char = c;
            }
            cur.push(c);
            i += 1;
        } else if c == '|' && !in_quotes {
            if i + 1 < command.len() && command[i + 1] == '|' {
                cur.push('|');
                cur.push('|');
                i += 2;
            } else {
                let ghost d0 = done@;
                let ghost rest = pipe_pieces_from(command@, i + 1, in_quotes, quote_char, Seq::empty());
                let piece = cur;
                cur = Vec::new();
                done.push(piece);
                proof {
                    lemma_views_push(d0, piece);
                    assert(views(d0) + (seq![piece@] + rest) =~= views(d0).push(piece@) + rest);
                }
                assert(cur@ =~= Seq::<char>::empty());
                i += 1;
            }
        } else {
            cur.push(c);
            i += 1;
        }
    }
    let ghost d0 = done@;
    done.push(cur);
    proof {
        lemma_views_push(d0, cur);
        assert(views(d0) + seq![cur@] =~= views(d0).push(cur@));
    }
    done
}

// ---------------------------------------------------------------------
// Heredocs
// ---------------------------------------------------------------------

/// Whether a heredoc (`<<word`, `<<-`, `<<<`, or `<<` at the end) outside
/// quotes and outside `$(..)` occurs in `cs` from index `i` on.
pub open spec fn heredoc_from(cs: Seq<char>, i: int, in_arith: bool, in_quotes: bool, quote: char) -> bool
    decreases cs.len() - i,
{
    if i < 0 || i >= cs.len() {
        false
    } else {
        let c = cs[i];
        if c == '"' || c == '\'' {
            if in_quotes {
                heredoc_from(cs, i + 1, in_arith, c != quote, quote)
            } else {
                heredoc_from(cs, i + 1, in_arith, true, c)
            }
        } else if c == '$' && i + 1 < cs.len() && cs[i + 1] == '(' {
            heredoc_from(cs, i + 1, true, in_quotes, quote)
        } else if c == ')' && in_arith {
            heredoc_from(cs, i + 1, false, in_quotes, quote)
        } else if c == '<' && !in_quotes && !in_arith && i + 1 < cs.len() && cs[i + 1] == '<' {
            if i + 2 < cs.len() {
                let next = cs[i + 2];
                if next == '<' || next == '-' || alphanumeric(next) || next == '_' {
                    true
                } else {
                    heredoc_from(cs, i + 1, in_arith, in_quotes, quote)
                }
            } else {
                true
            }
        } else {
            heredoc_from(cs, i + 1, in_arith, in_quotes, quote)
        }
    }
}

/// The command holds a heredoc or here-string.
pub open spec fn has_heredoc_spec(cs: Seq<char>) -> bool {
    heredoc_from(cs, 0, false, false, ' ')
}

/// Whether `command` holds a heredoc or here-string.
pub fn has_heredoc(command: &Vec<char>) -> (r: bool)
    ensures
        r == has_heredoc_spec(command@),
{
    let mut i: usize = 0;
    let mut in_arithmetic = false;
    let mut in_quotes = false;
    let mut quote_char = ' ';
    while i < command.len()
        invariant
            i <= command.len(),
            has_heredoc_spec(command@) == heredoc_from(
                command@,
                i as int,
                in_arithmetic,
                in_quotes,
                quote_char,
            ),
        decreases command.len() - i,
    {
        let c = command[i];
        if c == '"' || c == '\'' {
            if in_quotes {
                if c == quote_char {
                    in_quotes = false;
                }
            } else {
                in_quotes = true;
                quote_char = c;
            }
        } else if c == '$' && i + 1 < command.len() && command[i + 1] == '(' {
            in_arithmetic = true;
        } else if c == ')' && in_arithmetic {
            in_arithmetic = false;
        } else if c == '<' && !in_quotes && !in_arithmetic {
            if i + 1 < command.len() && command[i + 1] == '<' {
                if i + 2 < command.len() {
                    let next = command[i + 2];
                    if next == '<' {
                        return true;
                    }
                    if next == '-' {
                        return true;
                    }
                    if char_is_alphanumeric(next) || next == '_' {
                        return true;
                    }
                } else {
                    return true;
                }
            }
        }
        i += 1;
    }
    false
}

// ---------------------------------------------------------------------
// Subshells
// ---------------------------------------------------------------------

/// Whether a backtick outside single and double quotes occurs in `cs` from
/// index `i` on.
pub open spec fn backtick_from(cs: Seq<char>, i: int, in_double: bool, in_single: bool) -> bool
    decreases cs.len() - i,
{
    if i < 0 || i >= cs.len() {
        false
    } else {
        let c = cs[i];
        if c == '"' && !in_single {
            backtick_from(cs, i + 1, !in_double, in_single)
        } else if c == '\'' && !in_double {
            backtick_from(cs, i + 1, in_double, !in_single)
        } else if c == '`' && !in_double && !in_single {
            true
        } else {
            backtick_from(cs, i + 1, in_double, in_single)
        }
    }
}

/// The command holds `$(` or an unquoted backtick.
pub open spec fn has_subshell_spec(cs: Seq<char>) -> bool {
    has_sub(cs, "$("@) || backtick_from(cs, 0, false, false)
}

/// Whether `command` holds a command substitution.
pub fn has_subshell(command: &Vec<char>) -> (r: bool)
    ensures
        r == has_subshell_spec(command@),
{
    if contains_str(command, "$(") {
        return true;
    }
    let mut i: usize = 0;
    let mut in_double_quotes = false;
    let mut in_single_quotes = false;
    while i < command.len()
        invariant
            i <= command.len(),
            !has_sub(command@, "$("@),
            has_subshell_spec(command@) == backtick_from(
                command@,
                i as int,
                in_double_quotes,
                in_single_quotes,
            ),
        decreases command.len() - i,
    {
        let c = command[i];
        if c == '"' && !in_single_quotes {
            in_double_quotes = !in_double_quotes;
        } else if c == '\'' && !in_double_quotes {
            in_single_quotes = !in_single_quotes;
        } else if c == '`' && !in_double_quotes && !in_single_quotes {
            return true;
        }
        i += 1;
    }
    false
}

// ---------------------------------------------------------------------
// Words of a command line
// ---------------------------------------------------------------------

/// The words of `cs` from index `i` on, given the words found so far, the
/// word being built, the quote state and whether the next character is
/// escaped. Spaces and tabs outside quotes separate words; quotes group; a
/// backslash takes the next character literally.
pub open spec fn parse_from(
    cs: Seq<char>,
    i: int,
    parts: Seq<Seq<char>>,
    cur: Seq<char>,
    in_quotes: bool,
    quote: char,
    escape: bool,
) -> Seq<Seq<char>>
    decreases cs.len() - i,
{
    if i < 0 || i >= cs.len() {
        if cur.len() > 0 {
            parts.push(cur)
        } else {
            parts
        }
    } else {
        let ch = cs[i];
        if escape {
            parse_from(cs, i + 1, parts, cur.push(ch), in_quotes, quote, false)
        } else if ch == '\\' {
            parse_from(cs, i + 1, parts, cur, in_quotes, quote, true)
        } else if ch == '"' || ch == '\'' {
            if in_quotes {
                if ch == quote {
                    parse_from(cs, i + 1, parts, cur, false, quote, false)
                } else {
                    parse_from(cs, i + 1, parts, cur.push(ch), in_quotes, quote, false)
                }
            } else {
                parse_from(cs, i + 1, parts, cur, true, ch, false)
            }
        } else if ch == ' ' || ch == '\t' {
            if in_quotes {
                parse_from(cs, i + 1, parts, cur.push(ch), in_quotes, quote, false)
            } else if cur.len() > 0 {
                parse_from(cs, i + 1, parts.push(cur), Seq::empty(), in_quotes, quote, false)
            } else {
                parse_from(cs, i + 1, parts, cur, in_quotes, quote, false)
            }
        } else {
            parse_from(cs, i + 1, parts, cur.push(ch), in_quotes, quote, false)
        }
    }
}

/// The words of a command line.
pub open spec fn command_parts(cs: Seq<char>) -> Seq<Seq<char>> {
    parse_from(cs, 0, Seq::empty(), Seq::empty(), false, ' ', false)
}

/// Splits a command line into words, honouring quotes and backslashes.
pub fn parse_parts(command: &Vec<char>) -> (r: Vec<Vec<char>>)
    ensures
        views(r@) == command_parts(command@),
{
    let mut parts: Vec<Vec<char>> = Vec::new();
    let mut current: Vec<char> = Vec::new();
    let mut in_quotes = false;
    let mut quote_char = ' ';
    let mut escape_next = false;
    let mut i: usize = 0;
    assert(views(parts@) =~= Seq::<Seq<char>>::empty());
    assert(current@ =~= Seq::<char>::empty());
    while i < command.len()
        invariant
            i <= command.len(),
            command_parts(command@) == parse_from(
                command@,
                i as int,
                views(parts@),
                current@,
                in_quotes,
                quote_char,
                escape_next,
            ),
        decreases command.len() - i,
    {
        let ch = command[i];
        if escape_next {
            current.push(ch);
            escape_next = false;
        } else if ch == '\\' {
            escape_next = true;
        } else if ch == '"' || ch == '\'' {
            if in_quotes {
                if ch == quote_char {
                    in_quotes = false;
                } else {
                    current.push(ch);
                }
            } else {
                in_quotes = true;
                quote_char = ch;
            }
        } else if ch == ' ' || ch == '\t' {
            if in_quotes {
                current.push(ch);
            } else if current.len() > 0 {
                let ghost p0 = parts@;
                let piece = current;
                parts.push(piece);
                proof {
                    lemma_views_push(p0, piece);
                }
                current = Vec::new();
            }
        } else {
            current.push(ch);
        }
        i += 1;
    }
    if current.len() > 0 {
        let ghost p0 = parts@;
        let piece = current;
        parts.push(piece);
        proof {
            lemma_views_push(p0, piece);
        }
    }
    parts
}

} // verus!
