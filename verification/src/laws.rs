//! Properties of the library as a whole, each proved for every input.

use crate::commands::pre_execution::{flag_present, mapping_table, new_flags, optimize_single_spec, optimize_spec};
use crate::commands::{detect_from, matches_module, module_name, module_order};
use crate::filter::error_only::{error_lines, error_only, is_error_line};
use crate::commands::git::{context_git_subcommand, git_compress};
use crate::text::{is_ws, join, lowercase, non_empty, split_ws, trim, trim_end, trim_start, words};
use crate::filter::grouping::{insert_desc, sort_desc, Group};
use crate::filter::error_only::first_n;
use crate::tee::{
    header_command, is_name_char, lemma_header_prefix, recorded_command, rotation_plan,
    sanitized_command, tee_contents,
};
use crate::text::{is_prefix, lines_of, split_on, strip_cr, strip_cr_all};
use crate::utils::tokens::token_estimate;
use crate::{compression_is, Compression, ContextView};
use vstd::prelude::*;

verus! {

/// The token estimate of a text is zero exactly when the text is empty.
pub proof fn law_tokens_zero_iff_empty(s: Seq<char>)
    ensures
        (token_estimate(s) == 0) <==> (s.len() == 0),
        s.len() > 0 ==> token_estimate(s) >= 1,
{
}

/// A compression never reports more saved tokens than the original had, and
/// the saved and compressed tokens add up to the original whenever the
/// compressed text is not larger.
pub proof fn law_saved_tokens_bounded(
    c: Compression,
    output: Seq<char>,
    compressed: Seq<char>,
    strategy: Seq<char>,
    module: Seq<char>,
)
    requires
        compression_is(c, output, compressed, strategy, module),
    ensures
        c.saved_tokens <= c.original_tokens,
        c.compressed_tokens <= c.original_tokens ==> c.saved_tokens + c.compressed_tokens
            == c.original_tokens,
        c.compressed_tokens >= c.original_tokens ==> c.saved_tokens == 0,
{
}

/// Detection returns the first module, in the fixed order, whose command
/// name the command line matches; it returns nothing only when no module
/// matches.
pub proof fn law_detection_first_match(command: Seq<char>)
    ensures
        match detect_from(command, 0) {
            Some(m) => exists|k: int|
                0 <= k < module_order().len() && module_order()[k] == m && matches_module(
                    module_name(m),
                    command,
                ) && forall|j: int|
                    0 <= j < k ==> !matches_module(#[trigger] module_name(module_order()[j]), command),
            None => forall|j: int|
                0 <= j < module_order().len() ==> !matches_module(
                    #[trigger] module_name(module_order()[j]),
                    command,
                ),
        },
{
    lemma_detect_from(command, 0);
}

proof fn lemma_detect_from(command: Seq<char>, i: int)
    requires
        0 <= i <= module_order().len(),
    ensures
        match detect_from(command, i) {
            Some(m) => exists|k: int|
                i <= k < module_order().len() && module_order()[k] == m && matches_module(
                    module_name(m),
                    command,
                ) && forall|j: int|
                    i <= j < k ==> !matches_module(#[trigger] module_name(module_order()[j]), command),
            None => forall|j: int|
                i <= j < module_order().len() ==> !matches_module(
                    #[trigger] module_name(module_order()[j]),
                    command,
                ),
        },
    decreases module_order().len() - i,
{
    if i < module_order().len() {
        lemma_detect_from(command, i + 1);
        if !matches_module(module_name(module_order()[i]), command) {
            match detect_from(command, i + 1) {
                Some(m) => {
                    let k = choose|k: int|
                        i + 1 <= k < module_order().len() && module_order()[k] == m
                            && matches_module(module_name(m), command) && forall|j: int|
                            i + 1 <= j < k ==> !matches_module(
                                #[trigger] module_name(module_order()[j]),
                                command,
                            );
                    assert forall|j: int| i <= j < k implies !matches_module(
                        #[trigger] module_name(module_order()[j]),
                        command,
                    ) by {
                        if j > i {
                        }
                    }
                },
                None => {},
            }
        }
    }
}

/// An optimization is skipped exactly when it adds no flag; a skipped
/// optimization leaves the command as it was and says why, and one that is
/// not skipped gives no reason.
pub proof fn law_skipped_optimization_unchanged(command: Seq<char>)
    ensures
        optimize_spec(command).skipped <==> optimize_spec(command).flags_added.len() == 0,
        optimize_spec(command).skipped ==> optimize_spec(command).optimized == optimize_spec(
            command,
        ).original,
        optimize_spec(command).skipped <==> optimize_spec(command).skip_reason is Some,
{
    let t = crate::text::trim(command);
    lemma_single_skip_iff(t);
    if crate::commands::scan::has_pipe(t) {
        lemma_single_skip_iff(crate::text::trim(crate::commands::scan::pipe_pieces(t)[0]));
    }
}

proof fn lemma_single_skip_iff(c: Seq<char>)
    ensures
        optimize_single_spec(c).skipped <==> optimize_single_spec(c).flags_added.len() == 0,
        optimize_single_spec(c).skipped ==> optimize_single_spec(c).optimized
            == optimize_single_spec(c).original,
        optimize_single_spec(c).skipped <==> optimize_single_spec(c).skip_reason is Some,
{
}

/// Every line the error-only strategy keeps is a line of the input that
/// reports an error, in input order.
pub proof fn law_error_lines_from_input(ls: Seq<Seq<char>>)
    ensures
        error_lines(ls).len() <= ls.len(),
        forall|i: int|
            0 <= i < error_lines(ls).len() ==> is_error_line(#[trigger] error_lines(ls)[i])
                && ls.contains(error_lines(ls)[i]),
    decreases ls.len(),
{
    if ls.len() > 0 {
        law_error_lines_from_input(ls.drop_last());
        let p = error_lines(ls.drop_last());
        assert forall|i: int| 0 <= i < error_lines(ls).len() implies is_error_line(
            #[trigger] error_lines(ls)[i],
        ) && ls.contains(error_lines(ls)[i]) by {
            if i < p.len() {
                assert(error_lines(ls)[i] == p[i]);
                let k = choose|k: int| 0 <= k < ls.drop_last().len() && ls.drop_last()[k] == p[i];
                assert(ls[k] == p[i]);
            } else {
                assert(ls[ls.len() - 1] == ls.last());
            }
        }
    }
}

/// Sorting groups by count keeps their number and puts larger counts first.
pub proof fn law_sort_desc_sorted(es: Seq<Group>)
    ensures
        sort_desc(es).len() == es.len(),
        forall|i: int, j: int|
            0 <= i < j < sort_desc(es).len() ==> sort_desc(es)[i].1 >= sort_desc(es)[j].1,
    decreases es.len(),
{
    if es.len() > 0 {
        law_sort_desc_sorted(es.drop_last());
        lemma_insert_desc_sorted(sort_desc(es.drop_last()), es.last());
    }
}

proof fn lemma_insert_desc_sorted(s: Seq<Group>, e: Group)
    requires
        forall|i: int, j: int| 0 <= i < j < s.len() ==> s[i].1 >= s[j].1,
    ensures
        insert_desc(s, e).len() == s.len() + 1,
        forall|i: int, j: int|
            0 <= i < j < insert_desc(s, e).len() ==> insert_desc(s, e)[i].1 >= insert_desc(
                s,
                e,
            )[j].1,
    decreases s.len(),
{
    if s.len() > 0 && s.last().1 < e.1 {
        let p = s.drop_last();
        lemma_insert_desc_sorted(p, e);
        let q = insert_desc(p, e);
        assert(insert_desc(s, e) == q.push(s.last()));
        assert forall|i: int| 0 <= i < q.len() implies q[i].1 >= s.last().1 by {
            lemma_insert_desc_members(p, e, i);
            if q[i] != e {
                let k = choose|k: int| 0 <= k < p.len() && p[k] == q[i];
                assert(s[k] == p[k]);
            }
        }
    }
}

proof fn lemma_insert_desc_members(s: Seq<Group>, e: Group, i: int)
    requires
        0 <= i < insert_desc(s, e).len(),
    ensures
        insert_desc(s, e)[i] == e || exists|k: int| 0 <= k < s.len() && s[k] == insert_desc(s, e)[i],
    decreases s.len(),
{
    if s.len() == 0 {
    } else if s.last().1 >= e.1 {
        if i < s.len() {
            assert(s.push(e)[i] == s[i]);
        }
    } else {
        let p = s.drop_last();
        let q = insert_desc(p, e);
        if i < q.len() {
            lemma_insert_desc_members(p, e, i);
            if q[i] != e {
                let k = choose|k: int| 0 <= k < p.len() && p[k] == q[i];
                assert(s[k] == p[k]);
            }
        } else {
            assert(s[s.len() - 1] == s.last());
        }
    }
}

/// The file-name part of a command has at most thirty characters, each an
/// ASCII letter or digit, `_` or `-`.
pub proof fn law_sanitized_name(command: Seq<char>)
    ensures
        sanitized_command(command).len() <= 30,
        forall|i: int|
            0 <= i < sanitized_command(command).len() ==> is_name_char(
                #[trigger] sanitized_command(command)[i],
            ),
{
}

/// The number of entries `keep` marks kept.
pub open spec fn kept_count(plan: Seq<bool>) -> nat
    decreases plan.len(),
{
    if plan.len() == 0 {
        0
    } else {
        kept_count(plan.drop_last()) + if plan.last() {
            0nat
        } else {
            1nat
        }
    }
}

/// Rotation keeps at most `max_files` files, and every file it keeps is
/// among the newest `max_files` and not older than the cutoff.
pub proof fn law_rotation_keeps_at_most(stamps: Seq<i64>, max_files: nat, cutoff: i64)
    ensures
        kept_count(rotation_plan(stamps, max_files, cutoff)) <= max_files,
        forall|i: int|
            0 <= i < stamps.len() && !(#[trigger] rotation_plan(stamps, max_files, cutoff)[i])
                ==> i < max_files && stamps[i] >= cutoff,
{
    lemma_kept_prefix(rotation_plan(stamps, max_files, cutoff), max_files);
}

proof fn lemma_kept_prefix(plan: Seq<bool>, max: nat)
    requires
        forall|i: int| 0 <= i < plan.len() && i >= max ==> #[trigger] plan[i],
    ensures
        kept_count(plan) <= max,
        kept_count(plan) <= plan.len(),
    decreases plan.len(),
{
    if plan.len() > 0 {
        lemma_kept_prefix(plan.drop_last(), max);
        if !plan.last() {
            assert(plan[plan.len() - 1] == plan.last());
        }
    }
}

/// An optimized command without a pipe is the trimmed command followed by
/// the added flags, separated by spaces, and no added flag was already among
/// the command's flag words.
pub proof fn law_added_flags_are_new(command: Seq<char>)
    requires
        !optimize_spec(command).skipped,
        !crate::commands::scan::has_pipe(crate::text::trim(command)),
    ensures
        optimize_spec(command).optimized == crate::text::trim(command) + " "@ + crate::text::join(
            optimize_spec(command).flags_added,
            " "@,
        ),
        forall|i: int|
            0 <= i < optimize_spec(command).flags_added.len() ==> !flag_present(
                crate::commands::scan::command_parts(crate::text::trim(command)),
                #[trigger] optimize_spec(command).flags_added[i],
            ),
{
    let t = crate::text::trim(command);
    let parts = crate::commands::scan::command_parts(t);
    let o = optimize_single_spec(t);
    if parts.len() > 0 {
        match crate::commands::pre_execution::actual_index_from(parts, 0) {
            Some(i) => {
                let base = crate::commands::pre_execution::base_command(parts[i]);
                let sub = if i + 1 < parts.len() {
                    Some(parts[i + 1])
                } else {
                    None
                };
                match crate::commands::pre_execution::find_mapping_from(
                    crate::commands::pre_execution::mapping_table(),
                    base,
                    sub,
                    0,
                ) {
                    Some(k) => {
                        lemma_new_flags_absent(
                            crate::commands::pre_execution::mapping_table()[k].flags,
                            parts,
                        );
                    },
                    None => {},
                }
            },
            None => {},
        }
    }
}

proof fn lemma_new_flags_absent(flags: Seq<Seq<char>>, parts: Seq<Seq<char>>)
    ensures
        forall|i: int|
            0 <= i < new_flags(flags, parts).len() ==> !flag_present(
                parts,
                #[trigger] new_flags(flags, parts)[i],
            ),
    decreases flags.len(),
{
    if flags.len() > 0 {
        lemma_new_flags_absent(flags.drop_last(), parts);
        let p = new_flags(flags.drop_last(), parts);
        assert forall|i: int| 0 <= i < new_flags(flags, parts).len() implies !flag_present(
            parts,
            #[trigger] new_flags(flags, parts)[i],
        ) by {
            if i < p.len() {
                assert(new_flags(flags, parts)[i] == p[i]);
            }
        }
    }
}

/// Splitting a text with no separator gives the text as the one piece.
proof fn lemma_split_on_single(a: Seq<char>, c: char)
    requires
        !a.contains(c),
    ensures
        split_on(a, c) == seq![a],
    decreases a.len(),
{
    if a.len() > 0 {
        assert(!a.drop_last().contains(c)) by {
            if a.drop_last().contains(c) {
                let i = choose|i: int| 0 <= i < a.drop_last().len() && a.drop_last()[i] == c;
                assert(a[i] == c);
            }
        }
        lemma_split_on_single(a.drop_last(), c);
        assert(a[a.len() - 1] != c);
        assert(a.drop_last().push(a.last()) =~= a);
        assert(seq![a.drop_last()].update(0, a.drop_last().push(a.last())) =~= seq![a]);
    } else {
        assert(a =~= Seq::<char>::empty());
    }
}

/// Splitting a first piece with no separator off the front of a text.
proof fn lemma_split_on_front(a: Seq<char>, c: char, b: Seq<char>)
    requires
        !a.contains(c),
    ensures
        split_on(a + seq![c] + b, c) == seq![a] + split_on(b, c),
    decreases b.len(),
{
    let s = a + seq![c] + b;
    if b.len() == 0 {
        assert(s.drop_last() =~= a);
        lemma_split_on_single(a, c);
        assert(seq![a].push(Seq::<char>::empty()) =~= seq![a] + seq![Seq::<char>::empty()]);
    } else {
        let b0 = b.drop_last();
        assert(s.drop_last() =~= a + seq![c] + b0);
        lemma_split_on_front(a, c, b0);
        let p = split_on(b0, c);
        crate::text::lemma_split_on_nonempty(b0, c);
        if b.last() == c {
            assert((seq![a] + p).push(Seq::<char>::empty()) =~= seq![a] + p.push(
                Seq::<char>::empty(),
            ));
        } else {
            let q = seq![a] + p;
            assert(q.update(q.len() - 1, q.last().push(b.last())) =~= seq![a] + p.update(
                p.len() - 1,
                p.last().push(b.last()),
            ));
        }
    }
}

/// `strip_cr_all` passes each piece through `strip_cr`.
proof fn lemma_strip_cr_all_index(ps: Seq<Seq<char>>)
    ensures
        strip_cr_all(ps).len() == ps.len(),
        forall|i: int| 0 <= i < ps.len() ==> #[trigger] strip_cr_all(ps)[i] == strip_cr(ps[i]),
    decreases ps.len(),
{
    if ps.len() > 0 {
        lemma_strip_cr_all_index(ps.drop_last());
    }
}

/// A tee file records its command: the header of the contents written for a
/// one-line command (no line feed, and no carriage return at its end) reads
/// back as that command, whatever the time stamp and the output.
pub proof fn law_tee_command_round_trip(command: Seq<char>, time: Seq<char>, output: Seq<char>)
    requires
        !command.contains('\n'),
        !(command.len() > 0 && command.last() == '\r'),
    ensures
        recorded_command(tee_contents(command, time, output)) == command,
{
    reveal_strlit("# RTK Tee File\n");
    reveal_strlit("# Command: ");
    reveal_strlit("\n");
    let l1: Seq<char> = "# RTK Tee File"@;
    reveal_strlit("# RTK Tee File");
    let l2 = "# Command: "@ + command;
    let rest = "# Timestamp: "@ + time + "\n"@ + "#\n"@ + "\n"@ + output;
    let content = tee_contents(command, time, output);
    assert(content =~= l1 + seq!['\n'] + (l2 + seq!['\n'] + rest));
    assert(!l1.contains('\n')) by {
        if l1.contains('\n') {
            let i = choose|i: int| 0 <= i < l1.len() && l1[i] == '\n';
            assert(l1[i] != '\n');
        }
    }
    assert(!l2.contains('\n')) by {
        if l2.contains('\n') {
            let i = choose|i: int| 0 <= i < l2.len() && l2[i] == '\n';
            if i >= 11 {
                assert(command[i - 11] == '\n');
            }
        }
    }
    lemma_split_on_front(l1, '\n', l2 + seq!['\n'] + rest);
    lemma_split_on_front(l2, '\n', rest);
    let p = split_on(content, '\n');
    let r = split_on(rest, '\n');
    crate::text::lemma_split_on_nonempty(rest, '\n');
    assert(p =~= seq![l1, l2] + r);
    let q = p.drop_last();
    lemma_strip_cr_all_index(q);
    let ls = lines_of(content);
    assert(ls.len() >= 2 && ls[0] == strip_cr(l1) && ls[1] == strip_cr(l2)) by {
        assert(q[0] == l1 && q[1] == l2);
        if p.last().len() == 0 {
            assert(ls == strip_cr_all(q));
        } else {
            assert(ls == strip_cr_all(q).push(p.last()));
        }
    }
    assert(strip_cr(l1) == l1);
    assert(strip_cr(l2) == l2);
    let f = first_n(ls, 5);
    assert(f.len() >= 2 && f[0] == l1 && f[1] == l2);
    assert(!is_prefix("# Command: "@, l1)) by {
        assert(l1.subrange(0, 11)[2] != "# Command: "@[2]);
    }
    assert(is_prefix("# Command: "@, l2)) by {
        assert(l2.subrange(0, 11) =~= "# Command: "@);
    }
    assert(f.take(2).drop_last() =~= f.take(1));
    assert(f.take(1).drop_last() =~= Seq::<Seq<char>>::empty());
    assert(header_command(Seq::<Seq<char>>::empty()) is None);
    assert(f.take(1).last() == l1);
    assert(header_command(f.take(1)) is None);
    assert(header_command(f.take(2)) == Some(l2.skip(11)));
    lemma_header_prefix(f, 1);
    assert(l2.skip(11) =~= command);
}

/// `idx` picks out `a` from `b`: increasing positions of `b` holding the
/// elements of `a` in turn.
pub open spec fn subsequence_by<T>(a: Seq<T>, b: Seq<T>, idx: Seq<int>) -> bool {
    &&& idx.len() == a.len()
    &&& forall|i: int, j: int| 0 <= i < j < idx.len() ==> idx[i] < idx[j]
    &&& forall|i: int| 0 <= i < a.len() ==> 0 <= #[trigger] idx[i] < b.len() && b[idx[i]] == a[i]
}

/// `a` is `b` with some elements left out, the rest in order.
pub open spec fn is_subsequence<T>(a: Seq<T>, b: Seq<T>) -> bool {
    exists|idx: Seq<int>| #[trigger] subsequence_by(a, b, idx)
}

proof fn lemma_error_lines_positions(ls: Seq<Seq<char>>) -> (idx: Seq<int>)
    ensures
        subsequence_by(error_lines(ls), ls, idx),
    decreases ls.len(),
{
    if ls.len() == 0 {
        Seq::empty()
    } else {
        let p = lemma_error_lines_positions(ls.drop_last());
        assert forall|i: int| 0 <= i < p.len() implies 0 <= #[trigger] p[i] < ls.len() && ls[p[i]]
            == error_lines(ls.drop_last())[i] by {
            assert(ls.drop_last()[p[i]] == ls[p[i]]);
        }
        if is_error_line(ls.last()) {
            let q = p.push(ls.len() - 1);
            assert(error_lines(ls) == error_lines(ls.drop_last()).push(ls.last()));
            assert forall|i: int| 0 <= i < error_lines(ls).len() implies 0 <= #[trigger] q[i]
                < ls.len() && ls[q[i]] == error_lines(ls)[i] by {
                if i < p.len() {
                    assert(q[i] == p[i]);
                }
            }
            q
        } else {
            p
        }
    }
}

/// The error-only strategy gives `(empty)` for empty input and `(no errors)`
/// when no line reports an error; otherwise its result is at most fifty
/// lines of the input joined by newlines, in input order, each reporting an
/// error (so none holds a "no errors" phrase).
pub proof fn law_error_only_keeps_input_lines(input: Seq<char>)
    ensures
        input.len() == 0 ==> error_only(input) == "(empty)"@,
        input.len() > 0 && error_lines(lines_of(input)).len() == 0 ==> error_only(input)
            == "(no errors)"@,
        input.len() > 0 && error_lines(lines_of(input)).len() > 0 ==> exists|kept: Seq<Seq<char>>|
            #[trigger] is_subsequence(kept, lines_of(input)) && error_only(input) == join(
                kept,
                "\n"@,
            ) && 1 <= kept.len() <= 50 && forall|i: int|
                0 <= i < kept.len() ==> is_error_line(#[trigger] kept[i]),
{
    let ls = lines_of(input);
    let errs = error_lines(ls);
    if input.len() > 0 && errs.len() > 0 {
        let idx = lemma_error_lines_positions(ls);
        law_error_lines_from_input(ls);
        let kept = first_n(errs, 50);
        let kidx = first_n(idx, 50);
        assert(subsequence_by(kept, ls, kidx));
        assert(is_subsequence(kept, ls));
        assert forall|i: int| 0 <= i < kept.len() implies is_error_line(#[trigger] kept[i]) by {
            assert(kept[i] == errs[i]);
        }
    }
}

/// A successful `git add`, `git commit` or `git checkout` (the command and
/// subcommand words in any case) gives empty output; a failed one gives its
/// error lines.
pub proof fn law_git_quiet_commands(output: Seq<char>, context: ContextView, command: Seq<char>)
    requires
        context.command == Some(command),
        words(command).len() >= 2,
        lowercase(words(command)[0]) == "git"@,
        !is_prefix("-"@, words(command)[1]),
        lowercase(words(command)[1]) == "add"@ || lowercase(words(command)[1]) == "commit"@
            || lowercase(words(command)[1]) == "checkout"@,
    ensures
        git_compress(output, context_git_subcommand(context), context.exit_code) == if context.exit_code
            == 0 {
            Seq::<char>::empty()
        } else {
            error_only(output)
        },
{
    assert(context_git_subcommand(context) == Some(words(command)[1]));
    reveal_strlit("add");
    reveal_strlit("commit");
    reveal_strlit("checkout");
    reveal_strlit("status");
    reveal_strlit("diff");
    reveal_strlit("log");
    let l = lowercase(words(command)[1]);
    assert("commit"@[0] != "status"@[0]);
    assert("add"@[0] != "log"@[0]);
    assert("checkout"@.len() != "status"@.len());
    assert(l != "status"@ && l != "diff"@ && l != "log"@);
}

proof fn lemma_split_ws_single(a: Seq<char>)
    requires
        forall|i: int| 0 <= i < a.len() ==> !is_ws(#[trigger] a[i]),
    ensures
        split_ws(a) == seq![a],
    decreases a.len(),
{
    if a.len() > 0 {
        lemma_split_ws_single(a.drop_last());
        assert(!is_ws(a[a.len() - 1]));
        assert(a.drop_last().push(a.last()) =~= a);
        assert(seq![a.drop_last()].update(0, a.drop_last().push(a.last())) =~= seq![a]);
    } else {
        assert(a =~= Seq::<char>::empty());
    }
}

proof fn lemma_split_ws_front(a: Seq<char>, c: char, b: Seq<char>)
    requires
        forall|i: int| 0 <= i < a.len() ==> !is_ws(#[trigger] a[i]),
        is_ws(c),
    ensures
        split_ws(a + seq![c] + b) == seq![a] + split_ws(b),
    decreases b.len(),
{
    let s = a + seq![c] + b;
    if b.len() == 0 {
        assert(s.drop_last() =~= a);
        lemma_split_ws_single(a);
        assert(seq![a].push(Seq::<char>::empty()) =~= seq![a] + seq![Seq::<char>::empty()]);
    } else {
        let b0 = b.drop_last();
        assert(s.drop_last() =~= a + seq![c] + b0);
        lemma_split_ws_front(a, c, b0);
        let p = split_ws(b0);
        crate::text::lemma_split_ws_nonempty(b0);
        if is_ws(b.last()) {
            assert((seq![a] + p).push(Seq::<char>::empty()) =~= seq![a] + p.push(
                Seq::<char>::empty(),
            ));
        } else {
            let q = seq![a] + p;
            assert(q.update(q.len() - 1, q.last().push(b.last())) =~= seq![a] + p.update(
                p.len() - 1,
                p.last().push(b.last()),
            ));
        }
    }
}

proof fn lemma_non_empty_concat(p: Seq<Seq<char>>, q: Seq<Seq<char>>)
    ensures
        non_empty(p + q) == non_empty(p) + non_empty(q),
    decreases q.len(),
{
    if q.len() == 0 {
        assert(p + q =~= p);
        assert(non_empty(p) + Seq::<Seq<char>>::empty() =~= non_empty(p));
    } else {
        lemma_non_empty_concat(p, q.drop_last());
        assert((p + q).drop_last() =~= p + q.drop_last());
        assert((p + q).last() == q.last());
        if q.last().len() > 0 {
            assert((non_empty(p) + non_empty(q.drop_last())).push(q.last()) =~= non_empty(p) + (
            non_empty(q.drop_last()).push(q.last())));
        }
    }
}

proof fn lemma_git_words(sub: Seq<char>, rest: Seq<char>)
    requires
        sub.len() > 0,
        forall|i: int| 0 <= i < sub.len() ==> !is_ws(#[trigger] sub[i]),
        rest.len() == 0 || rest[0] == ' ',
    ensures
        words("git "@ + sub + rest).len() >= 2,
        words("git "@ + sub + rest)[0] == "git"@,
        words("git "@ + sub + rest)[1] == sub,
{
    reveal_strlit("git ");
    reveal_strlit("git");
    let g: Seq<char> = "git"@;
    assert(forall|i: int| 0 <= i < g.len() ==> !is_ws(#[trigger] g[i]));
    let tail = sub + rest;
    assert("git "@ + sub + rest =~= g + seq![' '] + tail);
    lemma_split_ws_front(g, ' ', tail);
    let inner = if rest.len() == 0 {
        lemma_split_ws_single(sub);
        assert(tail =~= sub);
        Seq::<Seq<char>>::empty()
    } else {
        let r = rest.skip(1);
        assert(tail =~= sub + seq![' '] + r);
        lemma_split_ws_front(sub, ' ', r);
        split_ws(r)
    };
    assert(split_ws("git "@ + sub + rest) =~= seq![g, sub] + inner);
    lemma_non_empty_concat(seq![g, sub], inner);
    assert(seq![g, sub].drop_last() =~= seq![g]);
    assert(seq![g].drop_last() =~= Seq::<Seq<char>>::empty());
    assert(non_empty(Seq::<Seq<char>>::empty()) =~= Seq::<Seq<char>>::empty());
    assert(non_empty(seq![g]) =~= seq![g]);
    assert(non_empty(seq![g, sub]) =~= seq![g, sub]);
}

/// A successful `git add`, `git commit` or `git checkout`, written as
/// `git <subcommand>` followed by nothing or by a space and arguments, gives
/// empty output; a failed one gives its error lines.
pub proof fn law_git_quiet_command_lines(
    output: Seq<char>,
    context: ContextView,
    sub: Seq<char>,
    rest: Seq<char>,
)
    requires
        sub == "add"@ || sub == "commit"@ || sub == "checkout"@,
        rest.len() == 0 || rest[0] == ' ',
        context.command == Some("git "@ + sub + rest),
    ensures
        git_compress(output, context_git_subcommand(context), context.exit_code) == if context.exit_code
            == 0 {
            Seq::<char>::empty()
        } else {
            error_only(output)
        },
{
    reveal_strlit("add");
    reveal_strlit("commit");
    reveal_strlit("checkout");
    reveal_strlit("git");
    reveal_strlit("-");
    assert(forall|i: int| 0 <= i < sub.len() ==> !is_ws(#[trigger] sub[i]));
    lemma_git_words(sub, rest);
    let command = "git "@ + sub + rest;
    let g: Seq<char> = "git"@;
    assert(lowercase(g) =~= g);
    if sub == "add"@ {
        assert(lowercase(sub) =~= sub);
    } else if sub == "commit"@ {
        assert(lowercase(sub) =~= sub);
    } else {
        assert(lowercase(sub) =~= sub);
    }
    assert(!is_prefix("-"@, sub)) by {
        assert(sub[0] != "-"@[0]);
    }
    law_git_quiet_commands(output, context, command);
}

proof fn lemma_trim_start_shape(s: Seq<char>)
    ensures
        trim_start(s).len() == 0 || !is_ws(trim_start(s)[0]),
    decreases s.len(),
{
    if s.len() > 0 && is_ws(s[0]) {
        lemma_trim_start_shape(s.drop_first());
    }
}

proof fn lemma_trim_end_shape(s: Seq<char>)
    ensures
        trim_end(s) == s.take(trim_end(s).len() as int),
        trim_end(s).len() <= s.len(),
        trim_end(s).len() == 0 || !is_ws(trim_end(s).last()),
    decreases s.len(),
{
    if s.len() > 0 && is_ws(s.last()) {
        lemma_trim_end_shape(s.drop_last());
        assert(s.drop_last().take(trim_end(s).len() as int) =~= s.take(trim_end(s).len() as int));
    } else {
        assert(s.take(s.len() as int) =~= s);
    }
}

/// Trimming twice is trimming once.
proof fn lemma_trim_twice(s: Seq<char>)
    ensures
        trim(trim(s)) == trim(s),
{
    let a = trim_start(s);
    lemma_trim_start_shape(s);
    lemma_trim_end_shape(a);
    let t = trim_end(a);
    if t.len() > 0 {
        assert(t[0] == a[0]);
    }
    assert(trim_start(t) == t);
    assert(trim_end(t) == t);
}

/// The elements are pairwise distinct.
pub open spec fn distinct(s: Seq<Seq<char>>) -> bool {
    forall|i: int, j: int| 0 <= i < j < s.len() ==> s[i] != s[j]
}

proof fn lemma_new_flags_distinct(flags: Seq<Seq<char>>, parts: Seq<Seq<char>>)
    requires
        distinct(flags),
    ensures
        distinct(new_flags(flags, parts)),
        forall|i: int|
            0 <= i < new_flags(flags, parts).len() ==> flags.contains(
                #[trigger] new_flags(flags, parts)[i],
            ),
    decreases flags.len(),
{
    if flags.len() > 0 {
        let d = flags.drop_last();
        assert(distinct(d)) by {
            assert forall|i: int, j: int| 0 <= i < j < d.len() implies d[i] != d[j] by {
                assert(d[i] == flags[i] && d[j] == flags[j]);
            }
        }
        lemma_new_flags_distinct(d, parts);
        let p = new_flags(d, parts);
        assert forall|i: int| 0 <= i < p.len() implies p[i] != flags.last() by {
            assert(d.contains(p[i]));
            let k = choose|k: int| 0 <= k < d.len() && d[k] == p[i];
            assert(flags[k] == d[k]);
            assert(flags[flags.len() - 1] == flags.last());
        }
        assert forall|i: int| 0 <= i < new_flags(flags, parts).len() implies flags.contains(
            #[trigger] new_flags(flags, parts)[i],
        ) by {
            if i < p.len() {
                assert(new_flags(flags, parts)[i] == p[i]);
                let k = choose|k: int| 0 <= k < d.len() && d[k] == p[i];
                assert(flags[k] == d[k]);
            } else {
                assert(flags[flags.len() - 1] == flags.last());
            }
        }
    }
}

proof fn lemma_table_flags_distinct(k: int)
    requires
        0 <= k < mapping_table().len(),
    ensures
        distinct(mapping_table()[k].flags),
{
    reveal_strlit("--porcelain");
    reveal_strlit("-b");
    reveal_strlit("--silent");
    reveal_strlit("--no-progress");
    let t = mapping_table();
    if k == 0 {
        assert(t[0].flags[0].len() != t[0].flags[1].len());
    } else if k == 7 {
        assert(t[7].flags[0].len() != t[7].flags[1].len());
    } else if k == 1 {
    } else if k == 2 {
    } else if k == 3 {
    } else if k == 4 {
    } else if k == 5 {
    } else if k == 6 {
    } else if k == 8 {
    } else if k == 9 {
    } else if k == 10 {
    } else if k == 11 {
    } else if k == 12 {
    } else if k == 13 {
    } else if k == 14 {
    } else if k == 15 {
    } else if k == 16 {
    } else if k == 17 {
    } else if k == 18 {
    } else if k == 19 {
    } else if k == 20 {
    } else {
    }
}

proof fn lemma_single_flags_distinct(c: Seq<char>)
    ensures
        distinct(optimize_single_spec(c).flags_added),
{
    let parts = crate::commands::scan::command_parts(c);
    if parts.len() > 0 {
        match crate::commands::pre_execution::actual_index_from(parts, 0) {
            Some(i) => {
                let base = crate::commands::pre_execution::base_command(parts[i]);
                let sub = if i + 1 < parts.len() {
                    Some(parts[i + 1])
                } else {
                    None
                };
                match crate::commands::pre_execution::find_mapping_from(mapping_table(), base, sub, 0) {
                    Some(k) => {
                        lemma_find_mapping_in_range(mapping_table(), base, sub, 0);
                        lemma_table_flags_distinct(k);
                        lemma_new_flags_distinct(mapping_table()[k].flags, parts);
                    },
                    None => {},
                }
            },
            None => {},
        }
    }
}

proof fn lemma_find_mapping_in_range(
    table: Seq<crate::commands::pre_execution::MappingSpec>,
    base: Seq<char>,
    sub: Option<Seq<char>>,
    k: int,
)
    ensures
        crate::commands::pre_execution::find_mapping_from(table, base, sub, k) matches Some(j) ==> 0
            <= j < table.len(),
    decreases table.len() - k,
{
    if 0 <= k < table.len() && !crate::commands::pre_execution::mapping_matches(table[k], base, sub) {
        lemma_find_mapping_in_range(table, base, sub, k + 1);
    }
}

/// What every optimization gives: the original is the command, trimmed or
/// not; it is skipped exactly when it adds no flag and exactly when it gives
/// a reason; a skipped one leaves the command unchanged; one that adds flags
/// adds each once, and, for a command without a pipe, appends them to the
/// trimmed command separated by spaces.
pub proof fn law_optimize_result(command: Seq<char>)
    ensures
        trim(optimize_spec(command).original) == trim(command),
        optimize_spec(command).skipped <==> optimize_spec(command).flags_added.len() == 0,
        optimize_spec(command).skipped <==> optimize_spec(command).skip_reason is Some,
        optimize_spec(command).skipped ==> optimize_spec(command).optimized == optimize_spec(
            command,
        ).original,
        !optimize_spec(command).skipped && !crate::commands::scan::has_pipe(trim(command))
            ==> optimize_spec(command).optimized == optimize_spec(command).original + " "@ + join(
            optimize_spec(command).flags_added,
            " "@,
        ),
        distinct(optimize_spec(command).flags_added),
{
    law_skipped_optimization_unchanged(command);
    lemma_trim_twice(command);
    let t = trim(command);
    if t.len() > 0 {
        if crate::commands::scan::has_pipe(t) {
            lemma_single_flags_distinct(trim(crate::commands::scan::pipe_pieces(t)[0]));
        } else if !optimize_spec(command).skipped {
            law_added_flags_are_new(command);
            lemma_single_flags_distinct(t);
        }
    }
}

} // verus!
