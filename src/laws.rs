use vstd::prelude::*;

use crate::repl::{
    all_lines, evaluated, line_text, newline_text, prompt_text, session_exit, session_pieces,
    Exit, ReadOutcome,
};

verus! {

/// A prompt followed by the echo of each line, in order.
pub open spec fn echo_rounds(lines: Seq<ReadOutcome>) -> Seq<Seq<char>>
    decreases lines.len(),
{
    if lines.len() == 0 {
        Seq::empty()
    } else {
        seq![prompt_text(), evaluated(line_text(lines[0]))] + echo_rounds(lines.drop_first())
    }
}

proof fn lemma_echo_rounds_layout(lines: Seq<ReadOutcome>)
    ensures
        echo_rounds(lines).len() == 2 * lines.len(),
        forall|j: int|
            0 <= j < 2 * lines.len() && j % 2 == 0 ==> #[trigger] echo_rounds(lines)[j]
                == prompt_text(),
        forall|j: int|
            0 <= j < 2 * lines.len() && j % 2 == 1 ==> #[trigger] echo_rounds(lines)[j]
                == line_text(lines[j / 2]),
    decreases lines.len(),
{
    if lines.len() > 0 {
        let rest = lines.drop_first();
        lemma_echo_rounds_layout(rest);
        assert forall|j: int| 2 <= j < 2 * lines.len() implies #[trigger] echo_rounds(lines)[j]
            == echo_rounds(rest)[j - 2] by {}
        assert forall|j: int| 2 <= j < 2 * lines.len() && j % 2 == 1 implies #[trigger] echo_rounds(lines)[j]
            == line_text(lines[j / 2]) by {
            assert((j - 2) / 2 + 1 == j / 2);
            assert(rest[(j - 2) / 2] == lines[j / 2]);
        }
    }
}

proof fn lemma_lines_then(lines: Seq<ReadOutcome>, tail: Seq<ReadOutcome>)
    requires
        all_lines(lines),
    ensures
        session_pieces(lines + tail) == echo_rounds(lines) + session_pieces(tail),
        session_exit(lines + tail) == session_exit(tail),
    decreases lines.len(),
{
    if lines.len() == 0 {
        assert(lines + tail =~= tail);
        assert(echo_rounds(lines) + session_pieces(tail) =~= session_pieces(tail));
    } else {
        let rest = lines.drop_first();
        assert(crate::repl::is_line(lines[0]));
        assert(all_lines(rest)) by {
            assert forall|i: int| 0 <= i < rest.len() implies #[trigger] crate::repl::is_line(
                rest[i],
            ) by {
                assert(rest[i] == lines[i + 1]);
            }
        }
        lemma_lines_then(rest, tail);
        assert((lines + tail).drop_first() =~= rest + tail);
        assert((lines + tail)[0] == lines[0]);
        assert(session_pieces(lines + tail) =~= echo_rounds(lines) + session_pieces(tail));
    }
}

/// Each non-empty line fed to the loop is echoed back exactly, terminator
/// included, in the order it was read: the piece written after the prompt
/// for the `i`th read is the `i`th line.
pub proof fn echoes_are_inputs(lines: Seq<ReadOutcome>)
    requires
        all_lines(lines),
    ensures
        session_pieces(lines).len() == 2 * lines.len() + 2,
        forall|i: int|
            0 <= i < lines.len() ==> session_pieces(lines)[2 * i + 1] == line_text(#[trigger] lines[i]),
{
    lemma_lines_then(lines, Seq::empty());
    assert(lines + Seq::empty() =~= lines);
    lemma_echo_rounds_layout(lines);
}

/// Feeding `n` lines and then ending the stream writes exactly `n + 1`
/// prompts and `n` echoed lines, alternating, then one newline, and the
/// loop ends with success.
pub proof fn prompts_and_echoes(lines: Seq<ReadOutcome>)
    requires
        all_lines(lines),
    ensures
        session_pieces(lines).len() == 2 * lines.len() + 2,
        forall|j: int|
            0 <= j <= 2 * lines.len() && j % 2 == 0 ==> #[trigger] session_pieces(lines)[j]
                == prompt_text(),
        forall|j: int|
            0 <= j < 2 * lines.len() && j % 2 == 1 ==> #[trigger] session_pieces(lines)[j]
                == line_text(lines[j / 2]),
        session_pieces(lines)[2 * lines.len() + 1 as int] == newline_text(),
        session_exit(lines) == Exit::Success,
{
    lemma_lines_then(lines, Seq::empty());
    assert(lines + Seq::empty() =~= lines);
    lemma_echo_rounds_layout(lines);
}

/// A failed read ends the loop at once: after the prompt that preceded it
/// nothing more is written, whatever the stream would have produced later,
/// and the loop ends with failure.
pub proof fn fault_ends_session(lines: Seq<ReadOutcome>, later: Seq<ReadOutcome>)
    requires
        all_lines(lines),
    ensures
        session_pieces(lines + seq![ReadOutcome::Fault] + later) == echo_rounds(lines).push(prompt_text()),
        session_exit(lines + seq![ReadOutcome::Fault] + later) == Exit::Failure,
{
    let tail = seq![ReadOutcome::Fault] + later;
    assert(lines + seq![ReadOutcome::Fault] + later =~= lines + tail);
    lemma_lines_then(lines, tail);
    assert(tail[0] == ReadOutcome::Fault);
    assert(echo_rounds(lines) + session_pieces(tail) =~= echo_rounds(lines).push(prompt_text()));
}

/// Evaluating a line twice gives what evaluating it once gives.
pub proof fn eval_idempotent(line: Seq<char>)
    ensures
        evaluated(evaluated(line)) == evaluated(line),
{
}

} // verus!
