use vstd::prelude::*;
use vstd::string::StringExecFns;

verus! {

/// The prompt written before every read.
pub open spec fn prompt_text() -> Seq<char> {
    seq!['u', 's', 'e', 'r', '>', ' ']
}

/// What is written once, when the input stream has ended.
pub open spec fn newline_text() -> Seq<char> {
    seq!['\n']
}

/// What evaluating a line yields: at this stage the line itself.
pub open spec fn evaluated(line: Seq<char>) -> Seq<char> {
    line
}

/// Where the loop stands.
#[derive(Clone, Copy, Debug, PartialEq, Eq, Structural)]
pub enum ReplState {
    Reading,
    Terminated,
}

/// How the loop ended.
#[derive(Clone, Copy, Debug, PartialEq, Eq, Structural)]
pub enum Exit {
    /// The input stream ended; the process exits with status 0.
    Success,
    /// Reading failed; the process aborts with a non-zero status.
    Failure,
}

/// What one read of the input stream produced. `Data` with an empty line
/// means that the stream has ended.
#[derive(Debug)]
pub enum ReadOutcome {
    Data(String),
    Fault,
}

/// What the driver does after a read.
#[derive(Debug)]
pub enum Action {
    /// Write this text, then prompt and read again.
    Echo(String),
    /// Write one newline and exit with success.
    Finish,
    /// Stop at once, writing nothing more, and exit with failure.
    Abort,
    /// The loop has already ended: nothing to do.
    Halt,
}

/// The state and action that follow a read made in `state`.
pub open spec fn step_result(state: ReplState, outcome: ReadOutcome, next: ReplState, action: Action) -> bool {
    match state {
        ReplState::Terminated => next == ReplState::Terminated && action is Halt,
        ReplState::Reading => match outcome {
            ReadOutcome::Fault => next == ReplState::Terminated && action is Abort,
            ReadOutcome::Data(s) => if s@.len() == 0 {
                next == ReplState::Terminated && action is Finish
            } else {
                next == ReplState::Reading && (match action {
                    Action::Echo(t) => t@ == evaluated(s@),
                    _ => false,
                })
            },
        },
    }
}

/// The pieces of text, in the order written, of a session whose reads
/// produce `inputs`; once `inputs` runs out, every read sees end-of-stream.
pub open spec fn session_pieces(inputs: Seq<ReadOutcome>) -> Seq<Seq<char>>
    decreases inputs.len(),
{
    if inputs.len() == 0 {
        seq![prompt_text(), newline_text()]
    } else {
        match inputs[0] {
            ReadOutcome::Fault => seq![prompt_text()],
            ReadOutcome::Data(s) => if s@.len() == 0 {
                seq![prompt_text(), newline_text()]
            } else {
                seq![prompt_text(), evaluated(s@)] + session_pieces(inputs.drop_first())
            },
        }
    }
}

/// How a session whose reads produce `inputs` ends.
pub open spec fn session_exit(inputs: Seq<ReadOutcome>) -> Exit
    decreases inputs.len(),
{
    if inputs.len() == 0 {
        Exit::Success
    } else {
        match inputs[0] {
            ReadOutcome::Fault => Exit::Failure,
            ReadOutcome::Data(s) => if s@.len() == 0 {
                Exit::Success
            } else {
                session_exit(inputs.drop_first())
            },
        }
    }
}

/// A read that produced a non-empty line.
pub open spec fn is_line(outcome: ReadOutcome) -> bool {
    match outcome {
        ReadOutcome::Data(s) => s@.len() > 0,
        ReadOutcome::Fault => false,
    }
}

/// The text of a read; empty for a failed one.
pub open spec fn line_text(outcome: ReadOutcome) -> Seq<char> {
    match outcome {
        ReadOutcome::Data(s) => s@,
        ReadOutcome::Fault => Seq::empty(),
    }
}

/// Every read produced a non-empty line.
pub open spec fn all_lines(inputs: Seq<ReadOutcome>) -> bool {
    forall|i: int| 0 <= i < inputs.len() ==> #[trigger] is_line(inputs[i])
}

/// The characters of each string.
pub open spec fn texts(v: Seq<String>) -> Seq<Seq<char>> {
    v.map_values(|s: String| s@)
}

/// The prompt, `"user> "`.
pub fn prompt() -> (r: String)
    ensures
        r@ == prompt_text(),
{
    proof {
        reveal_strlit("user> ");
    }
    "user> ".to_owned()
}

/// The text written when the input stream ends: one newline.
pub fn newline() -> (r: String)
    ensures
        r@ == newline_text(),
{
    proof {
        reveal_strlit("\n");
    }
    "\n".to_owned()
}

/// Evaluates one line of input. No interpretation happens yet, so the line
/// comes back unchanged, terminator included.
pub fn eval(s: String) -> (r: String)
    ensures
        r@ == evaluated(s@),
        r@ == s@,
{
    s
}

/// Decides what follows a read: an empty line ends the loop normally, a
/// failed read ends it at once, any other line is evaluated and echoed.
pub fn step(state: ReplState, outcome: ReadOutcome) -> (r: (ReplState, Action))
    ensures
        step_result(state, outcome, r.0, r.1),
{
    match state {
        ReplState::Terminated => (ReplState::Terminated, Action::Halt),
        ReplState::Reading => match outcome {
            ReadOutcome::Fault => (ReplState::Terminated, Action::Abort),
            ReadOutcome::Data(s) => if s.as_str().is_empty() {
                (ReplState::Terminated, Action::Finish)
            } else {
                (ReplState::Reading, Action::Echo(eval(s)))
            },
        },
    }
}

/// Runs the loop against reads taken in order from `inputs`, with
/// end-of-stream once they run out, and returns the pieces of text written
/// and how the loop ended.
pub fn run_session(inputs: &Vec<ReadOutcome>) -> (r: (Vec<String>, Exit))
    ensures
        texts(r.0@) == session_pieces(inputs@),
        r.1 == session_exit(inputs@),
{
    let n = inputs.len();
    let mut out: Vec<String> = Vec::new();
    let mut state = ReplState::Reading;
    let mut i: usize = 0;
    assert(inputs@.subrange(0, n as int) =~= inputs@);
    assert(texts(out@) + session_pieces(inputs@) =~= session_pieces(inputs@));
    loop
        invariant
            i <= n,
            n == inputs@.len(),
            state == ReplState::Reading,
            texts(out@) + session_pieces(inputs@.subrange(i as int, n as int)) == session_pieces(inputs@),
            session_exit(inputs@.subrange(i as int, n as int)) == session_exit(inputs@),
        decreases n - i,
    {
        let ghost rest = inputs@.subrange(i as int, n as int);
        let ghost before = out@;
        out.push(prompt());
        assert(texts(out@) =~= texts(before).push(prompt_text()));
        let outcome = if i < n {
            match &inputs[i] {
                ReadOutcome::Data(s) => ReadOutcome::Data(s.clone()),
                ReadOutcome::Fault => ReadOutcome::Fault,
            }
        } else {
            ReadOutcome::Data(String::new())
        };
        let (next, action) = step(state, outcome);
        match action {
            Action::Echo(t) => {
                let ghost mid = out@;
                out.push(t);
                assert(rest.drop_first() =~= inputs@.subrange(i + 1, n as int));
                assert(texts(out@) =~= texts(mid).push(t@));
                assert(texts(out@) + session_pieces(rest.drop_first()) =~= texts(before)
                    + session_pieces(rest));
                state = next;
                i = i + 1;
            },
            Action::Finish => {
                let ghost mid = out@;
                out.push(newline());
                assert(texts(out@) =~= texts(mid).push(newline_text()));
                assert(texts(out@) =~= session_pieces(inputs@));
                return (out, Exit::Success);
            },
            Action::Abort => {
                assert(texts(out@) =~= session_pieces(inputs@));
                return (out, Exit::Failure);
            },
            Action::Halt => {
                return (out, Exit::Failure);
            },
        }
    }
}

/// The whole text written, the pieces one after another.
pub fn transcript(pieces: &Vec<String>) -> (r: String)
    ensures
        r@ == texts(pieces@).flatten(),
{
    let mut text = String::new();
    let mut i: usize = 0;
    while i < pieces.len()
        invariant
            i <= pieces@.len(),
            text@ == texts(pieces@.subrange(0, i as int)).flatten(),
        decreases pieces@.len() - i,
    {
        proof {
            texts(pieces@.subrange(0, i as int)).lemma_flatten_push(pieces@[i as int]@);
            assert(texts(pieces@.subrange(0, i + 1)) =~= texts(pieces@.subrange(0, i as int)).push(
                pieces@[i as int]@,
            ));
        }
        text.append(pieces[i].as_str());
        i = i + 1;
    }
    assert(pieces@.subrange(0, pieces@.len() as int) =~= pieces@);
    text
}

} // verus!
