use step0_repl::repl::{
    eval, newline, prompt, run_session, step, transcript, Action, Exit, ReadOutcome, ReplState,
};

fn lines(texts: &[&str]) -> Vec<ReadOutcome> {
    texts.iter().map(|t| ReadOutcome::Data(t.to_string())).collect()
}

fn output_of(inputs: &[ReadOutcome]) -> (String, Exit) {
    let owned: Vec<ReadOutcome> = inputs
        .iter()
        .map(|o| match o {
            ReadOutcome::Data(s) => ReadOutcome::Data(s.clone()),
            ReadOutcome::Fault => ReadOutcome::Fault,
        })
        .collect();
    let (pieces, exit) = run_session(&owned);
    (transcript(&pieces), exit)
}

#[test]
fn closed_stream_writes_one_prompt_and_newline() {
    let (text, exit) = output_of(&[]);
    assert_eq!(text, "user> \n");
    assert_eq!(exit, Exit::Success);
}

#[test]
fn one_line_is_echoed_between_prompts() {
    let (text, exit) = output_of(&lines(&["hello\n"]));
    assert_eq!(text, "user> hello\nuser> \n");
    assert_eq!(exit, Exit::Success);
}

#[test]
fn lines_are_echoed_in_order() {
    let (pieces, exit) = run_session(&lines(&["a\n", "bc\n", "d"]));
    assert_eq!(pieces, vec!["user> ", "a\n", "user> ", "bc\n", "user> ", "d", "user> ", "\n"]);
    assert_eq!(exit, Exit::Success);
}

#[test]
fn n_lines_give_n_plus_one_prompts() {
    let (pieces, _) = run_session(&lines(&["one\n", "two\n", "three\n"]));
    assert_eq!(pieces.len(), 8);
    let prompts = pieces.iter().filter(|p| p.as_str() == "user> ").count();
    assert_eq!(prompts, 4);
    assert_eq!(pieces.last().map(|p| p.as_str()), Some("\n"));
    let (text, _) = output_of(&lines(&["one\n", "two\n", "three\n"]));
    assert_eq!(text, "user> one\nuser> two\nuser> three\nuser> \n");
}

#[test]
fn empty_read_ends_session_before_later_lines() {
    let (text, exit) = output_of(&lines(&["x\n", "", "never\n"]));
    assert_eq!(text, "user> x\nuser> \n");
    assert_eq!(exit, Exit::Success);
}

#[test]
fn fault_stops_without_further_output() {
    let mut inputs = lines(&["first\n"]);
    inputs.push(ReadOutcome::Fault);
    inputs.push(ReadOutcome::Data("after\n".to_string()));
    let (text, exit) = output_of(&inputs);
    assert_eq!(text, "user> first\nuser> ");
    assert_eq!(exit, Exit::Failure);
}

#[test]
fn fault_on_first_read() {
    let (text, exit) = output_of(&[ReadOutcome::Fault]);
    assert_eq!(text, "user> ");
    assert_eq!(exit, Exit::Failure);
}

#[test]
fn line_of_only_terminator_is_echoed() {
    let (text, _) = output_of(&lines(&["\n"]));
    assert_eq!(text, "user> \nuser> \n");
}

#[test]
fn eval_is_identity_and_idempotent() {
    let once = eval("(+ 1 2)\n".to_string());
    assert_eq!(once, "(+ 1 2)\n");
    let twice = eval(once.clone());
    assert_eq!(twice, once);
}

#[test]
fn step_echoes_line() {
    let (next, action) = step(ReplState::Reading, ReadOutcome::Data("hi\n".to_string()));
    assert_eq!(next, ReplState::Reading);
    assert!(matches!(action, Action::Echo(ref t) if t == "hi\n"));
}

#[test]
fn step_finishes_on_empty_read() {
    let (next, action) = step(ReplState::Reading, ReadOutcome::Data(String::new()));
    assert_eq!(next, ReplState::Terminated);
    assert!(matches!(action, Action::Finish));
}

#[test]
fn step_aborts_on_fault() {
    let (next, action) = step(ReplState::Reading, ReadOutcome::Fault);
    assert_eq!(next, ReplState::Terminated);
    assert!(matches!(action, Action::Abort));
}

#[test]
fn step_after_end_does_nothing() {
    let (next, action) = step(ReplState::Terminated, ReadOutcome::Data("late\n".to_string()));
    assert_eq!(next, ReplState::Terminated);
    assert!(matches!(action, Action::Halt));
}

#[test]
fn prompt_and_newline_texts() {
    assert_eq!(prompt(), "user> ");
    assert_eq!(newline(), "\n");
}

#[test]
fn transcript_joins_pieces() {
    let pieces = vec!["ab".to_string(), String::new(), "c\n".to_string()];
    assert_eq!(transcript(&pieces), "abc\n");
    assert_eq!(transcript(&Vec::new()), "");
}
