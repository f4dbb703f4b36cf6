use eelco::error::AppError;
use eelco::events::{
    ExpressionEvent, ExpressionOutput, InputEvent, OutputEvent, ReplCommand, ReplEvent,
};
use eelco::example::{Example, ExampleId, ExpressionExample, ReplEntry, ReplExample};
use eelco::state::State;

fn id(path: &str, line: usize) -> ExampleId {
    ExampleId::new(path.to_string(), line)
}

fn repl(path: &str, line: usize, entries: &[(&str, Option<&str>)]) -> Example {
    Example::Repl(ReplExample {
        id: id(path, line),
        entries: entries
            .iter()
            .map(|(q, r)| ReplEntry {
                query: q.to_string(),
                expected_result: r.map(|r| r.to_string()),
            })
            .collect(),
    })
}

fn feed(state: &mut State, path: &str, line: usize, bytes: &[u8]) -> Vec<Vec<OutputEvent>> {
    bytes
        .iter()
        .map(|b| state.event(InputEvent::ReplEvent(ReplEvent::Read(id(path, line), Ok(*b)))))
        .collect()
}

fn all_empty(outs: &[Vec<OutputEvent>]) -> bool {
    outs.iter().all(|o| o.is_empty())
}

fn is_query(o: &[OutputEvent], text: &str) -> bool {
    matches!(o, [OutputEvent::ReplCommand(ReplCommand::Query(_, q))] if q == text)
}

fn is_done_ok(o: &[OutputEvent]) -> bool {
    matches!(o, [OutputEvent::Done(Ok(()))])
}

const BANNER: &[u8] = b"Welcome to Nix 2.18\r\nType :? for help.\r\n\r\n\x1b[1mnix-repl>\x1b[0m ";

#[test]
fn interactive_example_passes() {
    let mut state = State::new();
    let out = state.event(InputEvent::Example(repl("doc.md", 3, &[("1 + 1\n", Some("2"))])));
    assert!(matches!(&out[..], [OutputEvent::ReplCommand(ReplCommand::Spawn(i))] if i.path == "doc.md" && i.line == 3));
    let out = state.event(InputEvent::ReplEvent(ReplEvent::Spawn(Ok(id("doc.md", 3)))));
    assert!(out.is_empty());
    let outs = feed(&mut state, "doc.md", 3, BANNER);
    assert!(all_empty(&outs[..outs.len() - 1]));
    assert!(is_query(outs.last().unwrap(), "1 + 1\n"));
    assert!(all_empty(&feed(&mut state, "doc.md", 3, b"1 + 1\r\n")));
    assert!(all_empty(&feed(&mut state, "doc.md", 3, b"\x1b[35;1m2\x1b[0m\r\n\r\n")));
    let outs = feed(&mut state, "doc.md", 3, b"nix-repl> ");
    assert!(all_empty(&outs[..outs.len() - 1]));
    let last = outs.last().unwrap();
    assert_eq!(last.len(), 2);
    assert!(matches!(&last[0], OutputEvent::ReplCommand(ReplCommand::Kill(i)) if i.line == 3));
    assert!(matches!(&last[1], OutputEvent::Eprintln(l) if l == b"PASS: doc.md:3"));
    let out = state.event(InputEvent::ReplEvent(ReplEvent::Kill(Ok(id("doc.md", 3)))));
    assert!(out.is_empty());
    assert!(state.examples.is_empty());
    let out = state.event(InputEvent::Eprintlned);
    assert!(is_done_ok(&out));
}

#[test]
fn n_entries_run_n_cycles() {
    let mut state = State::new();
    state.event(InputEvent::Example(repl(
        "a.md",
        1,
        &[("1\n", Some("1")), ("\"x\"\n", Some("\"x\"")), ("{ }\n", Some("{ }"))],
    )));
    state.event(InputEvent::ReplEvent(ReplEvent::Spawn(Ok(id("a.md", 1)))));
    let mut queries = 0;
    let mut kills = 0;
    let mut lines = 0;
    let mut stream: Vec<u8> = BANNER.to_vec();
    for (q, r) in [("1\n", "1"), ("\"x\"\n", "\"x\""), ("{ }\n", "{ }")] {
        stream.extend_from_slice(q.trim_end().as_bytes());
        stream.extend_from_slice(b"\r\n");
        stream.extend_from_slice(r.as_bytes());
        stream.extend_from_slice(b"\r\n\r\nnix-repl> ");
    }
    for out in feed(&mut state, "a.md", 1, &stream) {
        for o in out {
            match o {
                OutputEvent::ReplCommand(ReplCommand::Query(..)) => queries += 1,
                OutputEvent::ReplCommand(ReplCommand::Kill(..)) => kills += 1,
                OutputEvent::Eprintln(_) => lines += 1,
                _ => panic!("unexpected command"),
            }
        }
    }
    assert_eq!((queries, kills, lines), (3, 1, 1));
    assert_eq!(state.pending_eprintlns, 1);
}

#[test]
fn entry_without_result_goes_back_to_prompt() {
    let mut state = State::new();
    state.event(InputEvent::Example(repl("b.md", 2, &[("x = 1\n", None), ("x\n", Some("1"))])));
    state.event(InputEvent::ReplEvent(ReplEvent::Spawn(Ok(id("b.md", 2)))));
    feed(&mut state, "b.md", 2, b"nix-repl> ");
    let outs = feed(&mut state, "b.md", 2, b"x = 1\r\nnix-repl> ");
    assert!(is_query(outs.last().unwrap(), "x\n"));
}

#[test]
fn echo_mismatch_is_fatal() {
    let mut state = State::new();
    state.event(InputEvent::Example(repl("c.md", 1, &[("nope\n", Some("1"))])));
    state.event(InputEvent::ReplEvent(ReplEvent::Spawn(Ok(id("c.md", 1)))));
    feed(&mut state, "c.md", 1, b"nix-repl> ");
    let outs = feed(&mut state, "c.md", 1, b"dope\r\n");
    let last = outs.last().unwrap();
    assert!(matches!(&last[..], [OutputEvent::Done(Err(AppError::EchoMismatch { actual, expected }))]
        if actual == b"dope\r\n" && expected == "nope\n"));
    assert_eq!(state.pending_eprintlns, 0);
    assert!(outs.iter().flatten().all(|o| !matches!(o, OutputEvent::Eprintln(_))));
}

#[test]
fn result_mismatch_is_fatal() {
    let mut state = State::new();
    state.event(InputEvent::Example(repl("d.md", 7, &[("1 + 1\n", Some("2"))])));
    state.event(InputEvent::ReplEvent(ReplEvent::Spawn(Ok(id("d.md", 7)))));
    feed(&mut state, "d.md", 7, b"nix-repl> 1 + 1\r\n");
    let outs = feed(&mut state, "d.md", 7, b"3\r\n\r\n");
    assert!(matches!(&outs.last().unwrap()[..], [OutputEvent::Done(Err(AppError::ResultMismatch { id, actual, expected }))]
        if id.line == 7 && actual == b"3" && expected == "2"));
}

#[test]
fn single_character_changes_never_pass() {
    for (echo, result) in [("1 + 2\r\n", "2"), ("1 - 1\r\n", "2"), ("1 + 1\r\n", "4"), ("1 + 1\r\n", "22")] {
        let mut state = State::new();
        state.event(InputEvent::Example(repl("e.md", 1, &[("1 + 1\n", Some("2"))])));
        state.event(InputEvent::ReplEvent(ReplEvent::Spawn(Ok(id("e.md", 1)))));
        let mut stream = b"nix-repl> ".to_vec();
        stream.extend_from_slice(echo.as_bytes());
        stream.extend_from_slice(result.as_bytes());
        stream.extend_from_slice(b"\r\n\r\nnix-repl> ");
        let mut outs = Vec::new();
        for b in stream {
            outs.push(state.event(InputEvent::ReplEvent(ReplEvent::Read(id("e.md", 1), Ok(b)))));
            if state.error.is_some() {
                break;
            }
        }
        assert!(state.error.is_some());
        assert!(outs.iter().flatten().all(|o| !matches!(o, OutputEvent::Eprintln(_))));
        assert!(matches!(
            state.error,
            Some(AppError::EchoMismatch { .. }) | Some(AppError::ResultMismatch { .. })
        ));
    }
}

#[test]
fn byte_before_prompt_request_is_unexpected() {
    let mut state = State::new();
    state.event(InputEvent::Example(repl("f.md", 1, &[("1\n", None)])));
    state.event(InputEvent::ReplEvent(ReplEvent::Spawn(Ok(id("f.md", 1)))));
    feed(&mut state, "f.md", 1, b"nix-repl> ");
    let mut live = state.examples.get_mut_repl(&id("f.md", 1)).ok().unwrap();
    if let eelco::session::ReplSessionState::Live(l) = &mut live.state {
        l.expecting = eelco::session::ReplSessionExpecting::Nothing;
    }
    let out = state.event(InputEvent::ReplEvent(ReplEvent::Read(id("f.md", 1), Ok(b'x'))));
    assert!(matches!(&out[..], [OutputEvent::Done(Err(AppError::UnexpectedOutput(b'x')))]));
}

#[test]
fn evaluation_failure_carries_stderr() {
    let mut state = State::new();
    let ex = Example::Expression(ExpressionExample {
        id: id("g.md", 1),
        expression: "assert false; null".to_string(),
    });
    let out = state.event(InputEvent::Example(ex));
    assert!(matches!(&out[..], [OutputEvent::ExpressionCommand(e)] if e.expression == "assert false; null"));
    let out = state.event(InputEvent::ExpressionEvent(ExpressionEvent::Spawn(Ok(id("g.md", 1)))));
    assert!(out.is_empty());
    let out = state.event(InputEvent::ExpressionEvent(ExpressionEvent::Output(Ok((
        id("g.md", 1),
        ExpressionOutput { success: false, stderr: b"assert false; null".to_vec() },
    )))));
    assert!(matches!(&out[..], [OutputEvent::Done(Err(AppError::EvaluationFailed { id, stderr }))]
        if id.line == 1 && stderr == b"assert false; null"));
    assert!(state.examples.is_empty());
}

#[test]
fn two_evaluations_pass() {
    let mut state = State::new();
    for line in [1, 5] {
        state.event(InputEvent::Example(Example::Expression(ExpressionExample {
            id: id("h.md", line),
            expression: "null".to_string(),
        })));
        state.event(InputEvent::ExpressionEvent(ExpressionEvent::Spawn(Ok(id("h.md", line)))));
    }
    let ok = |line| (id("h.md", line), ExpressionOutput { success: true, stderr: Vec::new() });
    let out = state.event(InputEvent::ExpressionEvent(ExpressionEvent::Output(Ok(ok(1)))));
    assert!(matches!(&out[..], [OutputEvent::Eprintln(l)] if l == b"PASS: h.md:1"));
    let out = state.event(InputEvent::ExpressionEvent(ExpressionEvent::Output(Ok(ok(5)))));
    assert!(matches!(&out[..], [OutputEvent::Eprintln(l)] if l == b"PASS: h.md:5"));
    assert!(state.event(InputEvent::Eprintlned).is_empty());
    assert!(is_done_ok(&state.event(InputEvent::Eprintlned)));
}

#[test]
fn pending_line_holds_back_failure() {
    let mut state = State::new();
    for line in [1, 2] {
        state.event(InputEvent::Example(Example::Expression(ExpressionExample {
            id: id("i.md", line),
            expression: "null".to_string(),
        })));
    }
    let out = state.event(InputEvent::ExpressionEvent(ExpressionEvent::Output(Ok((
        id("i.md", 1),
        ExpressionOutput { success: true, stderr: Vec::new() },
    )))));
    assert_eq!(out.len(), 1);
    let out = state.event(InputEvent::ExpressionEvent(ExpressionEvent::Output(Ok((
        id("i.md", 2),
        ExpressionOutput { success: false, stderr: b"boom".to_vec() },
    )))));
    assert!(out.is_empty());
    let out = state.event(InputEvent::Eprintlned);
    assert!(matches!(&out[..], [OutputEvent::Done(Err(AppError::EvaluationFailed { .. }))]));
}

#[test]
fn first_error_stays_once_recorded() {
    let mut state = State::new();
    state.event(InputEvent::Example(Example::Expression(ExpressionExample {
        id: id("j.md", 1),
        expression: "null".to_string(),
    })));
    state.event(InputEvent::Example(Example::Expression(ExpressionExample {
        id: id("j.md", 2),
        expression: "null".to_string(),
    })));
    state.event(InputEvent::ExpressionEvent(ExpressionEvent::Output(Ok((
        id("j.md", 1),
        ExpressionOutput { success: true, stderr: Vec::new() },
    )))));
    state.event(InputEvent::ReplEvent(ReplEvent::Spawn(Err("no pty".to_string()))));
    state.event(InputEvent::ExpressionEvent(ExpressionEvent::Spawn(Err("no fork".to_string()))));
    let out = state.event(InputEvent::Eprintlned);
    assert!(matches!(&out[..], [OutputEvent::Done(Err(AppError::Upstream(m)))] if m == "no pty"));
}

#[test]
fn no_decision_after_an_error() {
    let mut state = State::new();
    state.event(InputEvent::Example(Example::Expression(ExpressionExample {
        id: id("n.md", 1),
        expression: "null".to_string(),
    })));
    state.event(InputEvent::Example(repl("n.md", 5, &[("1\n", Some("1"))])));
    state.event(InputEvent::ExpressionEvent(ExpressionEvent::Output(Ok((
        id("n.md", 1),
        ExpressionOutput { success: true, stderr: Vec::new() },
    )))));
    state.event(InputEvent::ReplEvent(ReplEvent::Spawn(Err("no pty".to_string()))));
    let out = state.event(InputEvent::Example(repl("n.md", 9, &[])));
    assert!(out.is_empty());
    assert!(!state.examples.is_empty());
    let out = state.event(InputEvent::ReplEvent(ReplEvent::Spawn(Ok(id("n.md", 5)))));
    assert!(out.is_empty());
    let outs = feed(&mut state, "n.md", 5, b"nix-repl> ");
    assert!(all_empty(&outs));
    let out = state.event(InputEvent::Eprintlned);
    assert!(matches!(&out[..], [OutputEvent::Done(Err(AppError::Upstream(m)))] if m == "no pty"));
}

#[test]
fn spawn_report_while_killing_is_refused() {
    let mut state = State::new();
    state.event(InputEvent::Example(repl("o.md", 1, &[])));
    state.event(InputEvent::ReplEvent(ReplEvent::Spawn(Ok(id("o.md", 1)))));
    let outs = feed(&mut state, "o.md", 1, b"nix-repl> ");
    assert_eq!(outs.last().unwrap().len(), 2);
    let r = state.repl_event_spawn(Ok(id("o.md", 1)));
    assert!(matches!(r, Err(AppError::UnexpectedSpawn(i)) if i.line == 1));
    assert!(matches!(
        state.examples.get_mut_repl(&id("o.md", 1)),
        Ok(s) if matches!(s.state, eelco::session::ReplSessionState::Killing)
    ));
}

#[test]
fn empty_state_is_accepted() {
    let state = State::new();
    assert!(state.examples.is_empty());
    assert_eq!(state.pending_eprintlns, 0);
    assert!(state.error.is_none());
}

#[test]
fn unmatched_acknowledgement_underflows() {
    let mut state = State::new();
    let out = state.event(InputEvent::Eprintlned);
    assert!(matches!(&out[..], [OutputEvent::Done(Err(AppError::CounterUnderflow))]));
}

#[test]
fn duplicate_example_is_refused() {
    let mut state = State::new();
    state.event(InputEvent::Example(repl("k.md", 1, &[])));
    let out = state.event(InputEvent::Example(repl("k.md", 1, &[])));
    assert!(matches!(&out[..], [OutputEvent::Done(Err(AppError::DuplicateId(i)))] if i.line == 1));
}

#[test]
fn lookups_report_their_errors() {
    let mut state = State::new();
    let out = state.repl_event_kill(Ok(id("l.md", 1)));
    assert!(matches!(out, Err(AppError::NotFound(_))));
    state.event(InputEvent::Example(Example::Expression(ExpressionExample {
        id: id("l.md", 2),
        expression: "null".to_string(),
    })));
    assert!(matches!(state.repl_event_spawn(Ok(id("l.md", 2))), Err(AppError::NotRepl(_))));
    state.event(InputEvent::ExpressionEvent(ExpressionEvent::Spawn(Ok(id("l.md", 2)))));
    assert!(matches!(state.expression_event_spawn(Ok(id("l.md", 2))), Err(AppError::AlreadySpawned(_))));
    state.event(InputEvent::Example(repl("l.md", 3, &[])));
    assert!(matches!(state.expression_event_spawn(Ok(id("l.md", 3))), Err(AppError::NotExpression(_))));
    assert!(matches!(state.repl_event_read(id("l.md", 3), Ok(b'a')), Err(AppError::NotLive(_))));
    assert!(state.repl_event_spawn(Ok(id("l.md", 3))).is_ok());
    assert!(matches!(state.repl_event_spawn(Ok(id("l.md", 3))), Err(AppError::UnexpectedSpawn(_))));
    assert!(matches!(state.repl_event_read(id("l.md", 3), Err("eof".to_string())), Err(AppError::Upstream(_))));
    assert!(matches!(
        state.repl_event_query(id("l.md", 3), "1\n".to_string(), Err("closed".to_string())),
        Err(AppError::Upstream(m)) if m == "closed"
    ));
}

#[test]
fn script_of_nothing_finishes_at_first_prompt() {
    let mut state = State::new();
    state.event(InputEvent::Example(repl("m.md", 4, &[])));
    state.event(InputEvent::ReplEvent(ReplEvent::Spawn(Ok(id("m.md", 4)))));
    let outs = feed(&mut state, "m.md", 4, b"nix-repl> ");
    assert!(matches!(&outs.last().unwrap()[1], OutputEvent::Eprintln(l) if l == b"PASS: m.md:4"));
}
