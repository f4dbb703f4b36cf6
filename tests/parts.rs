use eelco::error::AppError;
use eelco::example::{Example, ExampleId, ExpressionExample};
use eelco::line::{PtyLine, PtyLineError};
use eelco::session::{echo_verdict, prompt_verdict, result_verdict};
use eelco::state::State;
use eelco::table::{ExampleState, ExamplesState, ExpressionExampleState};
use eelco::text::{has_suffix, remove_cr, same_bytes, sanitize, push_decimal};

fn id(path: &str, line: usize) -> ExampleId {
    ExampleId::new(path.to_string(), line)
}

#[test]
fn insert_then_remove_each_leaves_table_empty() {
    let mut table = ExamplesState::new();
    for line in [3, 1, 2] {
        let state = ExampleState::Expression(ExpressionExampleState::Pending);
        assert!(table.insert(id("t.md", line), state).is_ok());
    }
    assert!(!table.is_empty());
    for line in [2, 3, 1] {
        assert!(table.remove(&id("t.md", line)).is_ok());
    }
    assert!(table.is_empty());
    assert!(matches!(table.remove(&id("t.md", 1)), Err(AppError::NotFound(_))));
}

#[test]
fn second_insert_is_a_duplicate() {
    let mut table = ExamplesState::new();
    let s = || ExampleState::Expression(ExpressionExampleState::Pending);
    assert!(table.insert(id("t.md", 1), s()).is_ok());
    assert!(matches!(table.insert(id("t.md", 1), s()), Err(AppError::DuplicateId(i)) if i.line == 1));
    assert!(table.insert(id("u.md", 1), s()).is_ok());
}

#[test]
fn get_mut_changes_in_place() {
    let mut table = ExamplesState::new();
    table.insert(id("t.md", 1), ExampleState::Expression(ExpressionExampleState::Pending)).ok();
    *table.get_mut_expression(&id("t.md", 1)).ok().unwrap() = ExpressionExampleState::Spawned;
    assert!(matches!(table.get_mut(&id("t.md", 1)), Ok(ExampleState::Expression(ExpressionExampleState::Spawned))));
    assert!(matches!(table.get_mut_repl(&id("t.md", 1)), Err(AppError::NotRepl(_))));
}

#[test]
fn stripping_twice_changes_nothing() {
    let styled = b"\x1b[1m\x1b[35mnix-repl>\x1b[0m 1\r\n";
    let once = sanitize(styled).unwrap();
    assert_eq!(once, b"nix-repl> 1\n");
    let twice = sanitize(&once).unwrap();
    assert_eq!(twice, once);
    assert_eq!(sanitize(styled).unwrap(), once);
}

#[test]
fn sanitize_keeps_plain_text() {
    assert_eq!(sanitize(b"{ a = 1; }").unwrap(), b"{ a = 1; }");
    assert_eq!(sanitize(b"").unwrap(), b"");
}

#[test]
fn carriage_returns_are_removed() {
    assert_eq!(remove_cr(b"a\r\nb\r"), b"a\nb");
}

#[test]
fn byte_helpers() {
    assert!(has_suffix(b"abc nix-repl> ", b"nix-repl> "));
    assert!(!has_suffix(b"repl> ", b"nix-repl> "));
    assert!(same_bytes(b"ab", b"ab"));
    assert!(!same_bytes(b"ab", b"ac"));
    let mut out = b"n=".to_vec();
    push_decimal(&mut out, 1207);
    assert_eq!(out, b"n=1207");
    let mut zero = Vec::new();
    push_decimal(&mut zero, 0);
    assert_eq!(zero, b"0");
}

#[test]
fn pass_line_names_file_and_line() {
    assert_eq!(State::fmt_pass(&id("docs/intro.md", 42)), b"PASS: docs/intro.md:42");
    assert_eq!(id("é.md", 9).to_text(), "é.md:9".as_bytes());
}

#[test]
fn example_id_of_either_kind() {
    let e = Example::Expression(ExpressionExample { id: id("x.md", 8), expression: "1".to_string() });
    assert_eq!(e.id().line, 8);
    assert!(id("x.md", 8).same(&id("x.md", 8)));
    assert!(!id("x.md", 8).same(&id("x.md", 9)));
    let d = id("y.md", 2).duplicate();
    assert_eq!((d.path.as_str(), d.line), ("y.md", 2));
}

#[test]
fn error_copies_match() {
    let e = AppError::EchoMismatch { actual: b"dope\r\n".to_vec(), expected: "nope\n".to_string() };
    assert!(matches!(e.duplicate(), AppError::EchoMismatch { actual, expected } if actual == b"dope\r\n" && expected == "nope\n"));
}

#[test]
fn pty_lines() {
    assert!(matches!(PtyLine::from_str("nix-repl> nope\n"), Ok(PtyLine(s)) if s == "nix-repl> nope\n"));
    assert!(matches!(PtyLine::from_str("no end"), Err(PtyLineError::NoTrailingLf)));
    assert!(matches!(PtyLine::from_str("a\nb"), Err(PtyLineError::LfBeforeEnd)));
    assert!(matches!(PtyLine::from_str("a\n\n"), Err(PtyLineError::LfBeforeEnd)));
    assert!(PtyLine::from_str("").is_ok());
}

#[test]
fn echo_of_other_query_is_a_mismatch() {
    let line = b"dope\r\n".to_vec();
    let stripped = sanitize(&line).unwrap();
    assert_eq!(stripped, b"dope\n");
    let r = echo_verdict(line, b"dope\r\n".to_vec(), "nope\n".to_string());
    assert!(matches!(r, Err(AppError::EchoMismatch { actual, expected })
        if actual == b"dope\r\n" && expected == "nope\n"));
}

#[test]
fn verdicts_on_a_passing_cycle() {
    assert!(matches!(prompt_verdict(b"Welcome\n\nnix-repl> ".to_vec()), Ok(true)));
    assert!(matches!(prompt_verdict(b"nix-repl>".to_vec()), Ok(false)));
    assert!(matches!(prompt_verdict(vec![0xff, 0xfe]), Err(AppError::InvalidText(_))));
    assert!(echo_verdict(b"1 + 1\r\n".to_vec(), b"1 + 1\r\n".to_vec(), "1 + 1\n".to_string()).is_ok());
    assert!(result_verdict(b"2".to_vec(), "2".to_string(), &id("v.md", 1)).is_ok());
    let r = result_verdict(b"3\r".to_vec(), "2".to_string(), &id("v.md", 1));
    assert!(matches!(r, Err(AppError::ResultMismatch { actual, .. }) if actual == b"3"));
    assert!(matches!(
        echo_verdict(Vec::new(), vec![0xc0, 0x80], "x".to_string()),
        Err(AppError::InvalidText(_))
    ));
}
