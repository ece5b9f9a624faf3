use jinme::environment::Environment;
use jinme::namespace::Namespace;
use jinme::reader::{read, ReadError};
use jinme::repl::{contains_unclosed_delimiter, is_blank, repl_should_quit, repl_step, PendingInput, ReplStep};
use jinme::value::Value;
use std::sync::Arc;

fn ensure_trailing_linefeed(s: &str) -> String {
    if s.ends_with('\n') {
        s.to_owned()
    } else {
        s.to_owned() + "\n"
    }
}

#[test]
fn multi_line_repl_input_is_gathered() {
    let mut pending = PendingInput::new_empty();
    let lines = vec!["(prn", ":hi)", "[:a :b]"];
    let mut complete = None;
    for line in lines {
        pending.push(ensure_trailing_linefeed(line).as_str());
        if contains_unclosed_delimiter(pending.accumulated_input()) {
            continue;
        }
        complete = Some(pending.accumulated_input().to_owned());
        pending.clear();
        break;
    }
    assert_eq!(complete, Some("(prn\n:hi)\n".to_string()));
    assert_eq!(pending.accumulated_input(), "");
}

#[test]
fn delimiters_are_counted_outside_strings() {
    assert!(contains_unclosed_delimiter("(a [b {c"));
    assert!(!contains_unclosed_delimiter("(a [b {c}])"));
    assert!(!contains_unclosed_delimiter("\"(\""));
    assert!(contains_unclosed_delimiter("(\"\\\")\""));
    assert!(!contains_unclosed_delimiter(")))"));
    assert!(!contains_unclosed_delimiter(""));
}

#[test]
fn multi_line_repl_input() {
    // arrange
    let mut pending = PendingInput::new_empty();

    let lines = vec!["(prn", ":hi)", "[:a :b]"];
    let mut lines = lines.iter();

    // act
    let mut rest_input = None;
    let mut value = None;
    while let Some(line) = lines.next() {
        pending.push(ensure_trailing_linefeed(line).as_str());
        if contains_unclosed_delimiter(line) {
            continue;
        }
        let accumulated_input = pending.accumulated_input().to_owned();
        let read_output = read(accumulated_input.as_str()).ok().expect("read error");
        let rest_input_1: String = accumulated_input.chars().skip(read_output.0).collect();
        value = read_output.1;
        pending.clear();
        pending.push(rest_input_1.as_str());
        rest_input = Some(rest_input_1);
        break;
    }

    // assert
    assert_eq!(pending.accumulated_input(), "\n");
    assert!(rest_input.is_some());
    assert!(!rest_input.unwrap().is_empty());
    assert!(value.is_some());
    let value = value.unwrap();
    assert!(value.is_list());
}

#[test]
fn repl_step_asks_for_more_while_a_delimiter_is_open() {
    let mut pending = PendingInput::new_empty();
    assert!(matches!(repl_step(&mut pending, "(+ 1\n"), ReplStep::Prompt));
    assert_eq!(pending.accumulated_input(), "(+ 1\n");
    match repl_step(&mut pending, "2)\n") {
        ReplStep::Eval(v) => assert_eq!(*v, *read("(+ 1 2)").unwrap().1.unwrap()),
        other => panic!("unexpected step: {:?}", other),
    }
    assert_eq!(pending.accumulated_input(), "\n");
    assert!(matches!(repl_step(&mut pending, "\n"), ReplStep::Prompt));
    assert_eq!(pending.accumulated_input(), "");
}

#[test]
fn repl_step_keeps_what_follows_the_first_form() {
    let mut pending = PendingInput::new_empty();
    match repl_step(&mut pending, "1 2\n") {
        ReplStep::Eval(v) => assert_eq!(*v, Value::integer(1)),
        other => panic!("unexpected step: {:?}", other),
    }
    assert_eq!(pending.accumulated_input(), " 2\n");
}

#[test]
fn repl_step_on_an_empty_line_only_prompts() {
    let mut pending = PendingInput::new_empty();
    pending.push("(a");
    assert!(matches!(repl_step(&mut pending, ""), ReplStep::Prompt));
    assert_eq!(pending.accumulated_input(), "(a");
}

#[test]
fn repl_step_drops_input_that_cannot_be_read() {
    let mut pending = PendingInput::new_empty();
    match repl_step(&mut pending, ")\n") {
        ReplStep::ReadFailed(ReadError::UnexpectedCloser(')')) => {}
        other => panic!("unexpected step: {:?}", other),
    }
    assert_eq!(pending.accumulated_input(), "");
}

#[test]
fn repl_step_on_a_comment_waits_without_prompting() {
    let mut pending = PendingInput::new_empty();
    assert!(matches!(repl_step(&mut pending, "; nothing here\n"), ReplStep::Idle));
    assert_eq!(pending.accumulated_input(), "");
}

#[test]
fn blank_text_is_only_whitespace() {
    assert!(is_blank(" \t\r\n\u{a0}\u{3000}"));
    assert!(is_blank(""));
    assert!(!is_blank(" , "));
    assert!(!is_blank("a"));
}

fn environment_with_quit(quit: Option<Value>) -> Environment {
    let mut builder = Environment::builder();
    builder.set_current_namespace_var("clojure.core", "*ns*");
    builder.insert_namespace(Arc::new(Namespace::new_empty("clojure.core")));
    let mut env = builder.build();
    env.create_namespace("jinme.repl");
    if let Some(v) = quit {
        let mut ns = (*env.get_namespace_or_panic("jinme.repl")).clone();
        ns.bind_value("quit?", v);
        env.insert_namespace(Arc::new(ns));
    }
    env
}

#[test]
fn repl_quits_only_when_asked() {
    assert!(!repl_should_quit(&environment_with_quit(None)));
    assert!(!repl_should_quit(&environment_with_quit(Some(Value::boolean(false)))));
    assert!(!repl_should_quit(&environment_with_quit(Some(Value::integer(1)))));
    assert!(repl_should_quit(&environment_with_quit(Some(Value::boolean(true)))));
}
