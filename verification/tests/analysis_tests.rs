use lsp_backend::analysis::{
    analyze, lexer_error, source_label, token_error, DiagnosticSeverity, FrontEndError,
    StageEvent, Step,
};
use lsp_backend::position::{Position, Token};
use lsp_backend::uri::{document_key, document_label};
use tower_lsp::lsp_types::Url;

fn failure(line: usize, column: usize, value: &str, message: Option<&str>) -> FrontEndError {
    FrontEndError {
        token: Token { line, column, value: value.to_string() },
        kind: "UnexpectedToken".to_string(),
        message: message.map(|m| m.to_string()),
    }
}

#[test]
fn the_lexer_passing_leads_to_the_parser() {
    let step = analyze("x = 1", "a.ant", &StageEvent::Lexed { failed: false });
    assert!(matches!(step, Step::Parse));
}

#[test]
fn the_parser_passing_leads_to_the_checker() {
    let step = analyze("x = 1", "a.ant", &StageEvent::Parsed(None));
    assert!(matches!(step, Step::Check));
}

#[test]
fn the_checker_passing_ends_the_pass_clean() {
    let step = analyze("x = 1", "a.ant", &StageEvent::Checked(None));
    assert!(matches!(step, Step::Finish(Ok(()))));
}

#[test]
fn a_lexical_error_marks_the_document_start() {
    let step = analyze("x = $", "/tmp/a.ant", &StageEvent::Lexed { failed: true });
    match step {
        Step::Finish(Err(d)) => {
            assert_eq!(d.range.start, Position { line: 0, character: 0 });
            assert_eq!(d.range.end, Position { line: 0, character: 0 });
            assert_eq!(d.severity, Some(DiagnosticSeverity::Error));
            assert_eq!(d.message, "lexer error");
            assert_eq!(d.source, Some("/tmp/a.ant".to_string()));
        }
        _ => panic!("a lexical error ends the pass"),
    }
}

#[test]
fn lexer_error_names_the_label() {
    let d = lexer_error("untitled:1");
    assert_eq!(d.message, "lexer error");
    assert_eq!(d.source, Some("untitled:1".to_string()));
    assert_eq!(d.severity, Some(DiagnosticSeverity::Error));
}

#[test]
fn a_dangling_operator_gives_one_diagnostic_on_the_second_line() {
    let text = "x = 1\ny = x +";
    let event = StageEvent::Parsed(Some(failure(2, 7, "+", Some("expected an expression"))));
    match analyze(text, "/tmp/a.ant", &event) {
        Step::Finish(Err(d)) => {
            assert_eq!(d.severity, Some(DiagnosticSeverity::Error));
            assert_eq!(d.range.start, Position { line: 1, character: 6 });
            assert_eq!(d.range.end, Position { line: 1, character: 7 });
            assert_eq!(d.message, "expected an expression");
            assert_eq!(d.source, Some("/tmp/a.ant".to_string()));
        }
        _ => panic!("a parse error ends the pass"),
    }
}

#[test]
fn a_type_error_spans_its_token_in_utf16_columns() {
    let text = "a = 1\n\u{1F600}\u{53d8} = a + name";
    let event = StageEvent::Checked(Some(failure(2, 10, "name", None)));
    match analyze(text, "b.ant", &event) {
        Step::Finish(Err(d)) => {
            assert_eq!(d.range.start, Position { line: 1, character: 10 });
            assert_eq!(d.range.end, Position { line: 1, character: 14 });
            assert_eq!(d.message, "UnexpectedToken");
            assert_eq!(d.source, Some("b.ant".to_string()));
        }
        _ => panic!("a type error ends the pass"),
    }
}

#[test]
fn token_error_prefers_the_message_to_the_kind() {
    let with = token_error("ab", "f", &failure(1, 1, "ab", Some("no such name")));
    assert_eq!(with.message, "no such name");
    let without = token_error("ab", "f", &failure(1, 1, "ab", None));
    assert_eq!(without.message, "UnexpectedToken");
    assert_eq!(without.range.start, Position { line: 0, character: 0 });
    assert_eq!(without.range.end, Position { line: 0, character: 2 });
}

#[test]
fn the_same_report_gives_the_same_diagnostic() {
    let text = "x = 1\ny = x +";
    let event = StageEvent::Parsed(Some(failure(2, 7, "+", None)));
    let first = analyze(text, "a.ant", &event);
    let second = analyze(text, "a.ant", &event);
    match (first, second) {
        (Step::Finish(Err(a)), Step::Finish(Err(b))) => {
            assert_eq!(a.range, b.range);
            assert_eq!(a.severity, b.severity);
            assert_eq!(a.message, b.message);
            assert_eq!(a.source, b.source);
        }
        _ => panic!("both passes end with a diagnostic"),
    }
}

#[test]
fn source_label_prefers_the_path() {
    assert_eq!(source_label(Some("/tmp/a.ant".to_string()), "file:///tmp/a.ant"), "/tmp/a.ant");
    assert_eq!(source_label(None, "untitled:Untitled-1"), "untitled:Untitled-1");
}

#[test]
fn document_label_of_a_file_is_its_path() {
    let uri = Url::parse("file:///tmp/a.ant").unwrap();
    assert_eq!(document_label(&uri), "/tmp/a.ant");
    assert_eq!(document_key(&uri), "file:///tmp/a.ant");
}

#[test]
fn document_label_without_a_path_is_the_uri() {
    let uri = Url::parse("untitled:Untitled-1").unwrap();
    assert_eq!(document_label(&uri), "untitled:Untitled-1");
    assert_eq!(document_key(&uri), "untitled:Untitled-1");
}

#[test]
fn one_uri_gives_one_key_and_one_label() {
    let uri = Url::parse("file:///home/me/main.ant").unwrap();
    let again = Url::parse("file:///home/me/main.ant").unwrap();
    assert_eq!(document_key(&uri), document_key(&again));
    assert_eq!(document_label(&uri), document_label(&again));
    let other = Url::parse("file:///home/me/other.ant").unwrap();
    assert_ne!(document_key(&uri), document_key(&other));
    assert_eq!(document_label(&other), "/home/me/other.ant");
}

#[test]
fn a_token_diagnostic_is_as_wide_as_its_token() {
    let text = "x = 1\ny = x +";
    let err = FrontEndError {
        token: Token { line: 2, column: 7, value: "+".to_string() },
        kind: "UnexpectedToken".to_string(),
        message: None,
    };
    let d = token_error(text, "a.ant", &err);
    assert_eq!(d.range.start.line, 1);
    assert_eq!(d.range.end.line, 1);
    assert_eq!(d.range.end.character - d.range.start.character, 1);
    assert_eq!(d.severity, Some(DiagnosticSeverity::Error));
}
