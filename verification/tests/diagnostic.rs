use baton::diagnostic::{error_snippet, parser_error_report, semantic_error_report};
use baton::parser::ParserError;
use baton::scanner::Scanner;
use baton::semantic_analyzer::SemanticError;

const RED: &str = "\u{1b}[1;31m";
const RESET: &str = "\u{1b}[0m";

#[test]
fn readme_invalid_character_report() {
    let source = "int a = @10;";
    let err = Scanner::new(source).scan_source().unwrap_err();
    assert_eq!((err.line, err.column), (1, 10));
    let report = error_snippet(source, err.line, err.column, &err.message);
    let expected = format!(
        "{RED}[ERROR]{RESET}: Unexpected character: '@'\n  --> line 1:10\n   |\n  1 | int a = @10;\n   |          {RED}^{RESET}\n\n"
    );
    assert_eq!(report, expected);
    let lines: Vec<&str> = report.lines().collect();
    assert_eq!(lines[3].find('@'), lines[4].replace(RED, "").find('^'));
}

#[test]
fn snippet_without_source_line() {
    let report = error_snippet("int x;\n", 0, 0, "No valid file end was found");
    assert_eq!(report, format!("{RED}[ERROR]{RESET}: No valid file end was found\n  --> line 0:0\n\n"));
    let report = error_snippet("int x;\n", 2, 1, "m");
    assert_eq!(report, format!("{RED}[ERROR]{RESET}: m\n  --> line 2:1\n\n"));
}

#[test]
fn snippet_picks_the_line_as_str_lines_does() {
    let source = "first\r\nsecond\rx\n\nlast";
    for (n, text) in source.lines().enumerate() {
        let line = n + 1;
        let report = error_snippet(source, line, 1, "e");
        let expected = format!("{RED}[ERROR]{RESET}: e\n  --> line {}:1\n   |\n{:3} | {}\n   | {RED}^{RESET}\n\n", line, line, text);
        assert_eq!(report, expected);
    }
    let report = error_snippet(source, 5, 3, "e");
    assert_eq!(report, format!("{RED}[ERROR]{RESET}: e\n  --> line 5:3\n\n"));
}

#[test]
fn snippet_pads_line_numbers_to_three() {
    let source: String = (1..=120).map(|i| format!("l{}\n", i)).collect();
    for line in [7usize, 42, 120] {
        let report = error_snippet(&source, line, 4, "bad");
        let expected = format!(
            "{RED}[ERROR]{RESET}: bad\n  --> line {}:4\n   |\n{:3} | l{}\n   |    {RED}^{RESET}\n\n",
            line, line, line
        );
        assert_eq!(report, expected);
    }
}

#[test]
fn parser_failures_are_reported_as_main_reports_them() {
    let e = ParserError::UnexpectedToken {
        expected: "';'".to_string(),
        found: "Identifier(\"x\")".to_string(),
        line: 3,
        column: 7,
    };
    assert_eq!(parser_error_report(&e), (3, 7, "Expected \"';'\", but found \"Identifier(\\\"x\\\")\"".to_string()));
    assert_eq!(parser_error_report(&ParserError::UnexpectedEoF), (0, 0, "No valid file end was found".to_string()));
    let others = [
        ParserError::UnknownType("blob".to_string()),
        ParserError::NotImplemented("Global variable parsing not implemented".to_string()),
        ParserError::InvalidIntLiteral { raw: "99999".to_string(), line: 2, column: 5 },
        ParserError::InvalidFloatLiteral { raw: "1.2.3".to_string(), line: 4, column: 11 },
    ];
    for e in others {
        assert_eq!(parser_error_report(&e), (0, 0, format!("{:?}", e)));
    }
}

#[test]
fn semantic_failures_are_reported_as_main_reports_them() {
    let cases = vec![
        (SemanticError::Redefinition { message: "Function 'f' already exists".to_string(), line: 1, column: 2 }, "Function 'f' already exists"),
        (SemanticError::UndefinedVariable { name: "x".to_string(), line: 3, column: 4 }, "Undefined variable 'x'"),
        (SemanticError::UndefinedFunction { name: "g".to_string(), line: 5, column: 6 }, "Undefined function 'g'"),
        (SemanticError::UndefinedStruct { name: "P".to_string(), line: 7, column: 8 }, "Undefined struct 'P'"),
        (
            SemanticError::TypeMismatch {
                expected: "Int".to_string(),
                found: "Bool".to_string(),
                message: "Return type mismatch".to_string(),
                line: 9,
                column: 10,
            },
            "Return type mismatch",
        ),
        (SemanticError::InvalidReturnType { message: "bad".to_string(), line: 11, column: 12 }, "bad"),
        (
            SemanticError::NotAncillaryElement { name: "v".to_string(), expected: "function".to_string(), line: 13, column: 14 },
            "'v' is not a function",
        ),
        (SemanticError::NotImplemented { message: "later".to_string(), line: 15, column: 16 }, "later"),
    ];
    for (k, (e, msg)) in cases.into_iter().enumerate() {
        let (line, column, text) = semantic_error_report(&e);
        assert_eq!((line, column), (2 * k + 1, 2 * k + 2));
        assert_eq!(text, msg);
    }
}
