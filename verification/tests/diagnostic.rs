use svls::diagnostic::{
    report, translate, Diagnostic, Location, Position, Range, RawFailure, Severity,
};

fn violation(path: &str, begin: usize, length: usize, name: &str, hint: &str) -> RawFailure {
    RawFailure::RuleViolation {
        path: String::from(path),
        begin,
        length,
        name: String::from(name),
        hint: String::from(hint),
    }
}

fn syntax_error(path: &str, offset: usize) -> RawFailure {
    RawFailure::ParseFailure { location: Some(Location { path: String::from(path), offset }) }
}

fn span(line: usize, from: usize, to: usize) -> Range {
    Range {
        start: Position { line, character: from },
        end: Position { line, character: to },
    }
}

#[test]
fn rule_violation_becomes_warning() {
    let text = "module a;\nlogic b;\n\n  ab always_comb begin end\nendmodule\n";
    let begin = text.find("alwa").unwrap();
    let found = report(text, &vec![violation("", begin, 4, "always_comb", "use always_comb")]);
    assert_eq!(
        found,
        vec![Diagnostic {
            range: span(3, 5, 9),
            severity: Severity::Warning,
            code: Some(String::from("always_comb")),
            source: String::from("analysis-service"),
            message: String::from("use always_comb"),
        }]
    );
}

#[test]
fn syntax_error_spans_to_end_of_line() {
    let text = "module a;\nwire wire;\nendmodule\n";
    let found = translate(text, &syntax_error("", 15));
    assert_eq!(
        found,
        Some(Diagnostic {
            range: span(1, 5, 10),
            severity: Severity::Error,
            code: None,
            source: String::from("analysis-service"),
            message: String::from("parse error"),
        })
    );
}

#[test]
fn syntax_error_on_last_line_spans_to_end_of_text() {
    let found = translate("module foo(", &syntax_error("", 10)).unwrap();
    assert_eq!(found.range, span(0, 10, 11));
    let found = translate("module foo(", &syntax_error("", 11)).unwrap();
    assert_eq!(found.range, span(0, 11, 11));
}

#[test]
fn syntax_error_at_a_line_break_is_empty_span() {
    let found = translate("ab\ncd", &syntax_error("", 2)).unwrap();
    assert_eq!(found.range, span(0, 2, 2));
}

#[test]
fn syntax_error_without_location_is_dropped() {
    assert_eq!(translate("abc", &RawFailure::ParseFailure { location: None }), None);
}

#[test]
fn failures_of_included_files_are_dropped() {
    let text = "`include \"x.svh\"\nmodule a;\nendmodule\n";
    assert_eq!(translate(text, &violation("inc/x.svh", 3, 2, "r", "h")), None);
    assert_eq!(translate(text, &syntax_error("inc/x.svh", 3)), None);
    let found = report(
        text,
        &vec![
            violation("inc/x.svh", 0, 1, "first", "h1"),
            violation("", 17, 6, "second", "h2"),
            violation("/abs/y.svh", 2, 1, "third", "h3"),
            violation("", 27, 9, "fourth", "h4"),
        ],
    );
    assert_eq!(found.len(), 2);
    assert_eq!(found[0].code, Some(String::from("second")));
    assert_eq!(found[0].range, span(1, 0, 6));
    assert_eq!(found[1].code, Some(String::from("fourth")));
    assert_eq!(found[1].range, span(2, 0, 9));
}

#[test]
fn report_of_nothing_is_empty() {
    assert_eq!(report("module a; endmodule", &Vec::new()), Vec::new());
    assert_eq!(report("", &vec![violation("other", 0, 0, "r", "h")]), Vec::new());
}

#[test]
fn report_keeps_order() {
    let found = report(
        "ab\ncd\n",
        &vec![violation("", 4, 1, "late", "h"), violation("", 0, 1, "early", "h")],
    );
    assert_eq!(found.len(), 2);
    assert_eq!(found[0].code, Some(String::from("late")));
    assert_eq!(found[0].range, span(1, 1, 2));
    assert_eq!(found[1].code, Some(String::from("early")));
    assert_eq!(found[1].range, span(0, 0, 1));
}

#[test]
fn violation_whose_end_column_does_not_fit_is_dropped() {
    assert_eq!(translate("abc", &violation("", 2, usize::MAX, "r", "h")), None);
    let found = translate("abc", &violation("", 0, usize::MAX, "r", "h")).unwrap();
    assert_eq!(found.range, span(0, 0, usize::MAX));
    // The end column counts from the start of the line, not of the text.
    let found = translate("ab\ncd", &violation("", 3, usize::MAX, "r", "h")).unwrap();
    assert_eq!(found.range, span(1, 0, usize::MAX));
    let found = translate("ab\ncd", &violation("", 4, usize::MAX - 1, "r", "h")).unwrap();
    assert_eq!(found.range, span(1, 1, usize::MAX));
    assert_eq!(translate("ab\ncd", &violation("", 4, usize::MAX, "r", "h")), None);
}

#[test]
fn syntax_error_behind_the_end_is_empty_span() {
    let found = translate("abc", &syntax_error("", 7)).unwrap();
    assert_eq!(found.range, span(0, 7, 7));
}

#[test]
fn violation_of_length_zero() {
    let found = translate("abc", &violation("", 1, 0, "r", "h")).unwrap();
    assert_eq!(found.range, span(0, 1, 1));
    assert_eq!(found.severity, Severity::Warning);
}
