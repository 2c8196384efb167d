use std::collections::HashMap;
use svls::analysis::{analyze, check_rules, pass_failures, ParseError};
use svls::config::{generate_linter, SettingsFile};
use svls::define::resolve_defines;
use svls::diagnostic::{Location, RawFailure};
use svlint::linter::Linter;
use sv_parser::SyntaxTree;

fn tab_linter() -> Linter {
    let rules = SettingsFile {
        path: String::from("rules"),
        content: Some(String::from("[rules]\ntab_character = true\n")),
    };
    generate_linter(Some(rules)).ok().unwrap()
}

fn tree_of(text: &str) -> SyntaxTree {
    let none: HashMap<String, Option<sv_parser::Define>> = HashMap::new();
    let paths: Vec<String> = Vec::new();
    sv_parser::parse_sv_str(text, "", &none, &paths, false, false).unwrap().0
}

fn tab_at(begin: usize) -> RawFailure {
    RawFailure::RuleViolation {
        path: String::new(),
        begin,
        length: 1,
        name: String::from("tab_character"),
        hint: String::from("tab character is forbidden"),
    }
}

#[test]
fn failed_parse_leaves_its_syntax_error() {
    let at = Location { path: String::new(), offset: 4 };
    let error = ParseError::Syntax { location: Some(at) };
    let mut linter = Some(tab_linter());
    let found = pass_failures(Err(error), &mut linter);
    let at = Location { path: String::new(), offset: 4 };
    assert_eq!(found, vec![RawFailure::ParseFailure { location: Some(at) }]);
    assert!(linter.is_some());
}

#[test]
fn other_failure_leaves_nothing() {
    let mut linter = None;
    assert!(pass_failures(Err(ParseError::Other), &mut linter).is_empty());
    assert!(linter.is_none());
}

#[test]
fn parsed_text_without_linter_leaves_nothing() {
    let mut linter = None;
    let found = pass_failures(Ok(tree_of("module a;\n\tlogic b;\nendmodule\n")), &mut linter);
    assert!(found.is_empty());
    assert!(linter.is_none());
}

#[test]
fn parsed_text_with_linter_leaves_rule_violations() {
    let mut linter = Some(tab_linter());
    let found = pass_failures(Ok(tree_of("module a;\n\tlogic b;\nendmodule\n")), &mut linter);
    assert_eq!(found, vec![tab_at(10)]);
    assert!(linter.is_some());
}

#[test]
fn rules_are_checked_in_traversal_order() {
    let mut linter = tab_linter();
    let tree = tree_of("module a;\n\tlogic b;\n\tlogic c;\nendmodule\n");
    assert_eq!(check_rules(&mut linter, &tree), vec![tab_at(10), tab_at(20)]);
    let clean = tree_of("module a;\nendmodule\n");
    assert!(check_rules(&mut linter, &clean).is_empty());
    assert_eq!(check_rules(&mut linter, &tree), vec![tab_at(10), tab_at(20)]);
}

#[test]
fn pass_over_text() {
    let defines = resolve_defines(&Vec::new());
    let paths: Vec<String> = Vec::new();
    let mut linter = Some(tab_linter());
    let found = analyze("module a;\n\tlogic b;\nendmodule\n", &defines, &paths, &mut linter);
    assert_eq!(found, vec![tab_at(10)]);
    let found = analyze("module foo(;", &defines, &paths, &mut linter);
    let at = Location { path: String::new(), offset: 11 };
    assert_eq!(found, vec![RawFailure::ParseFailure { location: Some(at) }]);
    let mut none = None;
    let found = analyze("module a;\n\tlogic b;\nendmodule\n", &defines, &paths, &mut none);
    assert!(found.is_empty());
}
