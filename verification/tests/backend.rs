use svls::analysis::{parse_failures, ParseError};
use svls::backend::{rules_wanted, Backend, Phase};
use svls::config::{ConfigError, ServerConfig, SettingsFile};
use svls::diagnostic::{report, Location, Position, Range, RawFailure, Severity};

fn file(path: &str, content: &str) -> Option<SettingsFile> {
    Some(SettingsFile { path: String::from(path), content: Some(String::from(content)) })
}

fn span(line: usize, from: usize, to: usize) -> Range {
    Range {
        start: Position { line, character: from },
        end: Position { line, character: to },
    }
}

fn tab_rule_only() -> Backend {
    let mut backend = Backend::new();
    let errors = backend.initialize(
        Some(String::from("/project")),
        file("/project/.svls.toml", ""),
        file("/project/.svlint.toml", "[rules]\ntab_character = true\n"),
    );
    assert!(errors.is_empty());
    backend
}

#[test]
fn new_server_is_uninitialized() {
    let backend = Backend::new();
    assert_eq!(backend.phase(), Phase::Uninitialized);
    assert_eq!(backend.root(), "");
    assert_eq!(*backend.config(), ServerConfig::default());
    assert!(!backend.has_linter());
}

#[test]
fn uninitialized_server_reports_nothing() {
    let mut backend = Backend::new();
    assert!(backend.lint("module foo(").is_empty());
    assert!(backend.did_open("module foo(").is_empty());
    assert!(backend.did_change(&vec![String::from("module foo(")]).is_empty());
    assert_eq!(backend.phase(), Phase::Uninitialized);
}

#[test]
fn initialize_without_settings_files() {
    let mut backend = Backend::new();
    let errors = backend.initialize(None, None, None);
    assert_eq!(errors, vec![ConfigError::Missing]);
    assert_eq!(backend.phase(), Phase::Initialized);
    assert_eq!(backend.root(), "");
    assert_eq!(*backend.config(), ServerConfig::default());
    assert!(backend.has_linter());
}

#[test]
fn initialize_with_both_files() {
    let mut backend = Backend::new();
    let errors = backend.initialize(
        Some(String::from("/project")),
        file("/project/.svls.toml", "[verilog]\ndefines = [\"A=1\"]\n"),
        file("/project/.svlint.toml", "[rules]\ntab_character = true\n"),
    );
    assert!(errors.is_empty());
    assert_eq!(backend.phase(), Phase::Initialized);
    assert_eq!(backend.root(), "/project");
    assert_eq!(backend.config().verilog.defines, vec!["A=1"]);
    assert!(backend.config().option.linter);
    assert!(backend.has_linter());
}

#[test]
fn initialize_with_malformed_settings_falls_back() {
    let mut backend = Backend::new();
    let errors = backend.initialize(
        Some(String::from("/project")),
        file("/project/.svls.toml", "[option]\nlinter = 3\n"),
        Some(SettingsFile { path: String::from("/project/.svlint.toml"), content: None }),
    );
    assert_eq!(
        errors,
        vec![
            ConfigError::Parse(String::from("/project/.svls.toml")),
            ConfigError::Read(String::from("/project/.svlint.toml")),
        ]
    );
    assert_eq!(*backend.config(), ServerConfig::default());
    assert!(backend.has_linter());
}

#[test]
fn initialize_with_linter_switched_off() {
    let mut backend = Backend::new();
    let errors = backend.initialize(None, file("cfg", "[option]\nlinter = false\n"), None);
    assert!(errors.is_empty());
    assert!(!backend.config().option.linter);
    assert!(!backend.has_linter());
    assert!(backend.lint("module a;\n\tlogic b;\nendmodule\n").is_empty());
}

#[test]
fn rule_settings_are_wanted_where_rules_are_checked() {
    assert!(rules_wanted(&None));
    assert!(rules_wanted(&file("cfg", "")));
    assert!(rules_wanted(&file("cfg", "[option]\nlinter = true\n")));
    assert!(!rules_wanted(&file("cfg", "[option]\nlinter = false\n")));
    // Settings that cannot be had give way to the default.
    assert!(rules_wanted(&file("cfg", "[option]\nlinter = 0\n")));
    assert!(rules_wanted(&Some(SettingsFile { path: String::from("cfg"), content: None })));
}

#[test]
fn fallback_linter_checks_rules_that_a_file_may_leave_out() {
    let text = "module a;\n\tlogic b;\nendmodule\n";
    let mut without_tab = Backend::new();
    without_tab.initialize(None, None, file("rules", "[rules]\ncase_default = true\n"));
    assert!(without_tab.lint(text).is_empty());
    let mut fallback = Backend::new();
    fallback.initialize(None, None, file("rules", "[rules\n"));
    assert!(fallback.lint(text).iter().any(|d| d.code == Some(String::from("tab_character"))));
}

#[test]
fn initialize_happens_once() {
    let mut backend = tab_rule_only();
    let errors = backend.initialize(Some(String::from("/other")), None, None);
    assert!(errors.is_empty());
    assert_eq!(backend.root(), "/project");
    assert_eq!(backend.phase(), Phase::Initialized);
}

#[test]
fn unterminated_module_is_a_parse_error() {
    let mut backend = Backend::new();
    backend.initialize(None, None, None);
    let found = backend.lint("module foo(;");
    assert_eq!(found.len(), 1);
    assert_eq!(found[0].severity, Severity::Error);
    assert_eq!(found[0].message, "parse error");
    assert_eq!(found[0].code, None);
    assert_eq!(found[0].source, "analysis-service");
    assert_eq!(found[0].range, span(0, 11, 12));
}

#[test]
fn unterminated_module_failure_spans_to_end_of_line() {
    let text = "module foo(";
    let at_end = parse_failures(ParseError::Syntax {
        location: Some(Location { path: String::new(), offset: 11 }),
    });
    let found = report(text, &at_end);
    assert_eq!(found.len(), 1);
    assert_eq!(found[0].severity, Severity::Error);
    assert_eq!(found[0].message, "parse error");
    assert_eq!(found[0].range, span(0, 11, 11));
    let inside = parse_failures(ParseError::Syntax {
        location: Some(Location { path: String::new(), offset: 7 }),
    });
    assert_eq!(report(text, &inside)[0].range, span(0, 7, 11));
}

#[test]
fn parse_failure_without_place_is_silent() {
    // At the end of the text the parser names no place.
    let mut backend = Backend::new();
    backend.initialize(None, None, None);
    assert!(backend.lint("module foo(").is_empty());
    let nowhere = parse_failures(ParseError::Syntax { location: None });
    assert_eq!(nowhere, vec![RawFailure::ParseFailure { location: None }]);
    assert!(report("module foo(", &nowhere).is_empty());
    assert!(parse_failures(ParseError::Other).is_empty());
}

#[test]
fn parse_failure_in_included_file_is_silent() {
    let elsewhere = parse_failures(ParseError::Syntax {
        location: Some(Location { path: String::from("/project/inc/x.svh"), offset: 3 }),
    });
    assert!(report("`include \"x.svh\"\n", &elsewhere).is_empty());
}

#[test]
fn missing_include_is_silent() {
    let mut backend = tab_rule_only();
    assert!(backend.lint("`include \"no_such_file.svh\"\nmodule a;\nendmodule\n").is_empty());
}

#[test]
fn parse_error_on_a_later_line() {
    let mut backend = tab_rule_only();
    let found = backend.lint("module a;\nlogic logic;\nendmodule\n");
    assert_eq!(found.len(), 1);
    assert_eq!(found[0].severity, Severity::Error);
    assert_eq!(found[0].range.start.line, 1);
    assert_eq!(found[0].range.end, Position { line: 1, character: 12 });
}

#[test]
fn clean_text_has_no_diagnostics() {
    let mut backend = tab_rule_only();
    assert!(backend.lint("module a;\n  logic b;\nendmodule\n").is_empty());
    assert!(backend.lint("").is_empty());
}

#[test]
fn rule_violation_is_a_warning() {
    let mut backend = tab_rule_only();
    let found = backend.lint("module a;\n\tlogic b;\nendmodule\n");
    assert_eq!(found.len(), 1);
    assert_eq!(found[0].severity, Severity::Warning);
    assert_eq!(found[0].code, Some(String::from("tab_character")));
    assert_eq!(found[0].message, "tab character is forbidden");
    assert_eq!(found[0].source, "analysis-service");
    assert_eq!(found[0].range, span(1, 0, 1));
}

#[test]
fn rule_violations_come_in_traversal_order() {
    let mut backend = tab_rule_only();
    let found = backend.lint("module a;\n\tlogic b;\n  logic c;\t\nendmodule\n");
    assert_eq!(found.len(), 2);
    assert_eq!(found[0].range, span(1, 0, 1));
    assert_eq!(found[1].range, span(2, 10, 11));
}

#[test]
fn every_rule_is_checked_without_rule_settings() {
    let mut backend = Backend::new();
    backend.initialize(None, None, None);
    let found = backend.lint("module a;\n\tlogic b;\nendmodule\n");
    assert!(found.iter().all(|d| d.severity == Severity::Warning));
    assert!(found.iter().any(|d| d.code == Some(String::from("tab_character"))));
}

#[test]
fn defines_of_settings_reach_the_preprocessor() {
    let text = "`ifdef WITH_TAB\nmodule a;\n\tlogic b;\nendmodule\n`endif\n";
    let mut without = tab_rule_only();
    assert!(without.lint(text).is_empty());
    let mut with = Backend::new();
    with.initialize(
        None,
        file("cfg", "[verilog]\ndefines = [\"WITH_TAB\"]\n"),
        file("rules", "[rules]\ntab_character = true\n"),
    );
    let found = with.lint(text);
    assert_eq!(found.len(), 1);
    assert_eq!(found[0].code, Some(String::from("tab_character")));
    assert_eq!(found[0].range, span(2, 0, 1));
}

#[test]
fn define_text_reaches_the_preprocessor() {
    let text = "module a;\n  logic [`WIDTH-1:0] b;\nendmodule\n";
    let mut without = tab_rule_only();
    assert_eq!(without.lint(text).len(), 0);
    let mut with = Backend::new();
    with.initialize(
        None,
        file("cfg", "[verilog]\ndefines = [\"WIDTH=8\"]\n"),
        file("rules", "[rules]\ntab_character = true\n"),
    );
    assert!(with.lint(text).is_empty());
}

#[test]
fn did_open_and_did_change_run_a_pass() {
    let mut backend = tab_rule_only();
    let opened = backend.did_open("module a;\n\tlogic b;\nendmodule\n");
    assert_eq!(opened.len(), 1);
    assert_eq!(opened[0].range, span(1, 0, 1));
    let changed = backend.did_change(&vec![
        String::from("module a;\n  logic b;\nendmodule\n"),
        String::from("ignored("),
    ]);
    assert!(changed.is_empty());
}

#[test]
fn passes_follow_each_other() {
    let mut backend = tab_rule_only();
    for _ in 0..3 {
        assert_eq!(backend.lint("module a;\n\tlogic b;\nendmodule\n").len(), 1);
        assert_eq!(backend.lint("module foo(;").len(), 1);
        assert!(backend.lint("module a;\nendmodule\n").is_empty());
    }
}

#[test]
fn shutdown_keeps_what_was_loaded() {
    let mut backend = tab_rule_only();
    backend.shutdown();
    assert_eq!(backend.phase(), Phase::ShuttingDown);
    assert_eq!(backend.root(), "/project");
    assert!(backend.has_linter());
    backend.shutdown();
    assert_eq!(backend.phase(), Phase::ShuttingDown);
}

#[test]
fn shutdown_before_initialize_changes_nothing() {
    let mut backend = Backend::new();
    backend.shutdown();
    assert_eq!(backend.phase(), Phase::Uninitialized);
}
