use svls::define::{
    parse_define, read_value, resolve_defines, split_define, strip_quotes, Define, DefineTable,
};

fn text_of(table: &DefineTable, name: &str) -> Option<Option<String>> {
    table.get(name).map(|d| d.text.clone())
}

#[test]
fn split_at_first_equals() {
    assert_eq!(split_define("DEBUG"), ("DEBUG", None));
    assert_eq!(split_define("WIDTH=8"), ("WIDTH", Some("8")));
    assert_eq!(split_define("A=b=c"), ("A", Some("b=c")));
    assert_eq!(split_define("A="), ("A", Some("")));
    assert_eq!(split_define("=x"), ("", Some("x")));
    assert_eq!(split_define(""), ("", None));
    assert_eq!(split_define("NÄME=a\\qb"), ("NÄME", Some("a\\qb")));
}

#[test]
fn define_without_value_has_no_text() {
    let d = parse_define("DEBUG");
    assert_eq!(d.identifier, "DEBUG");
    assert_eq!(d.text, None);
}

#[test]
fn define_with_plain_value() {
    let d = parse_define("WIDTH=8");
    assert_eq!(d.identifier, "WIDTH");
    assert_eq!(d.text, Some(String::from("8")));
}

#[test]
fn define_with_quoted_value_loses_its_quotes() {
    let d = parse_define("NAME=\"a b\"");
    assert_eq!(d.identifier, "NAME");
    assert_eq!(d.text, Some(String::from("a b")));
}

#[test]
fn quotes_are_stripped_in_pairs() {
    assert_eq!(strip_quotes("\"a b\""), "a b");
    assert_eq!(strip_quotes("'a b'"), "a b");
    assert_eq!(strip_quotes("`a b`"), "a b");
    assert_eq!(strip_quotes("\"\""), "");
    assert_eq!(strip_quotes("\""), "\"");
    assert_eq!(strip_quotes(""), "");
    assert_eq!(strip_quotes("8"), "8");
    assert_eq!(strip_quotes("\"a'"), "\"a'");
    assert_eq!(strip_quotes("a\"b\""), "a\"b\"");
    assert_eq!(strip_quotes("\"a\" \"b\""), "a\" \"b");
    assert_eq!(strip_quotes("\"é€\""), "é€");
    assert_eq!(strip_quotes("xax"), "xax");
}

#[test]
fn value_is_taken_out_of_quotes_then_unescaped() {
    assert_eq!(read_value("\"a\\tb\""), Some(String::from("a\tb")));
    assert_eq!(read_value("'it\\'s'"), Some(String::from("it's")));
    assert_eq!(read_value("\"a\"b\""), Some(String::from("a\"b")));
    assert_eq!(read_value("\"\""), Some(String::new()));
    assert_eq!(read_value(""), Some(String::new()));
    assert_eq!(read_value("8"), Some(String::from("8")));
    assert_eq!(read_value("\"a\\qb\""), None);
    // The pair of quotes goes first: what is left ends in a lone backslash.
    assert_eq!(read_value("\"a\\\""), None);
}

#[test]
fn define_with_quoted_empty_value_is_defined_empty() {
    let d = parse_define("EMPTY=\"\"");
    assert_eq!(d.text, Some(String::new()));
}

#[test]
fn define_with_empty_value_is_defined_empty() {
    let d = parse_define("EMPTY=");
    assert_eq!(d.identifier, "EMPTY");
    assert_eq!(d.text, Some(String::new()));
}

#[test]
fn define_splits_at_first_equals_only() {
    let d = parse_define("EXPR=a==b");
    assert_eq!(d.identifier, "EXPR");
    assert_eq!(d.text, Some(String::from("a==b")));
}

#[test]
fn define_value_is_unescaped() {
    let d = parse_define("MSG=a\\tb\\n");
    assert_eq!(d.identifier, "MSG");
    assert_eq!(d.text, Some(String::from("a\tb\n")));
    let d = parse_define("Q=\\\"x\\\"");
    assert_eq!(d.text, Some(String::from("\"x\"")));
    let d = parse_define("HEX=\\x41\\u00e9");
    assert_eq!(d.text, Some(String::from("Aé")));
}

#[test]
fn define_with_invalid_escape_keeps_name_without_text() {
    let d = parse_define("BAD=a\\qb");
    assert_eq!(d.identifier, "BAD");
    assert_eq!(d.text, None);
    let d = parse_define("CUT=abc\\");
    assert_eq!(d.identifier, "CUT");
    assert_eq!(d.text, None);
}

#[test]
fn define_with_wide_characters() {
    let d = parse_define("NÄME=wört");
    assert_eq!(d.identifier, "NÄME");
    assert_eq!(d.text, Some(String::from("wört")));
}

#[test]
fn define_of_empty_string() {
    let d = parse_define("");
    assert_eq!(d.identifier, "");
    assert_eq!(d.text, None);
    let d = parse_define("=x");
    assert_eq!(d.identifier, "");
    assert_eq!(d.text, Some(String::from("x")));
}

#[test]
fn resolved_defines_of_settings() {
    let table = resolve_defines(&vec![String::from("WIDTH=8"), String::from("DEBUG")]);
    assert_eq!(table.len(), 2);
    assert_eq!(text_of(&table, "WIDTH"), Some(Some(String::from("8"))));
    assert_eq!(text_of(&table, "DEBUG"), Some(None));
    assert_eq!(text_of(&table, "OTHER"), None);
}

#[test]
fn resolved_defines_later_replaces_earlier() {
    let table = resolve_defines(&vec![
        String::from("A=1"),
        String::from("B"),
        String::from("A=2"),
        String::from("B=x"),
        String::from("A"),
    ]);
    assert_eq!(table.len(), 2);
    assert_eq!(text_of(&table, "A"), Some(None));
    assert_eq!(text_of(&table, "B"), Some(Some(String::from("x"))));
    let names: Vec<&str> = table.entries().iter().map(|d| d.identifier.as_str()).collect();
    assert_eq!(names, vec!["A", "B"]);
}

#[test]
fn resolved_defines_of_nothing_is_empty() {
    let table = resolve_defines(&Vec::new());
    assert_eq!(table.len(), 0);
    assert!(table.get("A").is_none());
}

#[test]
fn table_insert_and_get() {
    let mut table = DefineTable::new();
    assert_eq!(table.len(), 0);
    table.insert(Define { identifier: String::from("X"), text: None });
    table.insert(Define { identifier: String::from("Y"), text: Some(String::from("1")) });
    table.insert(Define { identifier: String::from("X"), text: Some(String::from("2")) });
    assert_eq!(table.len(), 2);
    assert_eq!(text_of(&table, "X"), Some(Some(String::from("2"))));
    assert_eq!(text_of(&table, "Y"), Some(Some(String::from("1"))));
    assert_eq!(text_of(&table, "x"), None);
}
