use svls::position::{get_line_end, get_position};

#[test]
fn position_of_start_is_origin() {
    assert_eq!(get_position("abc", 0), (0, 0));
    assert_eq!(get_position("", 0), (0, 0));
}

#[test]
fn position_counts_line_breaks() {
    let text = "ab\ncd\n\nef";
    assert_eq!(get_position(text, 2), (0, 2));
    assert_eq!(get_position(text, 3), (1, 0));
    assert_eq!(get_position(text, 4), (1, 1));
    assert_eq!(get_position(text, 6), (2, 0));
    assert_eq!(get_position(text, 7), (3, 0));
    assert_eq!(get_position(text, 9), (3, 2));
}

#[test]
fn position_line_is_number_of_breaks_before() {
    let text = "module a;\n  wire b;\n\nendmodule\n";
    for k in 0..=text.len() {
        let breaks = text.as_bytes()[..k].iter().filter(|b| **b == b'\n').count();
        assert_eq!(get_position(text, k).0, breaks);
    }
}

#[test]
fn position_column_restarts_behind_a_break() {
    let text = "one\ntwo\n";
    assert_eq!(get_position(text, 4), (1, 0));
    assert_eq!(get_position(text, 8), (2, 0));
}

#[test]
fn position_behind_the_end_advances_the_column() {
    assert_eq!(get_position("ab", 5), (0, 5));
    assert_eq!(get_position("a\nb", 6), (1, 4));
}

#[test]
fn position_counts_bytes_inside_wide_characters() {
    // 'é' takes two bytes, '€' three.
    let text = "é€\nx";
    assert_eq!(get_position(text, 1), (0, 1));
    assert_eq!(get_position(text, 2), (0, 2));
    assert_eq!(get_position(text, 5), (0, 5));
    assert_eq!(get_position(text, 6), (1, 0));
    assert_eq!(get_position(text, 7), (1, 1));
}

#[test]
fn line_end_finds_next_break() {
    let text = "ab\ncd\n\nef";
    assert_eq!(get_line_end(text, 0), 2);
    assert_eq!(get_line_end(text, 2), 2);
    assert_eq!(get_line_end(text, 3), 5);
    assert_eq!(get_line_end(text, 6), 6);
    assert_eq!(get_line_end(text, 7), 9);
}

#[test]
fn line_end_of_last_line_is_text_length() {
    assert_eq!(get_line_end("abc", 1), 3);
    assert_eq!(get_line_end("abc", 3), 3);
    assert_eq!(get_line_end("", 0), 0);
}

#[test]
fn line_end_after_last_character_of_a_line() {
    let text = "ab\ncd";
    // 'b' is the last character of the first line, 'd' of the last.
    assert_eq!(get_line_end(text, 1), 2);
    assert_eq!(get_line_end(text, 4), 5);
}

#[test]
fn line_end_behind_the_end_is_text_length() {
    assert_eq!(get_line_end("ab", 5), 2);
    assert_eq!(get_line_end("abc", 7), 3);
    assert_eq!(get_line_end("ab\n", 9), 3);
    assert_eq!(get_line_end("", 1), 0);
}

#[test]
fn line_end_skips_wide_characters() {
    let text = "é€\nx";
    assert_eq!(get_line_end(text, 0), 5);
    assert_eq!(get_line_end(text, 1), 5);
    assert_eq!(get_line_end(text, 6), 7);
}
