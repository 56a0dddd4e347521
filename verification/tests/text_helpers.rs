use ai_context_gen::text::{
    chars_of, has_prefix, join, render_number, same_text, split_fields, split_lines, string_of,
    strip, trim,
};

fn cs(s: &str) -> Vec<char> {
    s.chars().collect()
}

fn strings(rows: Vec<Vec<char>>) -> Vec<String> {
    rows.iter().map(|r| r.iter().collect()).collect()
}

#[test]
fn chars_and_strings_round_trip() {
    assert_eq!(chars_of("héllo"), vec!['h', 'é', 'l', 'l', 'o']);
    assert_eq!(string_of(&vec!['a', 'ß', 'c']), "aßc");
    assert_eq!(string_of(&chars_of("")), "");
}

#[test]
fn numbers_are_written_in_decimal() {
    assert_eq!(render_number(0), "0");
    assert_eq!(render_number(7), "7");
    assert_eq!(render_number(10), "10");
    assert_eq!(render_number(50000), "50000");
    assert_eq!(render_number(1234567890), "1234567890");
    assert_eq!(render_number(u64::MAX), "18446744073709551615");
}

#[test]
fn trim_removes_white_space_at_both_ends() {
    assert_eq!(string_of(&trim(&cs("  a b \t\r\n"))), "a b");
    assert_eq!(string_of(&trim(&cs("\u{a0}x\u{3000}"))), "x");
    assert_eq!(string_of(&trim(&cs("   "))), "");
    assert_eq!(string_of(&trim(&cs(""))), "");
    assert_eq!(string_of(&trim(&cs("abc"))), "abc");
}

#[test]
fn strip_removes_quotes_at_both_ends_only() {
    assert_eq!(string_of(&strip(true, &cs("\"x\""))), "x");
    assert_eq!(string_of(&strip(true, &cs("\"\"a\"b\"\""))), "a\"b");
    assert_eq!(string_of(&strip(true, &cs(" \"x\""))), " \"x");
    assert_eq!(string_of(&strip(true, &cs("\"\""))), "");
}

#[test]
fn lines_end_at_line_feeds() {
    assert_eq!(strings(split_lines(&cs("a\nb\r\nc"))), vec!["a", "b", "c"]);
    assert_eq!(strings(split_lines(&cs("a\n"))), vec!["a"]);
    assert_eq!(strings(split_lines(&cs("a\n\nb\n"))), vec!["a", "", "b"]);
    assert_eq!(strings(split_lines(&cs("\n"))), vec![""]);
    assert!(split_lines(&cs("")).is_empty());
    assert_eq!(strings(split_lines(&cs("a\rb"))), vec!["a\rb"]);
}

#[test]
fn fields_are_split_at_every_separator() {
    assert_eq!(strings(split_fields(&cs("a=b=c"), '=')), vec!["a", "b", "c"]);
    assert_eq!(strings(split_fields(&cs("abc"), '=')), vec!["abc"]);
    assert_eq!(strings(split_fields(&cs(""), '=')), vec![""]);
    assert_eq!(strings(split_fields(&cs("a/"), '/')), vec!["a", ""]);
    assert_eq!(strings(split_fields(&cs("/a"), '/')), vec!["", "a"]);
}

#[test]
fn prefix_and_equality_tests() {
    assert!(has_prefix(&cs("[package]"), "[package]"));
    assert!(has_prefix(&cs("[dependencies.foo]"), "[dependencies"));
    assert!(!has_prefix(&cs("[dep"), "[dependencies"));
    assert!(has_prefix(&cs("x"), ""));
    assert!(same_text(&cs("rs"), "rs"));
    assert!(!same_text(&cs("rs"), "rss"));
    assert!(!same_text(&cs("rt"), "rs"));
}

#[test]
fn join_puts_the_separator_between_parts() {
    assert_eq!(join(&vec!["a".to_string(), "b".to_string(), "c".to_string()], ", "), "a, b, c");
    assert_eq!(join(&vec!["a".to_string()], ", "), "a");
    assert_eq!(join(&Vec::new(), ", "), "");
    assert_eq!(join(&vec!["".to_string(), "".to_string()], "-"), "-");
}
