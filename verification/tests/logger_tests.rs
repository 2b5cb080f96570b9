use supamonitor::logger::{format_log_line, utility_log_line};

#[test]
fn utility_statement_is_logged_with_one_call() {
    let line = utility_log_line(b"VACUUM;", "0.1.0");
    assert_eq!(
        line,
        Some(String::from("supamonitor_0.1.0_log:{\"query\":\"VACUUM;\",\"calls\":1}"))
    );
}

#[test]
fn utility_statement_that_is_not_utf8_gets_no_line() {
    assert_eq!(utility_log_line(&[b'V', 0xff, b'A'], "0.1.0"), None);
    assert_eq!(utility_log_line(&[0xc3], "0.1.0"), None);
    assert_eq!(utility_log_line(&[0xed, 0xa0, 0x80], "0.1.0"), None);
    assert_eq!(utility_log_line(&[0xc0, 0x80], "0.1.0"), None);
}

#[test]
fn utility_statement_with_text_beyond_ascii() {
    let line = utility_log_line("COMMENT ON TABLE t IS 'café ☕';".as_bytes(), "2.0");
    assert_eq!(
        line,
        Some(String::from(
            "supamonitor_2.0_log:{\"query\":\"COMMENT ON TABLE t IS 'café ☕';\",\"calls\":1}"
        ))
    );
}

#[test]
fn empty_utility_statement() {
    assert_eq!(
        utility_log_line(b"", "1"),
        Some(String::from("supamonitor_1_log:{\"query\":\"\",\"calls\":1}"))
    );
}

#[test]
fn line_carries_version_text_and_count() {
    assert_eq!(
        format_log_line("SELECT 1", 2, "1.2.3"),
        "supamonitor_1.2.3_log:{\"query\":\"SELECT 1\",\"calls\":2}"
    );
}

#[test]
fn count_is_written_in_decimal() {
    assert_eq!(format_log_line("q", 0, "v"), "supamonitor_v_log:{\"query\":\"q\",\"calls\":0}");
    assert_eq!(format_log_line("q", 9, "v"), "supamonitor_v_log:{\"query\":\"q\",\"calls\":9}");
    assert_eq!(format_log_line("q", 10, "v"), "supamonitor_v_log:{\"query\":\"q\",\"calls\":10}");
    assert_eq!(
        format_log_line("q", 1234567890, "v"),
        "supamonitor_v_log:{\"query\":\"q\",\"calls\":1234567890}"
    );
    assert_eq!(
        format_log_line("q", usize::MAX, "v"),
        format!("supamonitor_v_log:{{\"query\":\"q\",\"calls\":{}}}", usize::MAX)
    );
}

#[test]
fn quotes_and_backslashes_are_escaped() {
    assert_eq!(
        format_log_line("SELECT \"a\\b\" FROM t", 1, "v"),
        "supamonitor_v_log:{\"query\":\"SELECT \\\"a\\\\b\\\" FROM t\",\"calls\":1}"
    );
}

#[test]
fn control_characters_are_escaped() {
    assert_eq!(
        format_log_line("a\nb\rc\td\u{8}e\u{c}f", 1, "v"),
        "supamonitor_v_log:{\"query\":\"a\\nb\\rc\\td\\be\\ff\",\"calls\":1}"
    );
    assert_eq!(
        format_log_line("\u{0}\u{1}\u{b}\u{1f}", 1, "v"),
        "supamonitor_v_log:{\"query\":\"\\u0000\\u0001\\u000b\\u001f\",\"calls\":1}"
    );
}

#[test]
fn other_characters_stand_as_they_are() {
    assert_eq!(
        format_log_line(" /'\u{7f}\u{80}é漢😀", 1, "v"),
        "supamonitor_v_log:{\"query\":\" /'\u{7f}\u{80}é漢😀\",\"calls\":1}"
    );
}

#[test]
fn line_is_a_single_line_whatever_the_text() {
    let line = format_log_line("SELECT 1;\nSELECT 2;\r\n", 1, "v");
    assert!(!line.contains('\n'));
    assert!(!line.contains('\r'));
}
