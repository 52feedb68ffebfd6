use rslib::{parse_raw, parse_strict, Level, LogEntry, Parser};

fn entry(timestamp: &str, level: &str, message: &str) -> LogEntry {
    LogEntry {
        timestamp: timestamp.to_string(),
        level: level.to_string(),
        message: message.to_string(),
    }
}

#[test]
fn test_parse_valid_info_log() {
    let line = "[2023-10-27 14:30:05] INFO: User logged in.";
    let expected = entry("2023-10-27 14:30:05", "INFO", "User logged in.");
    let parser = Parser::new();
    let parsed = parser
        .parse_log_line(line)
        .expect("Should parse successfully");
    assert_eq!(parsed, expected);
}

#[test]
fn test_parse_valid_warn_log() {
    let line = "[2024-01-15 08:00:10] WARN: Disk space low.";
    let expected = entry("2024-01-15 08:00:10", "WARN", "Disk space low.");
    let parser = Parser::new();
    let parsed = parser
        .parse_log_line(line)
        .expect("Should parse successfully");
    assert_eq!(parsed, expected);
}

#[test]
fn test_parse_valid_error_log_no_newline() {
    let line = "[2025-05-22 09:14:52] ERROR: Database connection failed. Retrying...";
    let expected = entry(
        "2025-05-22 09:14:52",
        "ERROR",
        "Database connection failed. Retrying...",
    );
    let parser = Parser::new();
    let parsed = parser
        .parse_log_line(line)
        .expect("Should parse successfully");
    assert_eq!(parsed, expected);
}

#[test]
fn test_parse_invalid_format() {
    let parser = Parser::new();
    assert!(parser.parse_log_line("Invalid log line").is_none());
    assert!(parser
        .parse_log_line("[2023-10-27] INFO: Missing time")
        .is_none());
    assert!(parser
        .parse_log_line("2023-10-27 14:30:05 INFO: No brackets")
        .is_none());
    assert!(parser
        .parse_log_line("[2023-10-27 14:30:05] HELLO: Unknown level")
        .is_none());
}

#[test]
fn test_parse_empty_line() {
    let parser = Parser::new();
    assert!(parser.parse_log_line("").is_none());
    assert!(parser.parse_log_line("   ").is_none());
}

#[test]
fn test_py_parse_valid_log() {
    let line = "[2023-10-27 14:30:05] INFO: User logged in.";
    let parser = Parser::new();
    let entry = parser.parse_log_line(line).unwrap();
    assert_eq!(entry.timestamp, "2023-10-27 14:30:05");
    assert_eq!(entry.level, "INFO");
    assert_eq!(entry.message, "User logged in.");
}

#[test]
fn test_py_parse_invalid_log() {
    let line = "This is not a log line.";
    let parser = Parser::new();
    let result = parser.parse_log_line(line);
    assert!(result.is_none());
}

#[test]
fn debug_level_parses() {
    let parsed = parse_strict("[2024-02-29 23:59:59] DEBUG: x = 1").unwrap();
    assert_eq!(parsed, entry("2024-02-29 23:59:59", "DEBUG", "x = 1"));
}

#[test]
fn trailing_newline_gives_same_record() {
    let bare = "[2025-05-22 09:14:52] ERROR: Database connection failed. Retrying...";
    let with_lf = format!("{}\n", bare);
    let with_crlf = format!("{}\r\n", bare);
    let expected = parse_strict(bare).unwrap();
    assert_eq!(parse_strict(&with_lf), Some(expected.clone()));
    assert_eq!(parse_strict(&with_crlf), Some(expected));
}

#[test]
fn unknown_level_with_valid_shape_fails() {
    assert!(parse_strict("[2023-10-27 14:30:05] HELLO: Unknown level.").is_none());
    assert!(parse_strict("[2023-10-27 14:30:05] info: lower case").is_none());
    assert!(parse_strict("[2023-10-27 14:30:05] INFOX: longer token").is_none());
    assert!(parse_strict("[2023-10-27 14:30:05] INF0: digit in token").is_none());
}

#[test]
fn missing_delimiters_fail() {
    assert!(parse_strict("[2023-10-27 14:30:05] INFO:no space").is_none());
    assert!(parse_strict("[2023-10-27 14:30:05] INFO message").is_none());
    assert!(parse_strict("[2023-10-27 14:30:05]INFO: no space after bracket").is_none());
    assert!(parse_strict("[2023-10-27 14:30:05 INFO: no closing bracket").is_none());
    assert!(parse_strict("[").is_none());
    assert!(parse_strict("[2023-10-27 14:30:05] INFO:").is_none());
}

#[test]
fn empty_message_is_allowed() {
    let parsed = parse_strict("[2023-10-27 14:30:05] WARN: ").unwrap();
    assert_eq!(parsed, entry("2023-10-27 14:30:05", "WARN", ""));
}

#[test]
fn message_whitespace_is_kept() {
    let parsed = parse_strict("[2023-10-27 14:30:05] INFO:   two  spaces  ").unwrap();
    assert_eq!(parsed.message, "  two  spaces  ");
}

#[test]
fn timestamp_shape_is_not_validated() {
    let parsed = parse_strict("[2023-13-99 25:61:61] INFO: odd date").unwrap();
    assert_eq!(parsed.timestamp, "2023-13-99 25:61:61");
    let parsed = parse_strict("[day  noon] INFO: loose").unwrap();
    assert_eq!(parsed.timestamp, "day  noon");
}

#[test]
fn concatenated_lines_fail_strict_parsing() {
    let two = "[2023-10-27 14:30:05] INFO: first\n[2023-10-27 14:30:06] INFO: second";
    assert!(parse_strict(two).is_none());
    let (rest, first) = parse_raw(two).unwrap();
    assert_eq!(first, entry("2023-10-27 14:30:05", "INFO", "first"));
    assert_eq!(rest, "\n[2023-10-27 14:30:06] INFO: second");
}

#[test]
fn raw_parse_leaves_terminator() {
    let (rest, parsed) = parse_raw("[2023-10-27 14:30:05] INFO: done\r\n").unwrap();
    assert_eq!(rest, "\r\n");
    assert_eq!(parsed.message, "done");
    let (rest, _) = parse_raw("[2023-10-27 14:30:05] INFO: done").unwrap();
    assert_eq!(rest, "");
    assert!(parse_raw("no brackets here").is_none());
}

#[test]
fn lone_carriage_return_stays_in_message() {
    let parsed = parse_strict("[2023-10-27 14:30:05] INFO: a\rb").unwrap();
    assert_eq!(parsed.message, "a\rb");
}

#[test]
fn non_ascii_text_is_kept() {
    let parsed = parse_strict("[jour heure] ERROR: échec — réessai").unwrap();
    assert_eq!(parsed.timestamp, "jour heure");
    assert_eq!(parsed.message, "échec — réessai");
}

#[test]
fn parsed_record_written_back_parses_the_same() {
    let lines = [
        "[2023-10-27 14:30:05] INFO: User logged in.",
        "[a]b c] DEBUG: bracket in the date",
        "[2023-10-27 14:30:05] WARN: ",
        "[2023-10-27 14:30:05] ERROR: tail\n",
    ];
    for line in lines {
        let parsed = parse_strict(line).unwrap();
        let written = parsed.to_line();
        assert_eq!(parse_strict(&written), Some(parsed));
    }
}

#[test]
fn to_line_writes_all_fields() {
    let e = entry("2023-10-27 14:30:05", "INFO", "User logged in.");
    assert_eq!(e.to_line(), "[2023-10-27 14:30:05] INFO: User logged in.");
}

#[test]
fn level_tokens() {
    assert_eq!(Level::Info.as_str(), "INFO");
    assert_eq!(Level::Warn.as_str(), "WARN");
    assert_eq!(Level::Error.as_str(), "ERROR");
    assert_eq!(Level::Debug.as_str(), "DEBUG");
}

#[test]
fn batch_keeps_parsed_lines_in_order() {
    let lines: Vec<String> = vec![
        "[2023-10-27 14:30:05] INFO: one".to_string(),
        "garbage".to_string(),
        "[2023-10-27 14:30:06] HELLO: unknown".to_string(),
        "[2023-10-27 14:30:07] ERROR: two".to_string(),
        "".to_string(),
        "[2023-10-27 14:30:08] DEBUG: three".to_string(),
    ];
    let parser = Parser::new();
    let parsed = parser.parse_log_lines(&lines);
    assert_eq!(
        parsed,
        vec![
            entry("2023-10-27 14:30:05", "INFO", "one"),
            entry("2023-10-27 14:30:07", "ERROR", "two"),
            entry("2023-10-27 14:30:08", "DEBUG", "three"),
        ]
    );
    assert_eq!(parser.count_log_lines(&lines), 3);
}

#[test]
fn batch_of_nothing_is_empty() {
    let parser = Parser::new();
    let none: Vec<String> = Vec::new();
    assert!(parser.parse_log_lines(&none).is_empty());
    assert_eq!(parser.count_log_lines(&none), 0);
    let bad = vec!["x".to_string(), "   ".to_string()];
    assert!(parser.parse_log_lines(&bad).is_empty());
    assert_eq!(parser.count_log_lines(&bad), 0);
}

#[test]
fn level_from_token() {
    assert_eq!(Level::from_token("INFO"), Some(Level::Info));
    assert_eq!(Level::from_token("WARN"), Some(Level::Warn));
    assert_eq!(Level::from_token("ERROR"), Some(Level::Error));
    assert_eq!(Level::from_token("DEBUG"), Some(Level::Debug));
    assert_eq!(Level::from_token("HELLO"), None);
    assert_eq!(Level::from_token("info"), None);
    assert_eq!(Level::from_token(""), None);
}
