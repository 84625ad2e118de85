use nextaudit::config::Config;
use nextaudit::engine::{run_scan, Issue, Severity};
use nextaudit::reporter::{choose_layout, compose_report, emit_report, render_text, Layout, Report};
use nextaudit::text::{
    decimal, eq_ignore_case, find_byte_from, fold, has_match, has_match_within, is_match_at,
};
use nextaudit::rules::ScanError;
use nextaudit::tree::Entry;

fn issue(id: &str, severity: Severity, message: &str) -> Issue {
    Issue { id: id.to_string(), severity, message: message.to_string() }
}

#[test]
fn text_report_has_one_line_per_issue() {
    let issues = vec![
        issue("a11y::viewport_missing", Severity::Warning, "a.html: missing <meta name=\"viewport\">"),
        issue("sec::dangerous_html", Severity::High, "b.js: usage"),
        issue("x::y", Severity::Info, ""),
    ];
    assert_eq!(
        render_text(&issues),
        "[warning] a11y::viewport_missing - a.html: missing <meta name=\"viewport\">\n\
         [high] sec::dangerous_html - b.js: usage\n\
         [info] x::y - \n"
    );
    assert_eq!(render_text(&Vec::new()), "");
}

#[test]
fn severity_labels() {
    assert_eq!(Severity::Info.label(), "info");
    assert_eq!(Severity::Warning.label(), "warning");
    assert_eq!(Severity::High.label(), "high");
}

#[test]
fn layout_by_lower_cased_name() {
    assert_eq!(choose_layout(&"json".to_string()), Layout::Json);
    assert_eq!(choose_layout(&"text".to_string()), Layout::Text);
    assert_eq!(choose_layout(&"Text".to_string()), Layout::Unknown);
    assert_eq!(choose_layout(&"".to_string()), Layout::Unknown);
    assert_eq!(choose_layout(&"jsonl".to_string()), Layout::Unknown);
}

#[test]
fn format_name_is_matched_without_regard_to_case() {
    let issues = vec![issue("x::y", Severity::High, "m")];
    assert_eq!(emit_report(&issues, "json"), Report::Json { unknown: None });
    assert_eq!(emit_report(&issues, "JSON"), Report::Json { unknown: None });
    assert_eq!(emit_report(&issues, "text"), Report::Text { body: "[high] x::y - m\n".to_string() });
    assert_eq!(emit_report(&issues, "TeXt"), Report::Text { body: "[high] x::y - m\n".to_string() });
}

#[test]
fn unknown_format_falls_back_to_json() {
    let issues = vec![issue("x::y", Severity::High, "m")];
    assert_eq!(emit_report(&issues, "yaml"), Report::Json { unknown: Some("yaml".to_string()) });
    assert_eq!(emit_report(&issues, "YAML"), Report::Json { unknown: Some("yaml".to_string()) });
    assert_eq!(emit_report(&issues, ""), Report::Json { unknown: Some(String::new()) });
    assert_eq!(
        compose_report(&issues, "TEXT".to_string()),
        Report::Json { unknown: Some("TEXT".to_string()) }
    );
}

#[test]
fn scan_and_report_in_one_call() {
    let listing = vec![
        Entry {
            depth: 0,
            name: Some("proj".to_string()),
            is_dir: true,
            is_file: false,
            path: "proj".to_string(),
            ext: String::new(),
            size: None,
            bytes: None,
        },
        Entry {
            depth: 1,
            name: Some("test.html".to_string()),
            is_dir: false,
            is_file: true,
            path: "proj/test.html".to_string(),
            ext: "html".to_string(),
            size: Some(39),
            bytes: Some(b"<html><head></head><body></body></html>".to_vec()),
        },
    ];
    let scan = run_scan(&listing, &Config::default(), "Text").unwrap();
    assert_eq!(scan.issues.len(), 1);
    assert_eq!(scan.issues[0].id, "a11y::viewport_missing");
    assert_eq!(
        scan.report,
        Report::Text {
            body: "[warning] a11y::viewport_missing - proj/test.html: missing <meta name=\"viewport\">\n"
                .to_string()
        }
    );
    let scan = run_scan(&listing, &Config::default(), "json").unwrap();
    assert_eq!(scan.report, Report::Json { unknown: None });
    assert_eq!(scan.issues.len(), 1);
    assert_eq!(run_scan(&Vec::new(), &Config::default(), "json"), Err(ScanError::RootMissing));
    assert_eq!(
        run_scan(&listing[1..].to_vec(), &Config::default(), "text"),
        Err(ScanError::RootNotDirectory)
    );
}

#[test]
fn substring_search() {
    assert!(is_match_at(b"hello", b"ell", 1));
    assert!(!is_match_at(b"hello", b"ell", 0));
    assert!(!is_match_at(b"hello", b"lo", 4));
    assert!(is_match_at(b"hello", b"", 5));
    assert!(!is_match_at(b"hello", b"", 6));
    assert!(!is_match_at(b"hi", b"hello", 0));
    assert!(!is_match_at(b"hello", b"o", usize::MAX));
    assert!(has_match(b"hello", b"lo"));
    assert!(has_match(b"hello", b"hello"));
    assert!(has_match(b"", b""));
    assert!(!has_match(b"hello", b"hello!"));
    assert!(!has_match(b"hello", b"lol"));
    assert!(has_match_within(b"hello", b"ll", 2, 4));
    assert!(!has_match_within(b"hello", b"ll", 3, 5));
    assert!(!has_match_within(b"hello", b"ll", 2, 3));
    assert!(!has_match_within(b"hello", b"ll", 4, 2));
    assert!(has_match_within(b"hello", b"lo", 3, 9));
    assert!(!has_match_within(b"hello", b"lo", 4, 9));
}

#[test]
fn first_byte_search() {
    assert_eq!(find_byte_from(b"a>b>c", b'>', 0), Some(1));
    assert_eq!(find_byte_from(b"a>b>c", b'>', 1), Some(1));
    assert_eq!(find_byte_from(b"a>b>c", b'>', 2), Some(3));
    assert_eq!(find_byte_from(b"a>b>c", b'>', 4), None);
    assert_eq!(find_byte_from(b"a>b>c", b'>', 99), None);
    assert_eq!(find_byte_from(b"", 0, 0), None);
}

#[test]
fn ascii_case_folding() {
    assert_eq!(fold(b'A'), b'a');
    assert_eq!(fold(b'Z'), b'z');
    assert_eq!(fold(b'a'), b'a');
    assert_eq!(fold(b'@'), b'@');
    assert_eq!(fold(b'['), b'[');
    assert_eq!(fold(0xC9), 0xC9);
    assert!(eq_ignore_case(b"HtMl", b"html"));
    assert!(eq_ignore_case(b"", b""));
    assert!(!eq_ignore_case(b"html", b"htm"));
    assert!(!eq_ignore_case(b"@", b"`"));
}

#[test]
fn decimal_rendering() {
    assert_eq!(decimal(0), "0");
    assert_eq!(decimal(9), "9");
    assert_eq!(decimal(10), "10");
    assert_eq!(decimal(250), "250");
    assert_eq!(decimal(1234567890), "1234567890");
    assert_eq!(decimal(u64::MAX), "18446744073709551615");
}
