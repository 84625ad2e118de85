use nextaudit::config::{Config, Thresholds};
use nextaudit::rules::{run_all, ScanError};
use nextaudit::tree::Entry;

fn dir(depth: usize, name: &str, path: &str) -> Entry {
    Entry {
        depth,
        name: Some(name.to_string()),
        is_dir: true,
        is_file: false,
        path: path.to_string(),
        ext: String::new(),
        size: Some(4096),
        bytes: None,
    }
}

fn file(depth: usize, name: &str, path: &str, ext: &str, content: &[u8]) -> Entry {
    Entry {
        depth,
        name: Some(name.to_string()),
        is_dir: false,
        is_file: true,
        path: path.to_string(),
        ext: ext.to_string(),
        size: Some(content.len() as u64),
        bytes: Some(content.to_vec()),
    }
}

#[test]
fn test_html_missing_viewport() {
    let listing = vec![
        dir(0, "proj", "proj"),
        file(1, "test.html", "proj/test.html", "html", b"<html><head></head><body></body></html>"),
    ];
    let config = Config::default();
    let issues = run_all(&listing, &config).unwrap();
    assert!(issues.iter().any(|i| i.id == "a11y::viewport_missing"));
}

#[test]
fn test_img_missing_alt() {
    let listing = vec![
        dir(0, "proj", "proj"),
        file(1, "test.html", "proj/test.html", "html", b"<img src='foo.png'>"),
    ];
    let config = Config::default();
    let issues = run_all(&listing, &config).unwrap();
    assert!(issues.iter().any(|i| i.id == "a11y::img_missing_alt"));
}

#[test]
fn test_large_js_file() {
    let big_content = "a".repeat(250 * 1024); // 250 KB
    let listing = vec![
        dir(0, "proj", "proj"),
        file(1, "big.js", "proj/big.js", "js", big_content.as_bytes()),
    ];
    let mut config = Config::default();
    config.thresholds = Some(Thresholds { large_file_kb: Some(200) });
    let issues = run_all(&listing, &config).unwrap();
    assert!(issues.iter().any(|i| i.id == "perf::large_file"));
}

#[test]
fn test_ignore_dir() {
    let listing = vec![
        dir(0, "proj", "proj"),
        dir(1, "node_modules", "proj/node_modules"),
        file(2, "foo.js", "proj/node_modules/foo.js", "js", b"dangerouslySetInnerHTML"),
    ];
    let mut config = Config::default();
    config.ignore = Some(vec!["node_modules".to_string()]);
    let issues = run_all(&listing, &config).unwrap();
    assert!(!issues.iter().any(|i| i.id == "sec::dangerous_html"));
}

fn ids(issues: &[nextaudit::Issue]) -> Vec<String> {
    issues.iter().map(|i| i.id.clone()).collect()
}

#[test]
fn rules_test_html_missing_viewport() {
    let listing = vec![
        dir(0, "proj", "proj"),
        file(1, "test.html", "proj/test.html", "html", b"<html><head></head><body></body></html>"),
    ];
    let issues = run_all(&listing, &Config::default()).unwrap();
    assert!(issues.iter().any(|i| i.id == "a11y::viewport_missing"));
    assert_eq!(ids(&issues), vec!["a11y::viewport_missing".to_string()]);
    assert_eq!(issues[0].message, "proj/test.html: missing <meta name=\"viewport\">");
}

#[test]
fn rules_test_img_missing_alt() {
    let listing = vec![
        dir(0, "proj", "proj"),
        file(1, "test.html", "proj/test.html", "html", b"<img src='foo.png'>"),
    ];
    let issues = run_all(&listing, &Config::default()).unwrap();
    assert!(issues.iter().any(|i| i.id == "a11y::img_missing_alt"));
    assert_eq!(
        ids(&issues),
        vec!["a11y::viewport_missing".to_string(), "a11y::img_missing_alt".to_string()]
    );
}

#[test]
fn rules_test_large_js_file() {
    let big_content = "a".repeat(250 * 1024);
    let listing = vec![
        dir(0, "proj", "proj"),
        file(1, "big.js", "proj/big.js", "js", big_content.as_bytes()),
    ];
    let mut config = Config::default();
    config.thresholds = Some(Thresholds { large_file_kb: Some(200) });
    let issues = run_all(&listing, &config).unwrap();
    assert!(issues.iter().any(|i| i.id == "perf::large_file"));
    assert_eq!(issues.len(), 1);
    assert_eq!(issues[0].message, "proj/big.js: large file (~250 KB)");
}

#[test]
fn rules_test_ignore_dir() {
    let listing = vec![
        dir(0, "proj", "proj"),
        dir(1, "node_modules", "proj/node_modules"),
        file(2, "foo.js", "proj/node_modules/foo.js", "js", b"dangerouslySetInnerHTML"),
    ];
    let mut config = Config::default();
    config.ignore = Some(vec!["node_modules".to_string()]);
    let issues = run_all(&listing, &config).unwrap();
    assert!(!issues.iter().any(|i| i.id == "sec::dangerous_html"));
    assert!(issues.is_empty());
}

#[test]
fn unlisted_directory_is_scanned() {
    let listing = vec![
        dir(0, "proj", "proj"),
        dir(1, "node_modules", "proj/node_modules"),
        file(2, "foo.js", "proj/node_modules/foo.js", "js", b"dangerouslySetInnerHTML"),
    ];
    let mut config = Config::default();
    config.ignore = Some(vec!["dist".to_string()]);
    let issues = run_all(&listing, &config).unwrap();
    assert_eq!(ids(&issues), vec!["sec::dangerous_html".to_string()]);
    assert_eq!(
        issues[0].message,
        "proj/node_modules/foo.js: usage of dangerouslySetInnerHTML (possible XSS)"
    );
}

#[test]
fn findings_of_files_come_in_listing_order() {
    let listing = vec![
        dir(0, "proj", "proj"),
        file(1, "a.html", "proj/a.html", "html", b"<p>"),
        dir(1, "src", "proj/src"),
        file(2, "b.txt", "proj/src/b.txt", "txt", b"dangerouslySetInnerHTML"),
        file(1, "c.htm", "proj/c.htm", "htm", b"<img>"),
    ];
    let issues = run_all(&listing, &Config::default()).unwrap();
    let messages: Vec<String> = issues.iter().map(|i| i.message.clone()).collect();
    assert_eq!(
        messages,
        vec![
            "proj/a.html: missing <meta name=\"viewport\">".to_string(),
            "proj/src/b.txt: usage of dangerouslySetInnerHTML (possible XSS)".to_string(),
            "proj/c.htm: missing <meta name=\"viewport\">".to_string(),
            "proj/c.htm: <img> tag without alt attribute".to_string(),
        ]
    );
}

#[test]
fn unreadable_file_adds_nothing_to_the_scan() {
    let mut locked = file(1, "a.html", "proj/a.html", "html", b"");
    locked.bytes = None;
    let listing = vec![
        dir(0, "proj", "proj"),
        locked,
        file(1, "b.html", "proj/b.html", "html", b"x"),
    ];
    let issues = run_all(&listing, &Config::default()).unwrap();
    assert_eq!(issues.len(), 1);
    assert_eq!(issues[0].message, "proj/b.html: missing <meta name=\"viewport\">");
}

#[test]
fn missing_root_is_fatal() {
    let listing: Vec<Entry> = Vec::new();
    assert_eq!(run_all(&listing, &Config::default()), Err(ScanError::RootMissing));
}

#[test]
fn root_that_is_no_directory_is_fatal() {
    let listing = vec![file(0, "a.html", "a.html", "html", b"<img>")];
    assert_eq!(run_all(&listing, &Config::default()), Err(ScanError::RootNotDirectory));
    let mut odd = dir(0, "proj", "proj");
    odd.is_dir = false;
    let listing = vec![odd, file(1, "a.html", "proj/a.html", "html", b"<img>")];
    assert_eq!(run_all(&listing, &Config::default()), Err(ScanError::RootNotDirectory));
}

#[test]
fn empty_project_gives_no_issue() {
    let listing = vec![dir(0, "proj", "proj")];
    assert_eq!(run_all(&listing, &Config::default()), Ok(Vec::new()));
}
