use freighter::journal::{
    commit_record_line, error_crate_line, escape_json, journal_after_repair, parse_commit_line,
    parse_error_line, repair_names, ErrorCrate,
};

fn entry(name: &str, vers: &str, time: &str) -> ErrorCrate {
    ErrorCrate { name: name.to_string(), vers: vers.to_string(), time: time.to_string() }
}

#[test]
fn error_line_shape() {
    let line = error_crate_line(&entry("footool", "0.1.0", "1700000000"));
    assert_eq!(line, "{\"name\":\"footool\",\"vers\":\"0.1.0\",\"time\":\"1700000000\"}");
}

#[test]
fn error_line_round_trip() {
    let e = entry("foo-bar", "1.2.3+build", "1699999999");
    let line = error_crate_line(&e);
    let back = parse_error_line(&line).unwrap();
    assert_eq!(back.name, e.name);
    assert_eq!(back.vers, e.vers);
    assert_eq!(back.time, e.time);

    // escaped characters survive the trip
    let odd = entry("we\"ird", "0.0.1", "0");
    let line = error_crate_line(&odd);
    let back = parse_error_line(&line).unwrap();
    assert_eq!(back.name, "we\"ird");

    assert!(parse_error_line("not a journal line").is_none());
    assert!(parse_error_line("{\"name\":\"x\",\"vers\":\"1\",\"time\":\"2\"} trailing").is_none());
}

#[test]
fn escaping_quotes_and_backslashes() {
    assert_eq!(escape_json("plain"), "plain");
    assert_eq!(escape_json("a\"b"), "a\\\"b");
    assert_eq!(escape_json("a\\b"), "a\\\\b");
}

#[test]
fn repair_is_by_crate_not_by_version() {
    let entries = vec![
        entry("a", "0.1.0", "1"),
        entry("b", "0.1.0", "2"),
        entry("a", "0.2.0", "3"),
        entry("c", "1.0.0", "4"),
        entry("b", "0.3.0", "5"),
    ];
    let names = repair_names(&entries);
    assert_eq!(names, vec!["a".to_string(), "b".to_string(), "c".to_string()]);
}

#[test]
fn journal_is_empty_after_clean_repair() {
    // a repair pass with no new failures truncates the journal to nothing
    let no_failures: Vec<ErrorCrate> = Vec::new();
    assert!(journal_after_repair(&no_failures).is_empty());
    // one that fails again keeps exactly the new failures
    let failed = vec![entry("a", "0.1.0", "9")];
    let lines = journal_after_repair(&failed);
    assert_eq!(lines, vec!["{\"name\":\"a\",\"vers\":\"0.1.0\",\"time\":\"9\"}".to_string()]);
}

#[test]
fn commit_record_skips_unmoved_head() {
    // no line is written when the update went nowhere
    assert!(commit_record_line("abc123", "abc123", 1700000000).is_none());
    let line = commit_record_line("abc123", "def456", 1700000000).unwrap();
    assert_eq!(line, "abc123,def456,1700000000");
    let (from, to, secs) = parse_commit_line(&line).unwrap();
    assert_eq!(from, "abc123");
    assert_eq!(to, "def456");
    assert_eq!(secs, "1700000000");
    assert!(parse_commit_line("no separators here").is_none());
}
