use code_dump::error::CodeDumpError;
use code_dump::pattern::{parse_exclude_patterns, strip_dot_slash, PatternSet};

#[test]
fn parse_absent_spec_gives_empty_set() {
    let set = parse_exclude_patterns(None).expect("absent spec must parse");
    assert_eq!(set.len(), 0);
}

#[test]
fn parse_then_matches_accepts_iff_some_pattern_matches() {
    let set = parse_exclude_patterns(Some("*.md,*.json".to_string())).expect("valid spec");
    assert_eq!(set.len(), 2);
    assert!(set.matches("readme.md"));
    assert!(set.matches("data.json"));
    assert!(!set.matches("main.rs"));
}

#[test]
fn matching_normalizes_leading_dot_slash() {
    let set = parse_exclude_patterns(Some("*.md".to_string())).expect("valid spec");
    assert!(set.matches("readme.md"));
    assert!(set.matches("./readme.md"));
    assert!(!set.matches("./readme.txt"));
}

#[test]
fn segments_are_trimmed_before_compiling() {
    let set = parse_exclude_patterns(Some(" *.md , *.json ".to_string())).expect("valid spec");
    assert!(set.matches("readme.md"));
    assert!(set.matches("data.json"));
    assert!(!set.matches("main.rs"));
}

#[test]
fn character_classes_match_as_globs() {
    let set = parse_exclude_patterns(Some("[ab].txt".to_string())).expect("valid spec");
    assert!(set.matches("a.txt"));
    assert!(set.matches("b.txt"));
    assert!(!set.matches("c.txt"));
    assert!(!set.matches("[ab].txt"));
}

#[test]
fn invalid_segment_fails_with_that_segment_only() {
    let err = parse_exclude_patterns(Some("*.md,[abc,*.json".to_string()))
        .expect_err("unbalanced class must fail");
    match err {
        CodeDumpError::Pattern(text) => assert_eq!(text, "[abc"),
        CodeDumpError::Io(_) => panic!("a pattern failure must not be reported as I/O"),
    }
}

#[test]
fn invalid_segment_is_reported_trimmed() {
    let err = parse_exclude_patterns(Some("*.rs,  [abc  ".to_string()))
        .expect_err("unbalanced class must fail");
    match err {
        CodeDumpError::Pattern(text) => assert_eq!(text, "[abc"),
        CodeDumpError::Io(_) => panic!("a pattern failure must not be reported as I/O"),
    }
}

#[test]
fn push_pattern_accepts_valid_and_rejects_invalid() {
    let mut set = PatternSet::new();
    assert!(set.push_pattern("code_dump.txt"));
    assert_eq!(set.len(), 1);
    assert!(set.matches("code_dump.txt"));
    assert!(!set.push_pattern("[abc"));
    assert_eq!(set.len(), 1);
}

#[test]
fn strip_dot_slash_strips_one_prefix() {
    assert_eq!(strip_dot_slash("./a.txt"), "a.txt");
    assert_eq!(strip_dot_slash("a.txt"), "a.txt");
    assert_eq!(strip_dot_slash("dir/./a.txt"), "dir/./a.txt");
    assert_eq!(strip_dot_slash("./"), "");
}

#[test]
fn io_errors_convert_to_the_io_variant() {
    let io_err = std::io::Error::new(std::io::ErrorKind::PermissionDenied, "no");
    match CodeDumpError::from(io_err) {
        CodeDumpError::Io(err) => assert_eq!(err.kind(), std::io::ErrorKind::PermissionDenied),
        CodeDumpError::Pattern(_) => panic!("an I/O error must not become a pattern error"),
    }
}
