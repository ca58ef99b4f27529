use code_dump::collector::{banner, dump_entries, filter_candidates, section_head, FileEntry, ReadOutcome};
use code_dump::pattern::{parse_exclude_patterns, PatternSet};

const BANNER_LINE: &str = "//---------------------------------------------------\n";

fn text_entry(path: &str, content: &str) -> FileEntry {
    FileEntry { path: path.to_string(), outcome: ReadOutcome::Text(content.to_string()) }
}

#[test]
fn banner_is_the_exact_three_line_frame() {
    assert_eq!(
        banner("src/main.rs"),
        format!("{}// File: src/main.rs\n{}", BANNER_LINE, BANNER_LINE)
    );
}

#[test]
fn compact_head_is_the_exact_one_line_form() {
    assert_eq!(section_head("src/main.rs", false), "\n// File: src/main.rs\n");
    assert_eq!(section_head("src/main.rs", true), banner("src/main.rs"));
}

#[test]
fn dump_of_no_entries_is_empty() {
    let (out, count) = dump_entries(&Vec::new(), true);
    assert_eq!(out, "");
    assert_eq!(count, 0);
}

#[test]
fn text_entries_are_appended_in_order_with_trailing_newline() {
    let entries = vec![text_entry("a.txt", "hello"), text_entry("b.txt", "world")];
    let (out, count) = dump_entries(&entries, false);
    assert_eq!(out, "\n// File: a.txt\nhello\n\n// File: b.txt\nworld\n");
    assert_eq!(count, 2);
}

#[test]
fn binary_entry_is_skipped_without_counting_or_failing() {
    let entries = vec![
        text_entry("a.txt", "hello"),
        FileEntry { path: "b.bin".to_string(), outcome: ReadOutcome::Binary },
        text_entry("c.txt", "bye"),
    ];
    let (out, count) = dump_entries(&entries, false);
    assert_eq!(out, "\n// File: a.txt\nhello\n\n// File: c.txt\nbye\n");
    assert_eq!(count, 2);
}

#[test]
fn read_error_entry_is_skipped_without_counting_or_failing() {
    let entries = vec![
        FileEntry {
            path: "locked.txt".to_string(),
            outcome: ReadOutcome::ReadError("permission denied".to_string()),
        },
        text_entry("a.txt", "hello"),
    ];
    let (out, count) = dump_entries(&entries, true);
    assert_eq!(out, format!("{}// File: a.txt\n{}hello\n", BANNER_LINE, BANNER_LINE));
    assert_eq!(count, 1);
}

#[test]
fn one_text_file_scenario_yields_one_section_and_count_one() {
    // Root holding a.txt ("hello"), a binary b.bin suppressed by the ignore
    // file before it ever becomes an entry, and no exclusion spec.
    let set = parse_exclude_patterns(None).expect("absent spec must parse");
    let candidates = vec!["a.txt".to_string()];
    let kept = filter_candidates(&set, &candidates);
    assert_eq!(kept, vec!["a.txt".to_string()]);
    let entries = vec![text_entry("a.txt", "hello")];
    let (out, count) = dump_entries(&entries, true);
    assert_eq!(out, format!("{}// File: a.txt\n{}hello\n", BANNER_LINE, BANNER_LINE));
    assert_eq!(count, 1);
}

#[test]
fn exclusion_spec_scenario_keeps_only_the_unmatched_file() {
    let set = parse_exclude_patterns(Some("*.md,*.json".to_string())).expect("valid spec");
    let candidates =
        vec!["readme.md".to_string(), "data.json".to_string(), "main.rs".to_string()];
    let kept = filter_candidates(&set, &candidates);
    assert_eq!(kept, vec!["main.rs".to_string()]);
    let entries = vec![text_entry("main.rs", "fn main() {}")];
    let (out, count) = dump_entries(&entries, false);
    assert_eq!(out, "\n// File: main.rs\nfn main() {}\n");
    assert_eq!(count, 1);
}

#[test]
fn output_file_is_excluded_from_candidates() {
    let mut set = PatternSet::new();
    assert!(set.push_pattern("code_dump.txt"));
    let candidates = vec![
        "code_dump.txt".to_string(),
        "./code_dump.txt".to_string(),
        "a.txt".to_string(),
    ];
    let kept = filter_candidates(&set, &candidates);
    assert_eq!(kept, vec!["a.txt".to_string()]);
}

#[test]
fn identical_entries_render_identically() {
    let entries = vec![text_entry("a.txt", "hello"), text_entry("b.txt", "world")];
    let first = dump_entries(&entries, true);
    let second = dump_entries(&entries, true);
    assert_eq!(first, second);
}
