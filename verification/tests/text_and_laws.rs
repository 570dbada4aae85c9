use anki_cli::common::preview;
use anki_cli::tags::edit_tags;
use anki_cli::text::{decimal_string, join_strings, signed_string};

fn strings(v: &[&str]) -> Vec<String> {
    v.iter().map(|s| s.to_string()).collect()
}

#[test]
fn decimal_formatting() {
    assert_eq!(decimal_string(0), "0");
    assert_eq!(decimal_string(10), "10");
    assert_eq!(decimal_string(1234567890), "1234567890");
    assert_eq!(signed_string(-1), "-1");
    assert_eq!(signed_string(0), "0");
    assert_eq!(signed_string(i64::MIN), "-9223372036854775808");
    assert_eq!(signed_string(i64::MAX), "9223372036854775807");
}

#[test]
fn joining() {
    assert_eq!(join_strings(&strings(&["a", "b", "c"]), ", "), "a, b, c");
    assert_eq!(join_strings(&strings(&["a"]), ", "), "a");
    assert_eq!(join_strings(&[], ", "), "");
    assert_eq!(join_strings(&strings(&["", ""]), "-"), "-");
}

#[test]
fn preview_never_exceeds_limit_plus_one() {
    let text = "line one\nline two\nline three";
    for max in 0..40 {
        let p = preview(text, max);
        assert!(p.chars().count() <= max + 1);
        assert!(!p.contains('\n'));
    }
    assert_eq!(preview(text, 100), "line one line two line three");
}

#[test]
fn edit_keeps_distinct_tags_distinct() {
    let mut tags = strings(&["a", "B"]);
    edit_tags(&mut tags, strings(&["b", "A", "c", "C"]), &strings(&["x"]));
    assert_eq!(tags, strings(&["a", "B", "c"]));
    let lowered: Vec<String> = tags.iter().map(|t| t.to_ascii_lowercase()).collect();
    for i in 0..lowered.len() {
        for j in (i + 1)..lowered.len() {
            assert_ne!(lowered[i], lowered[j]);
        }
    }
}

#[test]
fn edit_removed_tags_are_gone_and_added_present() {
    let mut tags = strings(&["Keep", "drop", "DROP"]);
    edit_tags(&mut tags, strings(&["Drop", "new"]), &strings(&["drOP"]));
    assert_eq!(tags, strings(&["Keep", "new"]));
}
