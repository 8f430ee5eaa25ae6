use berry_editor::git::{ChangeType, FileDiff, GitDiffTracker, LineChange};

#[test]
fn test_parse_unified_diff() {
    let diff = "@@ -1,3 +1,4 @@
 unchanged line
-old line
+new line
+added line
 another unchanged";
    let file_diff = GitDiffTracker::parse_unified_diff(diff, "test.rs".to_string());
    assert!(file_diff.has_changes());
    assert_eq!(file_diff.changes.len(), 3);
}

#[test]
fn parsed_changes_in_detail() {
    let diff = "--- a/x.rs\n+++ b/x.rs\n@@ -10,2 +12,3 @@ fn x()\n ctx\n-gone\n+one\n+two\n@@ -40 + 50 @@\n+last";
    let d = GitDiffTracker::parse_unified_diff(diff, "x.rs".to_string());
    assert_eq!(d.file_path, "x.rs");
    assert_eq!(d.changes.len(), 4);
    assert_eq!(d.changes[0].line_number, 13);
    assert_eq!(d.changes[0].change_type, ChangeType::Deleted);
    assert_eq!(d.changes[0].old_content, Some("gone".to_string()));
    assert_eq!(d.changes[1].line_number, 13);
    assert_eq!(d.changes[1].change_type, ChangeType::Added);
    assert_eq!(d.changes[2].line_number, 14);
    assert_eq!(d.changes[3].line_number, 15);
}

#[test]
fn lines_before_a_hunk_are_skipped() {
    let d = GitDiffTracker::parse_unified_diff("+not in a hunk\n-neither\n@@ bad header @@\n+still not", "f".to_string());
    assert!(!d.has_changes());
}

#[test]
fn test_change_type_colors() {
    assert_eq!(ChangeType::Added.gutter_color(), "#587c0c");
    assert_eq!(ChangeType::Modified.gutter_color(), "#0c7d9d");
    assert_eq!(ChangeType::Deleted.gutter_color(), "#94151b");
    assert_eq!(ChangeType::Added.gutter_indicator(), "▎");
    assert_eq!(ChangeType::Deleted.gutter_indicator(), "▼");
}

#[test]
fn test_line_change_creation() {
    let change = LineChange::new(42, ChangeType::Modified);
    assert_eq!(change.line_number, 42);
    assert_eq!(change.change_type, ChangeType::Modified);
    assert!(change.old_content.is_none());
    let change_with_content = LineChange::with_old_content(42, ChangeType::Deleted, "old content".to_string());
    assert!(change_with_content.old_content.is_some());
}

#[test]
fn test_file_diff_operations() {
    let mut diff = FileDiff::new("test.rs".to_string());
    assert!(!diff.has_changes());
    diff.add_change(LineChange::new(10, ChangeType::Added));
    assert!(diff.has_changes());
    let change = diff.get_change_at_line(10);
    assert!(change.is_some());
    assert_eq!(change.unwrap().change_type, ChangeType::Added);
    let no_change = diff.get_change_at_line(20);
    assert!(no_change.is_none());
}

#[test]
fn tracker_caches_by_path() {
    let mut tracker = GitDiffTracker::new();
    assert!(tracker.get_cached_diff("a.rs").is_none());
    assert_eq!(tracker.current_file(), None);
    tracker.store_diff("a.rs".to_string(), FileDiff::new("a.rs".to_string()));
    let mut b = FileDiff::new("b.rs".to_string());
    b.add_change(LineChange::new(1, ChangeType::Added));
    tracker.store_diff("b.rs".to_string(), b);
    assert_eq!(tracker.current_file(), Some("b.rs"));
    assert_eq!(tracker.get_changed_files(), vec!["a.rs".to_string(), "b.rs".to_string()]);
    assert!(tracker.get_cached_diff("b.rs").unwrap().has_changes());
    tracker.store_diff("a.rs".to_string(), FileDiff::new("a.rs".to_string()));
    assert_eq!(tracker.get_changed_files().len(), 2);
    tracker.forget_diff("a.rs");
    assert_eq!(tracker.get_changed_files(), vec!["b.rs".to_string()]);
    tracker.clear_cache();
    assert!(tracker.get_changed_files().is_empty());
    assert_eq!(tracker.current_file(), Some("a.rs"));
}
