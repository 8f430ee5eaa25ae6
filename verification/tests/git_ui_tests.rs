use berry_editor::git_ui::branch_manager::{self, can_delete, check_branch_name, head_marker};
use berry_editor::git_ui::commit_history::{commit_class, commit_time_text, first_line, CommitInfo};
use berry_editor::git_ui::diff_view::{
    column_class_suffix, column_lines, line_class, lineno_text, unified_class_suffix, DiffColumn, DiffHunk, DiffLine,
    DiffViewMode, FileDiff,
};
use berry_editor::git_ui::source_control_panel::{self, check_commit_message, files_by_stage, head_branch, FileStatus};

fn line(origin: char, content: &str, old: Option<u32>, new: Option<u32>) -> DiffLine {
    DiffLine { origin, content: content.to_string(), old_lineno: old, new_lineno: new }
}

#[test]
fn test_diff_line() {
    let line = DiffLine { origin: '+', content: "new line".to_string(), old_lineno: None, new_lineno: Some(10) };
    assert_eq!(line.origin, '+');
    assert_eq!(line.new_lineno, Some(10));
}

#[test]
fn test_diff_hunk() {
    let hunk = DiffHunk {
        old_start: 1,
        old_lines: 5,
        new_start: 1,
        new_lines: 6,
        header: "@@ -1,5 +1,6 @@".to_string(),
        lines: vec![],
    };
    assert_eq!(hunk.old_lines, 5);
    assert_eq!(hunk.new_lines, 6);
}

#[test]
fn test_file_diff() {
    let diff = FileDiff {
        old_path: Some("old.rs".to_string()),
        new_path: Some("new.rs".to_string()),
        status: "modified".to_string(),
        hunks: vec![],
    };
    assert_eq!(diff.status, "modified");
}

#[test]
fn test_file_status() {
    let status = FileStatus { path: "test.rs".to_string(), status: "modified".to_string(), is_staged: false };
    assert_eq!(status.path, "test.rs");
    assert!(!status.is_staged);
}

#[test]
fn test_branch_info() {
    let branch = source_control_panel::BranchInfo {
        name: "main".to_string(),
        is_head: true,
        upstream: Some("origin/main".to_string()),
    };
    assert!(branch.is_head);
    assert_eq!(branch.name, "main");
}

#[test]
fn test_branch_info_creation() {
    let branch = branch_manager::BranchInfo {
        name: "feature/test".to_string(),
        is_head: false,
        upstream: Some("origin/feature/test".to_string()),
        ahead: 2,
        behind: 1,
    };
    assert_eq!(branch.name, "feature/test");
    assert!(!branch.is_head);
    assert_eq!(branch.ahead, 2);
    assert_eq!(branch.behind, 1);
}

#[test]
fn test_commit_info_creation() {
    let commit = CommitInfo {
        hash: "abc123".to_string(),
        short_hash: "abc".to_string(),
        message: "Test commit".to_string(),
        author: "Test Author".to_string(),
        email: "test@example.com".to_string(),
        timestamp: 1234567890,
        parents: vec![],
    };
    assert_eq!(commit.hash, "abc123");
    assert_eq!(commit.short_hash, "abc");
}

#[test]
fn diff_columns_split_added_and_removed_lines() {
    let lines = vec![
        line(' ', "a", Some(1), Some(1)),
        line('-', "b", Some(2), None),
        line('+', "c", None, Some(2)),
        line(' ', "d", Some(3), Some(3)),
    ];
    assert_eq!(column_lines(&lines, DiffColumn::Old), vec![0, 1, 3]);
    assert_eq!(column_lines(&lines, DiffColumn::New), vec![0, 2, 3]);
    assert_eq!(column_class_suffix('-', DiffColumn::Old), "removed");
    assert_eq!(column_class_suffix('+', DiffColumn::New), "added");
    assert_eq!(column_class_suffix(' ', DiffColumn::Old), "context");
    assert_eq!(unified_class_suffix('+'), "added");
    assert_eq!(unified_class_suffix('-'), "removed");
    assert_eq!(unified_class_suffix(' '), "context");
    assert_eq!(line_class("added"), "berry-diff-line berry-diff-line-added");
    assert_eq!(lineno_text(Some(42)), "42");
    assert_eq!(lineno_text(None), "");
    assert_ne!(DiffViewMode::SideBySide, DiffViewMode::Unified);
}

#[test]
fn source_control_partitions_and_checks() {
    let files = vec![
        FileStatus { path: "a".to_string(), status: "M".to_string(), is_staged: true },
        FileStatus { path: "b".to_string(), status: "A".to_string(), is_staged: false },
        FileStatus { path: "c".to_string(), status: "D".to_string(), is_staged: true },
    ];
    assert_eq!(files_by_stage(&files, true), vec![0, 2]);
    assert_eq!(files_by_stage(&files, false), vec![1]);
    assert_eq!(check_commit_message(""), Err("Commit message cannot be empty".to_string()));
    assert_eq!(check_commit_message("fix"), Ok(()));
    let branches = vec![
        source_control_panel::BranchInfo { name: "dev".to_string(), is_head: false, upstream: None },
        source_control_panel::BranchInfo { name: "main".to_string(), is_head: true, upstream: None },
    ];
    assert_eq!(head_branch(&branches), Some(1));
    assert_eq!(head_branch(&branches[..1].to_vec()), None);
}

#[test]
fn branch_manager_decisions() {
    assert_eq!(check_branch_name(""), Err("Branch name cannot be empty".to_string()));
    assert_eq!(check_branch_name("feature"), Ok(()));
    assert_eq!(head_marker(true), "* ");
    assert_eq!(head_marker(false), "  ");
    let b = branch_manager::BranchInfo { name: "x".to_string(), is_head: true, upstream: None, ahead: 0, behind: 0 };
    assert!(!can_delete(&b));
}

#[test]
fn commit_display() {
    assert_eq!(commit_class(true), "berry-commit-item berry-commit-item-selected");
    assert_eq!(commit_class(false), "berry-commit-item");
    assert_eq!(first_line("Fix bug\n\nDetails here"), "Fix bug");
    assert_eq!(first_line(""), "");
    assert_eq!(commit_time_text(0), "1970-01-01 00:00");
    assert_eq!(commit_time_text(1234567890), "2009-02-13 23:31");
}

#[test]
fn commit_times_before_the_epoch() {
    assert_eq!(commit_time_text(-60), "1969-12-31 23:59");
    assert_eq!(commit_time_text(-8334601228800), "-262143-01-01 00:00");
    assert_ne!(commit_time_text(-8334601228801), "-262144-12-31 23:59");
    assert_eq!(commit_time_text(8210266876799), "+262142-12-31 23:59");
}
