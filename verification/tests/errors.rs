use iso_code::WorktreeError;

#[test]
fn worktree_locked_no_reason() {
    let e = WorktreeError::WorktreeLocked { reason: None };
    assert_eq!(e.message(), "worktree is locked");
}

#[test]
fn worktree_locked_with_reason() {
    let e = WorktreeError::WorktreeLocked { reason: Some("in-flight build".into()) };
    assert_eq!(e.message(), "worktree is locked: in-flight build");
}

#[test]
fn worktree_path_exists_includes_path_and_hint() {
    let e = WorktreeError::WorktreePathExists("/Users/foo/mitd".to_string());
    let msg = e.message();
    assert!(msg.contains("/Users/foo/mitd"), "path missing from message");
    assert!(msg.contains("doesn't exist yet"), "recovery hint missing from message");
}

#[test]
fn unmerged_commits_message_counts_commits() {
    let e = WorktreeError::UnmergedCommits { branch: "feature".to_string(), commit_count: 3 };
    assert!(e.message().starts_with("unmerged commits on 'feature': 3"));
}

#[test]
fn circuit_breaker_message_counts_failures() {
    let e = WorktreeError::CircuitBreakerOpen { consecutive_failures: 4 };
    assert_eq!(e.message(), "circuit breaker open: 4 consecutive git failures");
}

#[test]
fn uncommitted_changes_message_lists_files() {
    let e = WorktreeError::UncommittedChanges { files: vec!["M a.txt".to_string(), "?? b".to_string()] };
    assert!(e.message().contains("[\"M a.txt\", \"?? b\"]"));
}
