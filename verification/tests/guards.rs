use iso_code::guards::{
    active_worktree_count, check_branch_not_checked_out, check_disk_space, check_git_crypt, check_no_uncommitted_changes,
    check_not_cwd, check_not_locked, check_not_nested_worktree, check_not_network_filesystem,
    check_not_network_junction_target, check_not_wsl_cross_boundary, check_path_not_exists, check_total_disk_usage,
    check_worktree_count, crypt_key_path, filesystem_capacity_bytes, is_bare_repo_output, is_network_filesystem,
    is_submodule_output, DiskInfo, PlacedWorktree,
};
use iso_code::{GitCryptStatus, WorktreeError, WorktreeHandle, WorktreeState};

fn handle(path: &str, branch: &str, state: WorktreeState) -> WorktreeHandle {
    WorktreeHandle::new(
        path.to_string(),
        branch.to_string(),
        String::new(),
        state,
        String::new(),
        0,
        String::new(),
        None,
        false,
        None,
        String::new(),
    )
}

#[test]
fn test_check_worktree_count_under_limit() {
    assert!(check_worktree_count(5, 20).is_ok());
}

#[test]
fn test_check_worktree_count_at_limit() {
    let result = check_worktree_count(20, 20);
    assert!(result.is_err());
    assert!(matches!(result.unwrap_err(), WorktreeError::RateLimitExceeded { current: 20, max: 20 }));
}

#[test]
fn test_check_path_not_exists_ok() {
    let path = "/tmp/definitely_not_exists_iso_test_1234567890";
    assert!(check_path_not_exists(path, std::path::Path::new(path).exists()).is_ok());
}

#[test]
fn test_check_path_not_exists_fails() {
    let path = "/tmp";
    let result = check_path_not_exists(path, std::path::Path::new(path).exists());
    assert!(result.is_err());
    assert!(matches!(result.unwrap_err(), WorktreeError::WorktreePathExists(_)));
}

#[test]
fn test_check_not_nested_no_worktrees() {
    let result = check_not_nested_worktree("/tmp/test", "/some/repo", &vec![]);
    assert!(result.is_ok());
}

#[test]
fn test_check_not_nested_candidate_inside_existing() {
    let existing = vec![PlacedWorktree { path: "/tmp".to_string(), canonical: "/tmp".to_string() }];
    let result = check_not_nested_worktree("/tmp/nested/wt", "/some/other/repo", &existing);
    match result {
        Err(WorktreeError::NestedWorktree { parent }) => assert_eq!(parent, "/tmp"),
        other => panic!("expected NestedWorktree, got {other:?}"),
    }
}

#[test]
fn nested_existing_inside_candidate_names_candidate() {
    let existing = vec![PlacedWorktree { path: "wt".to_string(), canonical: "/work/a/b".to_string() }];
    match check_not_nested_worktree("/work/a", "/repo", &existing) {
        Err(WorktreeError::NestedWorktree { parent }) => assert_eq!(parent, "/work/a"),
        other => panic!("expected NestedWorktree, got {other:?}"),
    }
}

#[test]
fn nesting_compares_whole_components_and_skips_repo_root() {
    let existing = vec![
        PlacedWorktree { path: "/repo".to_string(), canonical: "/repo".to_string() },
        PlacedWorktree { path: "/work/app".to_string(), canonical: "/work/app".to_string() },
    ];
    assert!(check_not_nested_worktree("/repo/wt", "/repo", &existing).is_ok());
    assert!(check_not_nested_worktree("/work/application", "/repo", &existing).is_ok());
}

#[test]
fn test_check_not_locked_active() {
    let h = handle("/tmp/wt", "test", WorktreeState::Active);
    assert!(check_not_locked(&h).is_ok());
}

#[test]
fn test_check_not_locked_locked() {
    let h = handle("/tmp/wt", "test", WorktreeState::Locked);
    let result = check_not_locked(&h);
    assert!(result.is_err());
    assert!(matches!(result.unwrap_err(), WorktreeError::WorktreeLocked { .. }));
}

#[test]
fn test_check_total_disk_usage_no_limit() {
    let result = check_total_disk_usage(0, None, None, None);
    assert!(result.is_ok());
}

#[test]
fn total_disk_usage_limits() {
    assert!(matches!(
        check_total_disk_usage(2_000, Some(1_000), None, None),
        Err(WorktreeError::AggregateDiskLimitExceeded)
    ));
    assert!(check_total_disk_usage(1_000, Some(1_000), None, None).is_ok());
    assert!(matches!(
        check_total_disk_usage(91, None, Some(90), Some(100)),
        Err(WorktreeError::AggregateDiskLimitExceeded)
    ));
    assert!(check_total_disk_usage(90, None, Some(90), Some(100)).is_ok());
    assert!(check_total_disk_usage(u64::MAX, None, Some(90), Some(0)).is_ok());
    assert!(check_total_disk_usage(u64::MAX / 100, None, Some(100), Some(u64::MAX)).is_ok());
    assert!(check_total_disk_usage(u64::MAX / 100 + 1, None, Some(100), Some(u64::MAX)).is_err());
}

#[test]
fn branch_checked_out_names_worktree() {
    let ws = vec![handle("/r", "main", WorktreeState::Active), handle("/r-f", "feature", WorktreeState::Active)];
    assert!(check_branch_not_checked_out(&ws, "other").is_ok());
    match check_branch_not_checked_out(&ws, "feature") {
        Err(WorktreeError::BranchAlreadyCheckedOut { branch, worktree }) => {
            assert_eq!(branch, "feature");
            assert_eq!(worktree, "/r-f");
        }
        other => panic!("unexpected {other:?}"),
    }
}

#[test]
fn slot_count_skips_dead_worktrees() {
    let ws = vec![
        handle("/a", "a", WorktreeState::Active),
        handle("/b", "b", WorktreeState::Locked),
        handle("/c", "c", WorktreeState::Orphaned),
        handle("/d", "d", WorktreeState::Broken),
        handle("/e", "e", WorktreeState::Deleted),
        handle("/f", "f", WorktreeState::Creating),
    ];
    assert_eq!(active_worktree_count(&ws), 3);
}

#[test]
fn disk_space_uses_longest_mount() {
    let disks = vec![
        DiskInfo { mount_point: "/".to_string(), available_space: 10 << 30, total_space: 100 << 30 },
        DiskInfo { mount_point: "/data".to_string(), available_space: 100 << 20, total_space: 1 << 30 },
    ];
    assert!(check_disk_space("/home/u/wt", &disks, 500).is_ok());
    match check_disk_space("/data/wt", &disks, 500) {
        Err(WorktreeError::DiskSpaceLow { available_mb, required_mb }) => {
            assert_eq!(available_mb, 100);
            assert_eq!(required_mb, 500);
        }
        other => panic!("unexpected {other:?}"),
    }
    assert!(check_disk_space("/data/wt", &vec![], 500).is_ok());
    assert_eq!(filesystem_capacity_bytes("/data/x", &disks), Some(1 << 30));
    assert_eq!(filesystem_capacity_bytes("/elsewhere", &disks[1..].to_vec()), None);
}

#[test]
fn network_filesystem_from_mount_table() {
    let mounts = "/dev/sda1 / ext4 rw 0 0\nserver:/export /mnt/nfs nfs4 rw 0 0\n";
    assert!(check_not_network_filesystem("/home/u/wt", mounts).is_ok());
    match check_not_network_filesystem("/mnt/nfs/wt", mounts) {
        Err(WorktreeError::NetworkFilesystem { mount_point }) => assert_eq!(mount_point, "/mnt/nfs"),
        other => panic!("unexpected {other:?}"),
    }
    assert!(is_network_filesystem("/mnt/nfs/state", mounts));
    assert!(!is_network_filesystem("/home/u/state", mounts));
}

#[test]
fn wsl_boundary() {
    let wsl = Some("Linux version 5.15.90.1-microsoft-standard-WSL2");
    assert!(matches!(
        check_not_wsl_cross_boundary("/mnt/c/repo", "/home/u/wt", wsl),
        Err(WorktreeError::WslCrossBoundary)
    ));
    assert!(check_not_wsl_cross_boundary("/mnt/c/repo", "/mnt/c/wt", wsl).is_ok());
    assert!(check_not_wsl_cross_boundary("/mnt/c/repo", "/home/u/wt", Some("Linux version 6.1 generic")).is_ok());
    assert!(check_not_wsl_cross_boundary("/mnt/c/repo", "/home/u/wt", None).is_ok());
}

#[test]
fn git_probe_outputs() {
    assert!(is_bare_repo_output(true, b"true\n"));
    assert!(!is_bare_repo_output(true, b"false\n"));
    assert!(!is_bare_repo_output(false, b"true\n"));
    assert!(is_submodule_output(true, b"/super/project\n"));
    assert!(!is_submodule_output(true, b"  \n"));
}

#[test]
fn junction_target_checks() {
    assert!(matches!(
        check_not_network_junction_target(r"\\server\share\wt"),
        Err(WorktreeError::NetworkJunctionTarget { .. })
    ));
    assert!(check_not_network_junction_target(r"\\?\C:\wt").is_ok());
    assert!(check_not_network_junction_target(r"C:\wt").is_ok());
}

#[test]
fn git_crypt_status_decisions() {
    assert_eq!(check_git_crypt(None, false, false), GitCryptStatus::NotUsed);
    assert_eq!(check_git_crypt(Some("*.md text\n"), false, false), GitCryptStatus::NotUsed);
    let attrs = "secret/** filter=git-crypt diff=git-crypt\n";
    assert_eq!(check_git_crypt(Some(attrs), false, false), GitCryptStatus::LockedNoKey);
    assert_eq!(check_git_crypt(Some(attrs), true, true), GitCryptStatus::Locked);
    assert_eq!(check_git_crypt(Some(attrs), true, false), GitCryptStatus::Unlocked);
    assert_eq!(crypt_key_path("/repo", b".git\n"), "/repo/.git/git-crypt/keys/default");
    assert_eq!(crypt_key_path("/repo", b"/abs/gitdir\n"), "/abs/gitdir/git-crypt/keys/default");
}

#[test]
fn pre_delete_guards() {
    assert!(matches!(check_not_cwd("/work/wt", Some("/work/wt/src")), Err(WorktreeError::CannotDeleteCwd)));
    assert!(check_not_cwd("/work/wt", Some("/work/other")).is_ok());
    assert!(check_not_cwd("/work/wt", None).is_ok());
    match check_no_uncommitted_changes(true, b" M a.txt\n\n?? b.txt\n") {
        Err(WorktreeError::UncommittedChanges { files }) => assert_eq!(files, vec![" M a.txt", "?? b.txt"]),
        other => panic!("unexpected {other:?}"),
    }
    assert!(check_no_uncommitted_changes(true, b"").is_ok());
    assert!(check_no_uncommitted_changes(false, b" M a.txt\n").is_ok());
}

fn system_disks() -> Vec<DiskInfo> {
    let disks = sysinfo::Disks::new_with_refreshed_list();
    disks
        .list()
        .iter()
        .map(|d| DiskInfo {
            mount_point: d.mount_point().to_string_lossy().into_owned(),
            available_space: d.available_space(),
            total_space: d.total_space(),
        })
        .collect()
}

#[test]
fn test_check_disk_space_permissive() {
    let result = check_disk_space("/tmp", &system_disks(), 1);
    assert!(result.is_ok());
}

#[test]
fn test_check_disk_space_huge_requirement() {
    let result = check_disk_space("/tmp", &system_disks(), 999_000_000);
    assert!(result.is_err());
    assert!(matches!(result.unwrap_err(), WorktreeError::DiskSpaceLow { .. }));
}

#[test]
fn test_check_bare_repo_not_bare() {
    assert!(!is_bare_repo_output(true, b"false\n"));
}

#[test]
fn test_check_submodule_not_submodule() {
    assert!(!is_submodule_output(true, b"\n"));
}

#[test]
fn test_check_git_crypt_not_used() {
    assert_eq!(check_git_crypt(None, false, false), GitCryptStatus::NotUsed);
}

#[test]
fn test_check_branch_not_checked_out_ok() {
    let listed = vec![handle("/repo", "main", WorktreeState::Active)];
    assert!(check_branch_not_checked_out(&listed, "definitely-nonexistent-branch-xyz-123").is_ok());
}
