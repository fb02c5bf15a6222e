use iso_code::git::{capabilities_from_version_output, detect_capabilities, parse_git_version, parse_worktree_list_porcelain};
use iso_code::{GitVersion, WorktreeError, WorktreeState};

#[test]
fn qa_v_001_list_nul_falls_back_below_236() {
    let v = parse_git_version("git version 2.35.1\n").unwrap();
    let caps = detect_capabilities(&v);
    assert!(!caps.has_list_nul, "2.35 must not advertise -z support");
}

#[test]
fn qa_v_002_repair_skipped_below_230() {
    let v229 = parse_git_version("git version 2.29.0\n").unwrap();
    assert!(!detect_capabilities(&v229).has_repair);
    let v230 = parse_git_version("git version 2.30.0\n").unwrap();
    assert!(detect_capabilities(&v230).has_repair);
}

#[test]
fn qa_v_003_orphan_branch_requires_242() {
    let v241 = parse_git_version("git version 2.41.0\n").unwrap();
    assert!(!detect_capabilities(&v241).has_orphan);
    let v242 = parse_git_version("git version 2.42.0\n").unwrap();
    assert!(detect_capabilities(&v242).has_orphan);
}

#[test]
fn qa_v_004_relative_paths_requires_248() {
    let v247 = parse_git_version("git version 2.47.2\n").unwrap();
    assert!(!detect_capabilities(&v247).has_relative_paths);
    let v248 = parse_git_version("git version 2.48.0\n").unwrap();
    assert!(detect_capabilities(&v248).has_relative_paths);
}

#[test]
fn qa_v_005_merge_tree_write_requires_238() {
    let v237 = parse_git_version("git version 2.37.4\n").unwrap();
    assert!(!detect_capabilities(&v237).has_merge_tree_write);
    let v238 = parse_git_version("git version 2.38.0\n").unwrap();
    assert!(detect_capabilities(&v238).has_merge_tree_write);
}

#[test]
fn qa_v_006_locked_prunable_absent_below_231() {
    let output = b"worktree /tmp/wt\nHEAD aaaaaaaaaaaaaaaaaaaaaaaaaaaaaaaaaaaaaaaa\nbranch refs/heads/main\n\n";
    let handles = parse_worktree_list_porcelain(output, false).unwrap();
    assert_eq!(handles.len(), 1);
    assert_eq!(handles[0].state, WorktreeState::Active);
}

#[test]
fn qa_v_007_lock_flag_is_always_present_on_supported_versions() {
    let minimum = GitVersion::MINIMUM();
    let flag_introduced = GitVersion { major: 2, minor: 17, patch: 0 };
    assert!(minimum >= flag_introduced, "--lock flag must be present at our hard minimum");
}

#[test]
fn qa_v_008_hard_minimum_rejects_219() {
    let v = parse_git_version("git version 2.19.0\n").unwrap();
    assert!(v < GitVersion::MINIMUM());
}

#[test]
fn qa_v_009_git_not_found_error_variant_exists() {
    let e = WorktreeError::GitNotFound;
    let s = e.message();
    assert!(s.contains("git"), "Display: {s}");
}

#[test]
fn version_below_minimum_is_refused_with_both_versions() {
    match capabilities_from_version_output("git version 2.19.0\n") {
        Err(WorktreeError::GitVersionTooOld { required, found }) => {
            assert_eq!(required, "2.20.0");
            assert_eq!(found, "2.19.0");
        }
        other => panic!("expected GitVersionTooOld, got {other:?}"),
    }
    let caps = capabilities_from_version_output("git version 2.20.0\n").unwrap();
    assert_eq!(caps.version, GitVersion { major: 2, minor: 20, patch: 0 });
}

#[test]
fn version_with_trailing_text_or_dotted_suffix_reads_its_three_numbers() {
    use_version("git version 2.30.1\n", 2, 30, 1);
    use_version("git version 10.0.7 (Apple Git-146)", 10, 0, 7);
    use_version("git version 2.43.0.windows.1", 2, 43, 0);
}

fn use_version(text: &str, major: u32, minor: u32, patch: u32) {
    let v = iso_code::git::parse_git_version(text).unwrap();
    assert_eq!((v.major, v.minor, v.patch), (major, minor, patch));
}
