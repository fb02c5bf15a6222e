use iso_code::git::{
    detect_capabilities, git_crypt_patterns, gitattributes_use_git_crypt, is_git_crypt_header, parse_git_version,
    parse_worktree_list_porcelain, worktree_add_args, worktree_list_args, worktree_remove_args,
};
use iso_code::{GitVersion, WorktreeState};

#[test]
fn parse_standard_version() {
    let v = parse_git_version("git version 2.43.0").unwrap();
    assert_eq!(v, GitVersion { major: 2, minor: 43, patch: 0 });
}

#[test]
fn parse_apple_version() {
    let v = parse_git_version("git version 2.39.3 (Apple Git-146)").unwrap();
    assert_eq!(v, GitVersion { major: 2, minor: 39, patch: 3 });
}

#[test]
fn parse_windows_version() {
    let v = parse_git_version("git version 2.43.0.windows.1").unwrap();
    assert_eq!(v, GitVersion { major: 2, minor: 43, patch: 0 });
}

#[test]
fn parse_with_trailing_newline() {
    let v = parse_git_version("git version 2.20.0\n").unwrap();
    assert_eq!(v, GitVersion { major: 2, minor: 20, patch: 0 });
}

#[test]
fn parse_garbage_input() {
    assert!(parse_git_version("not git output").is_err());
}

#[test]
fn version_2_19_is_too_old() {
    let v = GitVersion { major: 2, minor: 19, patch: 9 };
    assert!(v < GitVersion::MINIMUM());
}

#[test]
fn version_2_20_is_ok() {
    let v = GitVersion { major: 2, minor: 20, patch: 0 };
    assert!(v >= GitVersion::MINIMUM());
}

#[test]
fn capabilities_at_2_20() {
    let caps = detect_capabilities(&GitVersion { major: 2, minor: 20, patch: 0 });
    assert!(!caps.has_repair);
    assert!(!caps.has_list_nul);
    assert!(!caps.has_merge_tree_write);
    assert!(!caps.has_orphan);
    assert!(!caps.has_relative_paths);
}

#[test]
fn capabilities_at_2_29_no_repair() {
    let caps = detect_capabilities(&GitVersion { major: 2, minor: 29, patch: 9 });
    assert!(!caps.has_repair);
}

#[test]
fn capabilities_at_2_30_has_repair() {
    let caps = detect_capabilities(&GitVersion { major: 2, minor: 30, patch: 0 });
    assert!(caps.has_repair);
    assert!(!caps.has_list_nul);
}

#[test]
fn capabilities_at_2_35_no_list_nul() {
    let caps = detect_capabilities(&GitVersion { major: 2, minor: 35, patch: 9 });
    assert!(caps.has_repair);
    assert!(!caps.has_list_nul);
}

#[test]
fn capabilities_at_2_36_has_list_nul() {
    let caps = detect_capabilities(&GitVersion { major: 2, minor: 36, patch: 0 });
    assert!(caps.has_repair);
    assert!(caps.has_list_nul);
    assert!(!caps.has_merge_tree_write);
}

#[test]
fn capabilities_at_2_38_has_merge_tree() {
    let caps = detect_capabilities(&GitVersion { major: 2, minor: 38, patch: 0 });
    assert!(caps.has_merge_tree_write);
    assert!(!caps.has_orphan);
}

#[test]
fn capabilities_at_2_42_has_orphan() {
    let caps = detect_capabilities(&GitVersion { major: 2, minor: 42, patch: 0 });
    assert!(caps.has_orphan);
    assert!(!caps.has_relative_paths);
}

#[test]
fn capabilities_at_2_48_has_relative_paths() {
    let caps = detect_capabilities(&GitVersion { major: 2, minor: 48, patch: 0 });
    assert!(caps.has_relative_paths);
    assert!(caps.has_repair);
    assert!(caps.has_list_nul);
    assert!(caps.has_merge_tree_write);
    assert!(caps.has_orphan);
}

#[test]
fn parse_empty_output() {
    let result = parse_worktree_list_porcelain(b"", false).unwrap();
    assert!(result.is_empty());
}

#[test]
fn parse_single_worktree_newline_mode() {
    let output = b"worktree /home/user/project\nHEAD abc1234abc1234abc1234abc1234abc1234abc1234\nbranch refs/heads/main\n\n";
    let result = parse_worktree_list_porcelain(output, false).unwrap();
    assert_eq!(result.len(), 1);
    assert_eq!(result[0].path, "/home/user/project");
    assert_eq!(result[0].branch, "main");
    assert_eq!(result[0].base_commit, "abc1234abc1234abc1234abc1234abc1234abc1234");
    assert_eq!(result[0].state, WorktreeState::Active);
}

#[test]
fn parse_multi_block_newline_mode() {
    let output = b"worktree /home/user/project\nHEAD aaaaaaaaaaaaaaaaaaaaaaaaaaaaaaaaaaaaaaaa\nbranch refs/heads/main\n\nworktree /home/user/project-feature\nHEAD bbbbbbbbbbbbbbbbbbbbbbbbbbbbbbbbbbbbbbbb\nbranch refs/heads/feature/test\n\nworktree /home/user/project-detached\nHEAD cccccccccccccccccccccccccccccccccccccccc\ndetached\n\n";
    let result = parse_worktree_list_porcelain(output, false).unwrap();
    assert_eq!(result.len(), 3);
    assert_eq!(result[0].branch, "main");
    assert_eq!(result[1].branch, "feature/test");
    assert_eq!(result[2].branch, "");
    assert_eq!(result[2].state, WorktreeState::Active);
}

#[test]
fn parse_locked_worktree_no_reason() {
    let output = b"worktree /tmp/wt\nHEAD aaaaaaaaaaaaaaaaaaaaaaaaaaaaaaaaaaaaaaaa\nbranch refs/heads/test\nlocked\n\n";
    let result = parse_worktree_list_porcelain(output, false).unwrap();
    assert_eq!(result.len(), 1);
    assert_eq!(result[0].state, WorktreeState::Locked);
}

#[test]
fn parse_locked_worktree_with_reason() {
    let output = b"worktree /tmp/wt\nHEAD aaaaaaaaaaaaaaaaaaaaaaaaaaaaaaaaaaaaaaaa\nbranch refs/heads/test\nlocked important work in progress\n\n";
    let result = parse_worktree_list_porcelain(output, false).unwrap();
    assert_eq!(result.len(), 1);
    assert_eq!(result[0].state, WorktreeState::Locked);
}

#[test]
fn parse_prunable_worktree() {
    let output = b"worktree /tmp/wt\nHEAD aaaaaaaaaaaaaaaaaaaaaaaaaaaaaaaaaaaaaaaa\nbranch refs/heads/test\nprunable gitdir file points to non-existent location\n\n";
    let result = parse_worktree_list_porcelain(output, false).unwrap();
    assert_eq!(result.len(), 1);
    assert_eq!(result[0].state, WorktreeState::Orphaned);
}

#[test]
fn parse_bare_worktree() {
    let output = b"worktree /tmp/bare.git\nbare\n\n";
    let result = parse_worktree_list_porcelain(output, false).unwrap();
    assert_eq!(result.len(), 1);
    assert_eq!(result[0].branch, "");
}

#[test]
fn parse_nul_delimited_mode() {
    let output = b"worktree /home/user/project\0HEAD aaaaaaaaaaaaaaaaaaaaaaaaaaaaaaaaaaaaaaaa\0branch refs/heads/main\0\0worktree /home/user/project-feature\0HEAD bbbbbbbbbbbbbbbbbbbbbbbbbbbbbbbbbbbbbbbb\0branch refs/heads/feature\0\0";
    let result = parse_worktree_list_porcelain(output, true).unwrap();
    assert_eq!(result.len(), 2);
    assert_eq!(result[0].branch, "main");
    assert_eq!(result[1].branch, "feature");
}

#[test]
fn parse_nul_delimited_path_with_spaces() {
    let output = b"worktree /home/user/my project\0HEAD aaaaaaaaaaaaaaaaaaaaaaaaaaaaaaaaaaaaaaaa\0branch refs/heads/main\0\0";
    let result = parse_worktree_list_porcelain(output, true).unwrap();
    assert_eq!(result.len(), 1);
    assert_eq!(result[0].path, "/home/user/my project");
}

#[test]
fn porcelain_without_trailing_blank_line_still_parses() {
    let output = b"worktree /a\nHEAD 1111111111111111111111111111111111111111\nbranch refs/heads/one";
    let result = parse_worktree_list_porcelain(output, false).unwrap();
    assert_eq!(result.len(), 1);
    assert_eq!(result[0].branch, "one");
    assert_eq!(result[0].path, "/a");
}

#[test]
fn list_args_follow_capabilities() {
    assert_eq!(worktree_list_args(false), vec!["worktree", "list", "--porcelain"]);
    assert_eq!(worktree_list_args(true), vec!["worktree", "list", "--porcelain", "-z"]);
}

#[test]
fn add_and_remove_args() {
    let a = worktree_add_args("/tmp/wt", "feat", Some("main"), true, true, Some("busy"));
    assert_eq!(a, vec!["worktree", "add", "--lock", "--reason", "busy", "/tmp/wt", "-b", "feat", "main"]);
    let b = worktree_add_args("/tmp/wt", "feat", None, false, false, None);
    assert_eq!(b, vec!["worktree", "add", "/tmp/wt", "feat"]);
    assert_eq!(worktree_remove_args("/tmp/wt", false), vec!["worktree", "remove", "/tmp/wt"]);
    assert_eq!(worktree_remove_args("/tmp/wt", true), vec!["worktree", "remove", "--force", "/tmp/wt"]);
}

#[test]
fn git_crypt_detection() {
    let attrs = "*.md text\nsecret/** filter=git-crypt diff=git-crypt\n";
    assert!(gitattributes_use_git_crypt(attrs));
    assert!(!gitattributes_use_git_crypt("*.md text\n"));
    assert_eq!(git_crypt_patterns(attrs), vec!["secret/**".to_string()]);
    assert!(is_git_crypt_header(b"\x00GITCRYPT\x00rest"));
    assert!(!is_git_crypt_header(b"plain text"));
}

#[test]
fn locked_wins_over_prunable_in_both_layouts() {
    for nul in [false, true] {
        let sep = if nul { "\0" } else { "\n" };
        let text = format!("worktree /tmp/wt{sep}HEAD {}{sep}branch refs/heads/x{sep}locked{sep}prunable{sep}{sep}", "a".repeat(40));
        let hs = parse_worktree_list_porcelain(text.as_bytes(), nul).unwrap();
        assert_eq!(hs.len(), 1);
        assert_eq!(hs[0].state, WorktreeState::Locked);
    }
}

#[test]
fn branch_reads_the_same_with_or_without_ref_prefix() {
    let with = b"worktree /tmp/wt\nHEAD aaaaaaaaaaaaaaaaaaaaaaaaaaaaaaaaaaaaaaaa\nbranch refs/heads/feature/x\n\n";
    let without = b"worktree /tmp/wt\nHEAD aaaaaaaaaaaaaaaaaaaaaaaaaaaaaaaaaaaaaaaa\nbranch feature/x\n\n";
    let a = parse_worktree_list_porcelain(with, false).unwrap();
    let b = parse_worktree_list_porcelain(without, false).unwrap();
    assert_eq!(a[0].branch, "feature/x");
    assert_eq!(b[0].branch, "feature/x");
}

#[test]
fn garbage_parses_without_failing_and_names_no_empty_path() {
    let inputs: [&[u8]; 4] = [b"\xff\xfe\x00\x00worktree \n\n", b"worktree \nHEAD x\n", b"\0\0\0", b"worktree  \t\r\n"];
    for bytes in inputs {
        for nul in [false, true] {
            let hs = parse_worktree_list_porcelain(bytes, nul).unwrap();
            for h in &hs {
                assert!(!h.path.is_empty());
            }
        }
    }
}

#[test]
fn invalid_utf8_path_decodes_to_replacement_characters() {
    let hs = parse_worktree_list_porcelain(b"worktree /tmp/\xff\xfe\nHEAD abc\n", false).unwrap();
    assert_eq!(hs.len(), 1);
    assert_eq!(hs[0].path, "/tmp/\u{FFFD}\u{FFFD}");
    assert_eq!(hs[0].base_commit, "abc");
}
