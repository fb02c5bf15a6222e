use iso_code::lock::{after_failed_attempt, backoff_sleep_ms, jittered_sleep_ms, max_backoff_ms, LockRetry, MAX_LOCK_ATTEMPTS};
use iso_code::manager::{
    attach_identity, attach_setup_record, branch_ref, check_git_crypt_unlocked, check_requested_base,
    check_setup_possible, final_create_state, gc_age_cutoff, gc_max_age_days, gc_orphans, gc_screen, gc_writes_state,
    new_branch_base, pre_create_guards, pre_delete_checks, GcScreen, PreCreateGuard, PreDeleteCheck,
};
use iso_code::unmerged::{
    first_unmerged_step, is_shallow_output, next_unmerged_step, primary_branch, unmerged_probe_args, unmerged_result,
    ProbeOutcome, UnmergedProbe, UnmergedStep,
};
use iso_code::{
    Config, DeleteOptions, GcOptions, GitCapabilities, GitCryptStatus, GitVersion, Manager, WorktreeError, WorktreeHandle,
    WorktreeState,
};

const DAY: i64 = 86_400_000_000;
const NOW: i64 = 1_767_225_600_000_000;

fn caps() -> GitCapabilities {
    GitCapabilities::new(GitVersion { major: 2, minor: 43, patch: 0 }, true, true, true, false, true)
}

fn handle(branch: &str, state: WorktreeState, pid: u32) -> WorktreeHandle {
    WorktreeHandle::new(
        format!("/wt/{branch}"),
        branch.to_string(),
        String::new(),
        state,
        String::new(),
        pid,
        String::new(),
        None,
        false,
        None,
        String::new(),
    )
}

fn outcome(code: Option<i32>, stdout: &[u8]) -> ProbeOutcome {
    ProbeOutcome { ran: true, exit_code: code, stdout: stdout.to_vec() }
}

#[test]
fn test_gc_default_is_dry_run() {
    assert!(GcOptions::default().dry_run);
}

#[test]
fn manager_accessors() {
    let m = Manager::new("/repo".to_string(), Config::default(), caps());
    assert_eq!(m.repo_root(), "/repo");
    assert_eq!(m.config().max_worktrees, 20);
    assert!(m.git_capabilities().has_list_nul);
    assert_eq!(m.consecutive_git_failures(), 0);
}

#[test]
fn qa_c_004_circuit_breaker_trips_after_consecutive_failures() {
    let mut m = Manager::new("/repo".to_string(), Config::default(), caps());
    for _ in 0..3 {
        assert!(m.check_circuit_breaker().is_ok());
        let _ = m.record_git_outcome::<()>(Err(WorktreeError::GitNotFound));
    }
    match m.check_circuit_breaker() {
        Err(WorktreeError::CircuitBreakerOpen { consecutive_failures }) => assert_eq!(consecutive_failures, 3),
        other => panic!("unexpected {other:?}"),
    }
    let _ = m.record_git_outcome(Ok(()));
    assert!(m.check_circuit_breaker().is_ok());
}

#[test]
fn pre_create_guard_order() {
    let all = pre_create_guards(false, false);
    assert_eq!(all.len(), 11);
    assert_eq!(all[0], PreCreateGuard::BranchNotCheckedOut);
    assert_eq!(all[2], PreCreateGuard::WorktreeCount);
    assert_eq!(all[9], PreCreateGuard::TotalDiskUsage);
    assert_eq!(all[10], PreCreateGuard::GitCrypt);
    let skip = pre_create_guards(true, true);
    assert!(!skip.contains(&PreCreateGuard::TotalDiskUsage));
    assert_eq!(skip[9], PreCreateGuard::NotNetworkJunction);
}

#[test]
fn pre_delete_check_order() {
    let d = pre_delete_checks(&DeleteOptions::default());
    assert_eq!(
        d,
        vec![
            PreDeleteCheck::NotCwd,
            PreDeleteCheck::NoUncommittedChanges,
            PreDeleteCheck::NoUnmergedCommits,
            PreDeleteCheck::NotLocked,
        ]
    );
    let mut opts = DeleteOptions::default();
    opts.force = true;
    opts.force_dirty = true;
    opts.force_locked = true;
    let forced = pre_delete_checks(&opts);
    assert_eq!(forced, vec![PreDeleteCheck::NotCwd]);
}

#[test]
fn create_decisions() {
    assert!(matches!(check_git_crypt_unlocked(GitCryptStatus::Locked), Err(WorktreeError::GitCryptLocked)));
    assert!(matches!(check_git_crypt_unlocked(GitCryptStatus::LockedNoKey), Err(WorktreeError::GitCryptLocked)));
    assert!(check_git_crypt_unlocked(GitCryptStatus::Unlocked).is_ok());
    assert_eq!(new_branch_base(None), "HEAD");
    assert_eq!(new_branch_base(Some("develop")), "develop");
    assert_eq!(branch_ref("feat/x"), "refs/heads/feat/x");
    assert!(check_requested_base("b", "c1", "main", "c1").is_ok());
    assert!(matches!(
        check_requested_base("b", "c1", "main", "c2"),
        Err(WorktreeError::BranchExistsWithDifferentBase { .. })
    ));
    assert_eq!(final_create_state(true), WorktreeState::Locked);
    assert_eq!(final_create_state(false), WorktreeState::Active);
    assert!(matches!(check_setup_possible(true, false), Err(WorktreeError::SetupRequestedWithoutAdapter)));
    assert!(check_setup_possible(false, false).is_ok());
}

#[test]
fn gc_screen_skips_locked_worktrees() {
    let h = handle("held", WorktreeState::Locked, 0);
    assert_eq!(gc_screen(&h, Some(0), NOW, false, true), GcScreen::Skip);
}

#[test]
fn gc_screen_skips_old_worktrees_whose_creator_runs() {
    let h = handle("old", WorktreeState::Active, 1234);
    let cutoff = gc_age_cutoff(NOW, 7);
    assert_eq!(cutoff, NOW - 7 * DAY);
    assert_eq!(gc_screen(&h, Some(NOW - 10 * DAY), cutoff, true, false), GcScreen::Skip);
    assert_eq!(gc_screen(&h, Some(NOW - 10 * DAY), cutoff, false, false), GcScreen::CheckUnmerged);
    assert_eq!(gc_screen(&h, Some(NOW - 10 * DAY), cutoff, false, true), GcScreen::Collect);
    assert_eq!(gc_screen(&h, Some(NOW), cutoff, false, true), GcScreen::Skip);
    assert_eq!(gc_screen(&h, None, cutoff, false, true), GcScreen::Skip);
    let orphan = handle("orph", WorktreeState::Orphaned, 0);
    assert_eq!(gc_screen(&orphan, None, cutoff, false, false), GcScreen::Collect);
    let main = handle("", WorktreeState::Active, 0);
    assert_eq!(gc_screen(&main, Some(0), cutoff, false, true), GcScreen::Skip);
}

#[test]
fn gc_options_and_orphans() {
    let cfg = Config::default();
    assert_eq!(gc_max_age_days(&GcOptions::default(), &cfg), 7);
    let mut o = GcOptions::default();
    o.max_age_days = Some(2);
    assert_eq!(gc_max_age_days(&o, &cfg), 2);
    let hs = vec![
        handle("a", WorktreeState::Orphaned, 0),
        handle("b", WorktreeState::Active, 0),
        handle("c", WorktreeState::Orphaned, 0),
    ];
    assert_eq!(gc_orphans(&hs), vec!["/wt/a".to_string(), "/wt/c".to_string()]);
    assert!(!gc_writes_state(true));
    assert!(gc_writes_state(false));
}

#[test]
fn attach_decisions() {
    let (uuid, port) = attach_identity(Some(("kept".to_string(), Some(3100))));
    assert_eq!(uuid, "kept");
    assert_eq!(port, Some(3100));
    let (fresh, none) = attach_identity(None);
    assert_eq!(fresh.len(), 36);
    assert!(none.is_none());
    assert_eq!(attach_setup_record(true, Some("default"), false), (Some("default".to_string()), false));
    assert_eq!(attach_setup_record(false, None, false), (None, false));
}

#[test]
fn unmerged_check_offline_merged_branch_is_safe() {
    let s = first_unmerged_step(true, false);
    assert_eq!(s, UnmergedStep::Run(UnmergedProbe::LocalAncestor));
    let s = next_unmerged_step(UnmergedProbe::LocalAncestor, false, &outcome(Some(0), b""));
    assert_eq!(s, UnmergedStep::Safe);
    assert!(unmerged_result(s, "feat").is_ok());
}

#[test]
fn unmerged_machine_counts_local_only_commits() {
    assert_eq!(first_unmerged_step(false, false), UnmergedStep::Run(UnmergedProbe::Fetch));
    let mut step = next_unmerged_step(UnmergedProbe::Fetch, false, &outcome(Some(1), b""));
    assert_eq!(step, UnmergedStep::Run(UnmergedProbe::LocalAncestor));
    step = next_unmerged_step(UnmergedProbe::LocalAncestor, false, &outcome(Some(1), b""));
    assert_eq!(step, UnmergedStep::Run(UnmergedProbe::RemoteAncestor));
    step = next_unmerged_step(UnmergedProbe::RemoteAncestor, false, &outcome(Some(128), b""));
    assert_eq!(step, UnmergedStep::Run(UnmergedProbe::Cherry));
    step = next_unmerged_step(UnmergedProbe::Cherry, false, &outcome(Some(128), b""));
    assert_eq!(step, UnmergedStep::Run(UnmergedProbe::LocalOnlyCommits));
    step = next_unmerged_step(UnmergedProbe::LocalOnlyCommits, false, &outcome(Some(0), b"abc1 one\ndef2 two\n"));
    assert_eq!(step, UnmergedStep::Unmerged(2));
    match unmerged_result(step, "feat") {
        Err(WorktreeError::UnmergedCommits { branch, commit_count }) => {
            assert_eq!(branch, "feat");
            assert_eq!(commit_count, 2);
        }
        other => panic!("unexpected {other:?}"),
    }
}

#[test]
fn unmerged_check_cherry_and_shallow_paths() {
    assert_eq!(
        next_unmerged_step(UnmergedProbe::Cherry, false, &outcome(Some(0), b"- abc upstream\n")),
        UnmergedStep::Safe
    );
    assert_eq!(
        next_unmerged_step(UnmergedProbe::Cherry, false, &outcome(Some(0), b"+ abc mine\n")),
        UnmergedStep::Run(UnmergedProbe::LocalOnlyCommits)
    );
    assert_eq!(first_unmerged_step(true, true), UnmergedStep::Run(UnmergedProbe::LocalOnlyCommits));
    assert_eq!(
        next_unmerged_step(UnmergedProbe::Fetch, true, &outcome(Some(0), b"")),
        UnmergedStep::Run(UnmergedProbe::LocalOnlyCommits)
    );
    let failed = ProbeOutcome { ran: false, exit_code: None, stdout: vec![] };
    assert_eq!(next_unmerged_step(UnmergedProbe::LocalOnlyCommits, false, &failed), UnmergedStep::Safe);
    assert!(is_shallow_output(&outcome(Some(0), b"true\n")));
    assert!(!is_shallow_output(&outcome(Some(0), b"false\n")));
}

#[test]
fn unmerged_probe_arguments() {
    assert_eq!(unmerged_probe_args(UnmergedProbe::Fetch, "f", "main"), vec!["fetch", "--prune", "origin"]);
    assert_eq!(
        unmerged_probe_args(UnmergedProbe::RemoteAncestor, "f", "main"),
        vec!["merge-base", "--is-ancestor", "f", "origin/main"]
    );
    assert_eq!(unmerged_probe_args(UnmergedProbe::Cherry, "f", "trunk"), vec!["cherry", "-v", "origin/trunk", "f"]);
    assert_eq!(
        unmerged_probe_args(UnmergedProbe::LocalOnlyCommits, "f", "main"),
        vec!["log", "f", "--not", "--remotes", "--oneline"]
    );
}

#[test]
fn primary_branch_detection() {
    assert_eq!(primary_branch(&outcome(Some(0), b"refs/remotes/origin/trunk\n"), true), "trunk");
    assert_eq!(primary_branch(&outcome(Some(128), b""), true), "main");
    assert_eq!(primary_branch(&outcome(Some(128), b""), false), "master");
}

#[test]
fn lock_backoff_policy() {
    assert_eq!(max_backoff_ms(0), 10);
    assert_eq!(max_backoff_ms(3), 80);
    assert_eq!(max_backoff_ms(7), 1280);
    assert_eq!(max_backoff_ms(8), 2000);
    assert_eq!(max_backoff_ms(14), 2000);
    for attempt in 0..15 {
        assert!(backoff_sleep_ms(attempt) <= max_backoff_ms(attempt));
    }
    assert_eq!(MAX_LOCK_ATTEMPTS, 15);
    assert_eq!(after_failed_attempt(0, 30_000, 30_000), LockRetry::GiveUp);
    assert_eq!(after_failed_attempt(14, 0, 30_000), LockRetry::GiveUp);
    assert!(matches!(after_failed_attempt(2, 10, 30_000), LockRetry::Sleep(ms) if ms <= 40));
}

#[test]
fn jitter_reduces_the_draw_modulo_the_cap() {
    assert_eq!(jittered_sleep_ms(0, 25), 3);
    assert_eq!(jittered_sleep_ms(0, 10), 10);
    assert_eq!(jittered_sleep_ms(3, 81), 0);
    assert_eq!(jittered_sleep_ms(20, 2001), 0);
    assert_eq!(jittered_sleep_ms(20, 4003), 1);
}
