use iso_code::lifecycle::{
    attach_plan, create_start, create_step, delete_plan, gc_moves_of, gc_report_of, AttachPlan, Cleanup, CreateAction,
    CreateEvent, CreateRun, CreateStep,
};
use iso_code::manager::{GcScreen, PreDeleteCheck};
use iso_code::state::creating_entry;
use iso_code::{DeleteOptions, WorktreeError, WorktreeHandle, WorktreeState};

fn handle(path: &str, branch: &str, state: WorktreeState, setup_complete: bool) -> WorktreeHandle {
    WorktreeHandle::new(
        path.to_string(),
        branch.to_string(),
        String::new(),
        state,
        String::new(),
        0,
        String::new(),
        None,
        setup_complete,
        None,
        String::new(),
    )
}

#[test]
fn delete_plan_follows_the_options() {
    let h = handle("/wt/a", "a", WorktreeState::Active, true);
    let p = delete_plan(&h, &DeleteOptions::default(), true);
    assert_eq!(
        p.checks,
        vec![
            PreDeleteCheck::NotCwd,
            PreDeleteCheck::NoUncommittedChanges,
            PreDeleteCheck::NoUnmergedCommits,
            PreDeleteCheck::NotLocked
        ]
    );
    assert!(p.teardown);
    assert!(!p.force_remove);
    let mut o = DeleteOptions::default();
    o.force = true;
    o.force_locked = true;
    let p = delete_plan(&h, &o, false);
    assert_eq!(p.checks, vec![PreDeleteCheck::NotCwd, PreDeleteCheck::NoUncommittedChanges]);
    assert!(!p.teardown);
    assert!(p.force_remove);
    let plain = handle("/wt/b", "b", WorktreeState::Active, false);
    assert!(!delete_plan(&plain, &DeleteOptions::default(), true).teardown);
}

#[test]
fn attach_of_a_recorded_branch_returns_its_record() {
    let e = creating_entry("/old/place", "feat", "abc123", 1_700_000_000_000_000, 42, "tool", "uuid-1");
    match attach_plan("/wt/feat", "feat", WorktreeState::Active, Some(&e), None) {
        AttachPlan::Existing(h) => {
            assert_eq!(h.path, "/wt/feat");
            assert_eq!(h.branch, "feat");
            assert_eq!(h.base_commit, "abc123");
            assert_eq!(h.state, WorktreeState::Active);
            assert_eq!(h.created_at, "2023-11-14T22:13:20+00:00");
            assert_eq!(h.creator_pid, 42);
            assert_eq!(h.session_uuid, "uuid-1");
        }
        other => panic!("expected the recorded worktree, got {other:?}"),
    }
}

#[test]
fn attach_of_a_new_branch_registers_it() {
    match attach_plan("/wt/x", "x", WorktreeState::Active, None, Some(("kept".to_string(), Some(3200)))) {
        AttachPlan::Register { session_uuid, port } => {
            assert_eq!(session_uuid, "kept");
            assert_eq!(port, Some(3200));
        }
        other => panic!("expected registration, got {other:?}"),
    }
    match attach_plan("/wt/x", "x", WorktreeState::Active, None, None) {
        AttachPlan::Register { session_uuid, port } => {
            assert_eq!(session_uuid.len(), 36);
            assert_eq!(port, None);
        }
        other => panic!("expected registration, got {other:?}"),
    }
}

#[test]
fn gc_report_lists_orphans_evictions_and_removals() {
    let ws = vec![
        handle("/wt/main", "", WorktreeState::Active, false),
        handle("/wt/old", "old", WorktreeState::Active, false),
        handle("/wt/lost", "lost", WorktreeState::Orphaned, false),
        handle("/wt/busy", "busy", WorktreeState::Active, false),
        handle("/wt/stuck", "stuck", WorktreeState::Active, false),
    ];
    let screens = vec![GcScreen::Skip, GcScreen::CheckUnmerged, GcScreen::Collect, GcScreen::CheckUnmerged, GcScreen::Collect];
    let unmerged_ok = vec![false, true, false, false, false];
    let removed_ok = vec![false, true, true, false, false];
    let sizes = vec![0, 100, 20, 0, 7];
    let r = gc_report_of(&ws, &screens, &unmerged_ok, &removed_ok, &sizes, false);
    assert_eq!(r.orphans, vec!["/wt/lost".to_string()]);
    assert_eq!(r.evicted, vec!["/wt/old".to_string(), "/wt/stuck".to_string()]);
    assert_eq!(r.removed, vec!["/wt/old".to_string(), "/wt/lost".to_string()]);
    assert_eq!(r.freed_bytes, 120);
    assert!(!r.dry_run);
    let (evicted, removed, freed) = gc_moves_of(&ws, &screens, &unmerged_ok, &removed_ok, &sizes, false);
    assert_eq!(evicted[0], ("/wt/old".to_string(), Some("old".to_string())));
    assert_eq!(removed[1], ("/wt/lost".to_string(), Some("lost".to_string())));
    assert_eq!(freed, 120);

    let dry = gc_report_of(&ws, &screens, &unmerged_ok, &removed_ok, &sizes, true);
    assert!(dry.removed.is_empty());
    assert_eq!(dry.freed_bytes, 0);
    assert_eq!(dry.evicted, vec!["/wt/old".to_string(), "/wt/stuck".to_string()]);
    assert!(dry.dry_run);
}

fn step(run: &CreateRun, event: CreateEvent) -> (CreateRun, CreateAction) {
    create_step(run, event)
}

#[test]
fn create_runs_its_steps_in_order() {
    let (run, action) = create_start(true, true, true);
    assert!(matches!(action, CreateAction::Perform(CreateStep::AddWorktree)));
    let (run, action) = step(&run, CreateEvent::Succeeded);
    assert!(matches!(action, CreateAction::Perform(CreateStep::CheckCrypt)));
    let (run, action) = step(&run, CreateEvent::Succeeded);
    assert!(matches!(action, CreateAction::Perform(CreateStep::AllocatePort)));
    let (run, action) = step(&run, CreateEvent::Leased(3105));
    assert!(matches!(action, CreateAction::Perform(CreateStep::RunSetup)));
    assert_eq!(run.port, Some(3105));
    let (run, action) = step(&run, CreateEvent::Succeeded);
    assert!(matches!(action, CreateAction::Perform(CreateStep::Record)));
    let (run, action) = step(&run, CreateEvent::Succeeded);
    assert!(matches!(action, CreateAction::Finish));
    assert_eq!(run.step, CreateStep::Done);
}

#[test]
fn create_without_options_goes_straight_to_recording() {
    let (run, _) = create_start(false, false, false);
    let (run, _) = step(&run, CreateEvent::Succeeded);
    let (_, action) = step(&run, CreateEvent::Succeeded);
    assert!(matches!(action, CreateAction::Perform(CreateStep::Record)));
}

#[test]
fn failed_add_removes_the_directory() {
    let (run, _) = create_start(false, false, false);
    let (run, action) = step(&run, CreateEvent::Failed(WorktreeError::GitNotFound));
    assert_eq!(run.step, CreateStep::Failed);
    match action {
        CreateAction::RollBack { cleanup, forget_lease, error } => {
            assert_eq!(cleanup, Cleanup::RemoveDirectory);
            assert!(!forget_lease);
            assert!(matches!(error, WorktreeError::GitNotFound));
        }
        other => panic!("expected a rollback, got {other:?}"),
    }
}

#[test]
fn setup_without_adapter_is_rolled_back() {
    let (run, _) = create_start(false, true, false);
    let (run, _) = step(&run, CreateEvent::Succeeded);
    let (_, action) = step(&run, CreateEvent::Succeeded);
    match action {
        CreateAction::RollBack { cleanup, error, .. } => {
            assert_eq!(cleanup, Cleanup::ForceRemove);
            assert!(matches!(error, WorktreeError::SetupRequestedWithoutAdapter));
        }
        other => panic!("expected a rollback, got {other:?}"),
    }
}

#[test]
fn exhausted_port_range_fails_the_create() {
    let (run, _) = create_start(true, false, false);
    let (run, _) = step(&run, CreateEvent::Succeeded);
    let (run, _) = step(&run, CreateEvent::Succeeded);
    let (_, action) = step(&run, CreateEvent::Failed(WorktreeError::RateLimitExceeded { current: 1, max: 1 }));
    match action {
        CreateAction::RollBack { cleanup, forget_lease, error } => {
            assert_eq!(cleanup, Cleanup::ForceRemove);
            assert!(!forget_lease);
            assert!(matches!(error, WorktreeError::RateLimitExceeded { current: 1, max: 1 }));
        }
        other => panic!("expected a rollback, got {other:?}"),
    }
}

#[test]
fn failed_setup_drops_the_leased_port() {
    let (run, _) = create_start(true, true, true);
    let (run, _) = step(&run, CreateEvent::Succeeded);
    let (run, _) = step(&run, CreateEvent::Succeeded);
    let (run, _) = step(&run, CreateEvent::Leased(3100));
    let failure = WorktreeError::ShellCommandFailed { exit_code: 2, stderr: "boom".to_string() };
    let (run, action) = step(&run, CreateEvent::SetupFailed { adapter: "shell-command".to_string(), error: failure });
    assert_eq!(run.step, CreateStep::Failed);
    match action {
        CreateAction::RollBack { cleanup, forget_lease, error } => {
            assert_eq!(cleanup, Cleanup::ForceRemove);
            assert!(forget_lease);
            match error {
                WorktreeError::AdapterSetupFailed { adapter, reason } => {
                    assert_eq!(adapter, "shell-command");
                    assert_eq!(reason, WorktreeError::ShellCommandFailed { exit_code: 2, stderr: "boom".to_string() }.message());
                }
                other => panic!("expected AdapterSetupFailed, got {other:?}"),
            }
        }
        other => panic!("expected a rollback, got {other:?}"),
    }
}
