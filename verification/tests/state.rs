use iso_code::state::{
    attached_entry, compute_repo_id, creating_entry, migrate_v1_to_v2, migration_for, state_dir, state_json_path,
    state_lock_path, ActiveWorktreeEntry, Migration, StaleWorktreeEntry,
};
use iso_code::{PortLease, StateV2, WorktreeError, WorktreeHandle, WorktreeState};

const HOUR: i64 = 3_600_000_000;
const DAY: i64 = 24 * HOUR;
const NOW: i64 = 1_767_225_600_000_000;

fn entry(branch: &str, state: WorktreeState, created_at: i64, pid: u32) -> ActiveWorktreeEntry {
    let mut e = creating_entry(&format!("/wt/{branch}"), branch, "abc", created_at, pid, "tool", &format!("uuid-{branch}"));
    e.state = state;
    e
}

fn lease(port: u16, branch: &str, expires_at: i64) -> PortLease {
    PortLease {
        port,
        branch: branch.to_string(),
        session_uuid: "u".to_string(),
        pid: 1,
        created_at: NOW - HOUR,
        expires_at,
        status: "active".to_string(),
    }
}

#[test]
fn test_compute_repo_id_deterministic() {
    let id1 = compute_repo_id("/tmp/repo");
    let id2 = compute_repo_id("/tmp/repo");
    assert_eq!(id1, id2);
    assert_eq!(id1.len(), 64);
    assert_eq!(id1, "b6fe87a9b936bea650481980f473639b9dd1934ddab7f48221cd6b9ab5ffc1f4");
}

#[test]
fn test_state_dir_default() {
    let sd = state_dir("/tmp/repo", None, None);
    assert!(sd.ends_with("iso-code"));
    assert!(sd.contains(".git"));
    assert_eq!(sd, "/tmp/repo/.git/iso-code");
}

#[test]
fn test_state_dir_home_override() {
    let sd = state_dir("/tmp/repo", Some("/tmp/repo/custom"), Some("/env/home"));
    assert_eq!(sd, "/tmp/repo/custom");
}

#[test]
fn test_iso_code_home_env_override() {
    assert_eq!(state_dir("/tmp/repo", None, Some("/env/home")), "/env/home");
    assert_eq!(state_json_path("/tmp/repo/", None, None), "/tmp/repo/.git/iso-code/state.json");
    assert_eq!(state_lock_path("/tmp/repo", None, Some("/env/home/")), "/env/home/state.lock");
}

#[test]
fn test_new_empty_state() {
    let state = StateV2::new_empty("test-repo-id".to_string());
    assert_eq!(state.schema_version, 2);
    assert_eq!(state.repo_id, "test-repo-id");
    assert!(state.active_worktrees.is_empty());
    assert!(state.stale_worktrees.is_empty());
    assert!(state.port_leases.is_empty());
    assert!(state.gc_history.is_empty());
}

#[test]
fn test_migrate_unknown_version_returns_error() {
    match migration_for(Some(99), None) {
        Err(WorktreeError::StateCorrupted { reason }) => assert_eq!(reason, "unknown schema version 99"),
        other => panic!("unexpected {other:?}"),
    }
    assert_eq!(migration_for(Some(2), Some(1)).unwrap(), Migration::Current);
    assert_eq!(migration_for(None, Some(2)).unwrap(), Migration::Current);
    assert_eq!(migration_for(None, None).unwrap(), Migration::FromV1);
    assert_eq!(migration_for(Some(1), None).unwrap(), Migration::FromV1);
}

#[test]
fn test_migrate_v1_to_v2() {
    let s = migrate_v1_to_v2(
        Some("legacy".to_string()),
        vec![("feat".to_string(), entry("feat", WorktreeState::Active, NOW, 7))],
        NOW,
    );
    assert_eq!(s.schema_version, 2);
    assert_eq!(s.repo_id, "legacy");
    assert_eq!(s.active_worktrees.len(), 1);
    assert_eq!(s.active_worktrees.get("feat").unwrap().creator_pid, 7);
    assert!(s.stale_worktrees.is_empty());
    let empty = migrate_v1_to_v2(None, vec![], NOW);
    assert_eq!(empty.repo_id, "");
}

#[test]
fn reconciliation_moves_missing_entries_to_stale() {
    let mut s = StateV2::new_empty_at("r".to_string(), NOW);
    s.active_worktrees.insert("kept".to_string(), entry("kept", WorktreeState::Active, NOW - DAY, 1));
    s.active_worktrees.insert("gone".to_string(), entry("gone", WorktreeState::Active, NOW - DAY, 1));
    s.active_worktrees.insert("creating".to_string(), entry("creating", WorktreeState::Creating, NOW, 1));
    s.port_leases.insert("old".to_string(), lease(3100, "old", NOW - 1));
    s.port_leases.insert("live".to_string(), lease(3101, "live", NOW + HOUR));
    s.reconcile(&vec!["kept".to_string()], NOW, 30);
    assert!(s.active_worktrees.contains_key("kept"));
    assert!(s.active_worktrees.contains_key("creating"));
    assert!(!s.active_worktrees.contains_key("gone"));
    let st = s.stale_worktrees.get("gone").expect("evicted entry kept");
    assert_eq!(st.original_path, "/wt/gone");
    assert_eq!(st.session_uuid, "uuid-gone");
    assert_eq!(st.eviction_reason, "reconciliation: not in git worktree list");
    assert_eq!(st.evicted_at, NOW);
    assert_eq!(st.expires_at, NOW + 30 * DAY);
    assert!(!s.port_leases.contains_key("old"));
    assert!(s.port_leases.contains_key("live"));
}

#[test]
fn test_list_preserves_creating_entry_during_reconcile() {
    let mut s = StateV2::new_empty_at("r".to_string(), NOW);
    s.active_worktrees.insert("wip".to_string(), entry("wip", WorktreeState::Creating, NOW, 1));
    s.active_worktrees.insert("pending".to_string(), entry("pending", WorktreeState::Pending, NOW, 1));
    s.reconcile(&vec![], NOW, 30);
    assert!(s.active_worktrees.contains_key("wip"));
    assert!(s.active_worktrees.contains_key("pending"));
    assert!(s.stale_worktrees.is_empty());
}

#[test]
fn reconciliation_purges_expired_stale_entries() {
    let mut s = StateV2::new_empty_at("r".to_string(), NOW);
    let mut st = StateV2::new_empty_at("x".to_string(), NOW);
    st.active_worktrees.insert("a".to_string(), entry("a", WorktreeState::Active, NOW, 1));
    st.evict("a", NOW - 40 * DAY, "gc: age exceeded", 30, false);
    let old: StaleWorktreeEntry = st.stale_worktrees.remove("a").unwrap();
    s.stale_worktrees.insert("a".to_string(), old);
    s.reconcile(&vec![], NOW, 30);
    assert!(s.stale_worktrees.is_empty());
}

#[test]
fn test_touch_updates_last_activity() {
    let mut s = StateV2::new_empty_at("r".to_string(), NOW);
    s.active_worktrees.insert("feat".to_string(), entry("feat", WorktreeState::Active, NOW - DAY, 1));
    s.touch("feat", NOW).unwrap();
    assert_eq!(s.active_worktrees.get("feat").unwrap().last_activity, Some(NOW));
}

#[test]
fn test_touch_unknown_branch_errors() {
    let mut s = StateV2::new_empty_at("r".to_string(), NOW);
    match s.touch("nope", NOW) {
        Err(WorktreeError::StateCorrupted { reason }) => {
            assert_eq!(reason, "touch: branch 'nope' not in active_worktrees")
        }
        other => panic!("unexpected {other:?}"),
    }
}

#[test]
fn test_renew_port_lease_extends_expiry() {
    let mut s = StateV2::new_empty_at("r".to_string(), NOW);
    s.port_leases.insert("feat".to_string(), lease(3100, "feat", NOW + HOUR));
    s.renew_port_lease("feat", NOW).unwrap();
    assert_eq!(s.port_leases.get("feat").unwrap().expires_at, NOW + 8 * HOUR);
}

#[test]
fn test_renew_port_lease_unknown_branch_errors() {
    let mut s = StateV2::new_empty_at("r".to_string(), NOW);
    match s.renew_port_lease("ghost", NOW) {
        Err(WorktreeError::StateCorrupted { reason }) => {
            assert_eq!(reason, "renew_port_lease: no active lease for 'ghost'")
        }
        other => panic!("unexpected {other:?}"),
    }
}

#[test]
fn test_renew_port_lease_expired_errors() {
    let mut s = StateV2::new_empty_at("r".to_string(), NOW);
    s.port_leases.insert("feat".to_string(), lease(3100, "feat", NOW));
    match s.renew_port_lease("feat", NOW) {
        Err(WorktreeError::StateCorrupted { reason }) => {
            assert_eq!(reason, "renew_port_lease: lease for 'feat' is expired — reallocate instead")
        }
        other => panic!("unexpected {other:?}"),
    }
    assert_eq!(s.port_leases.get("feat").unwrap().expires_at, NOW);
}

#[test]
fn port_lease_lookup_and_release() {
    let mut s = StateV2::new_empty_at("r".to_string(), NOW);
    let p = s.allocate_port("repo", "feat", "uuid-f", 3100, 3110, 42, NOW).unwrap();
    let l = s.port_lease("feat", NOW).unwrap();
    assert_eq!(l.port, p);
    assert_eq!(l.pid, 42);
    assert_eq!(l.expires_at, NOW + 8 * HOUR);
    assert!(s.port_lease("feat", NOW + 8 * HOUR).is_none());
    s.release_port("feat");
    assert!(s.port_lease("feat", NOW).is_none());
}

#[test]
fn create_lifecycle_updates_the_entry() {
    let mut s = StateV2::new_empty_at("r".to_string(), NOW);
    s.begin_create(creating_entry("/wt/f", "f", "abc", NOW, 9, "tool", "uuid-f"));
    assert_eq!(s.active_worktrees.get("f").unwrap().state, WorktreeState::Creating);
    s.finish_create("f", WorktreeState::Active, "/real/wt/f".to_string(), Some(3105), Some("default".to_string()), true);
    let e = s.active_worktrees.get("f").unwrap();
    assert_eq!(e.state, WorktreeState::Active);
    assert_eq!(e.path, "/real/wt/f");
    assert_eq!(e.port, Some(3105));
    assert!(e.setup_complete);
    s.set_entry_state("f", WorktreeState::Deleting);
    assert_eq!(s.active_worktrees.get("f").unwrap().state, WorktreeState::Deleting);
    s.port_leases.insert("f".to_string(), lease(3105, "f", NOW + HOUR));
    s.forget("f", true);
    assert!(!s.active_worktrees.contains_key("f"));
    assert!(!s.port_leases.contains_key("f"));
}

#[test]
fn attach_recovers_stale_identity_by_path_first() {
    let mut s = StateV2::new_empty_at("r".to_string(), NOW);
    s.active_worktrees.insert("b1".to_string(), entry("b1", WorktreeState::Active, NOW, 1));
    s.active_worktrees.insert("other".to_string(), entry("other", WorktreeState::Active, NOW, 1));
    s.evict("b1", NOW, "gc: age exceeded", 30, false);
    s.evict("other", NOW, "gc: age exceeded", 30, false);
    assert_eq!(s.find_stale_for("/wt/other", "b1"), Some("other".to_string()));
    assert_eq!(s.find_stale_for("/elsewhere", "b1"), Some("b1".to_string()));
    assert_eq!(s.find_stale_for("/elsewhere", "nope"), None);
    let key = s.find_stale_for("/wt/b1", "b1");
    let (uuid, port) = s.stale_identity(&key).unwrap();
    assert_eq!(uuid, "uuid-b1");
    assert_eq!(port, None);
    let e = attached_entry("/wt/b1", "b1", "abc", WorktreeState::Active, NOW, 5, "tool", &uuid, None, false, port);
    s.record_attach(&key, e);
    assert!(s.stale_worktrees.get("b1").is_none());
    assert_eq!(s.active_worktrees.get("b1").unwrap().session_uuid, "uuid-b1");
}

#[test]
fn enrichment_copies_recorded_metadata() {
    let mut s = StateV2::new_empty_at("r".to_string(), NOW);
    let mut e = entry("feat", WorktreeState::Active, NOW, 77);
    e.adapter = Some("default".to_string());
    e.setup_complete = true;
    e.port = Some(3102);
    s.active_worktrees.insert("feat".to_string(), e);
    let h = |b: &str| {
        WorktreeHandle::new(
            format!("/wt/{b}"),
            b.to_string(),
            "head".to_string(),
            WorktreeState::Active,
            String::new(),
            0,
            String::new(),
            None,
            false,
            None,
            String::new(),
        )
    };
    let mut hs = vec![h("feat"), h("main")];
    s.enrich_handles(&mut hs, true);
    assert_eq!(hs[0].base_commit, "abc");
    assert_eq!(hs[0].creator_pid, 77);
    assert_eq!(hs[0].port, Some(3102));
    assert_eq!(hs[0].adapter.as_deref(), Some("default"));
    assert!(hs[0].setup_complete);
    assert_eq!(hs[0].created_at, "2026-01-01T00:00:00+00:00");
    assert_eq!(hs[1].base_commit, "head");
    let mut partial = vec![h("feat")];
    s.enrich_handles(&mut partial, false);
    assert!(partial[0].adapter.is_none());
    assert_eq!(partial[0].session_uuid, "uuid-feat");
}

#[test]
fn test_gc_evicts_old_worktree_with_dead_creator_pid() {
    let mut s = StateV2::new_empty_at("r".to_string(), NOW);
    s.active_worktrees.insert("old".to_string(), entry("old", WorktreeState::Active, NOW - 10 * DAY, 4242));
    let evicted = vec![("/wt/old".to_string(), Some("old".to_string()))];
    s.record_gc(&evicted, &vec![], &evicted, &vec![], &vec![], NOW, 30, false, 3 * 1024 * 1024);
    assert!(!s.active_worktrees.contains_key("old"));
    let st = s.stale_worktrees.get("old").unwrap();
    assert_eq!(st.eviction_reason, "gc: age exceeded");
    assert_eq!(s.gc_history.len(), 1);
    assert_eq!(s.gc_history[0].removed, 1);
    assert_eq!(s.gc_history[0].evicted, 1);
    assert_eq!(s.gc_history[0].freed_mb, 3);
}

#[test]
fn test_gc_sweeps_abandoned_creating_entries() {
    let mut s = StateV2::new_empty_at("r".to_string(), NOW);
    s.active_worktrees.insert("dead".to_string(), entry("dead", WorktreeState::Creating, NOW - HOUR, 999_999));
    s.active_worktrees.insert("alive".to_string(), entry("alive", WorktreeState::Creating, NOW - HOUR, 4321));
    s.active_worktrees.insert("fresh".to_string(), entry("fresh", WorktreeState::Creating, NOW - 60_000_000, 999_999));
    s.record_gc(&vec![], &vec![], &vec![], &vec![], &vec![4321], NOW, 30, false, 0);
    assert!(!s.active_worktrees.contains_key("dead"));
    assert_eq!(s.stale_worktrees.get("dead").unwrap().eviction_reason, "gc: abandoned Creating entry");
    assert!(s.active_worktrees.contains_key("alive"));
    assert!(s.active_worktrees.contains_key("fresh"));
    assert_eq!(s.gc_history.len(), 1);
}

#[test]
fn test_gc_transitions_port_lease_to_stale() {
    let mut s = StateV2::new_empty_at("r".to_string(), NOW);
    s.active_worktrees.insert("old".to_string(), entry("old", WorktreeState::Active, NOW - 10 * DAY, 0));
    s.port_leases.insert("old".to_string(), lease(3100, "old", NOW + HOUR));
    let canon = vec![("/wt/old".to_string(), Some("/real/old".to_string()))];
    s.record_gc(&vec![("/wt/old".to_string(), None)], &vec![], &vec![], &canon, &vec![], NOW, 30, false, 0);
    assert!(!s.active_worktrees.contains_key("old"));
    assert_eq!(s.port_leases.get("old").unwrap().status, "stale");
    assert_eq!(s.port_leases.get("old").unwrap().port, 3100);
}

#[test]
fn dry_run_gc_changes_nothing() {
    let mut s = StateV2::new_empty_at("r".to_string(), NOW);
    s.active_worktrees.insert("old".to_string(), entry("old", WorktreeState::Active, NOW - 10 * DAY, 0));
    s.active_worktrees.insert("dead".to_string(), entry("dead", WorktreeState::Creating, NOW - HOUR, 999_999));
    s.port_leases.insert("old".to_string(), lease(3100, "old", NOW + HOUR));
    let evicted = vec![("/wt/old".to_string(), Some("old".to_string()))];
    s.record_gc(&evicted, &vec![], &vec![], &vec![], &vec![], NOW, 30, true, 0);
    assert!(s.active_worktrees.contains_key("old"));
    assert!(s.active_worktrees.contains_key("dead"));
    assert!(s.stale_worktrees.is_empty());
    assert_eq!(s.port_leases.get("old").unwrap().status, "active");
    assert!(s.gc_history.is_empty());
}

#[test]
fn gc_records_each_move_with_its_reason() {
    let mut s = StateV2::new_empty_at("r".to_string(), NOW);
    s.active_worktrees.insert("old".to_string(), entry("old", WorktreeState::Active, NOW - 10 * DAY, 0));
    s.active_worktrees.insert("lost".to_string(), entry("lost", WorktreeState::Active, NOW - 10 * DAY, 0));
    s.port_leases.insert("old".to_string(), lease(3100, "old", NOW + HOUR));
    let evicted = vec![("/wt/old".to_string(), Some("old".to_string()))];
    let removed = vec![("/wt/lost".to_string(), Some("lost".to_string()))];
    let orphans = vec!["/wt/lost".to_string()];
    s.record_gc(&evicted, &orphans, &removed, &vec![], &vec![], NOW, 30, false, 0);
    assert_eq!(s.stale_worktrees.get("old").unwrap().eviction_reason, "gc: age exceeded");
    assert_eq!(s.stale_worktrees.get("lost").unwrap().eviction_reason, "gc: orphaned worktree");
    assert_eq!(s.port_leases.get("old").unwrap().status, "stale");
    assert!(s.active_worktrees.is_empty());
}
