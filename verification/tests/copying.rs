use iso_code::copying::CopyTally;
use iso_code::lock::process_start_time_from;
use iso_code::state::{creating_entry, new_creating_entry, recorded_handle};
use iso_code::{CopyOutcome, EnvVars, WorktreeState};

#[test]
fn empty_tally_copied_nothing() {
    assert_eq!(CopyTally::new().outcome(), CopyOutcome::NoCopy);
}

#[test]
fn tally_sums_plain_copies() {
    let mut t = CopyTally::new();
    t.add(CopyOutcome::StandardCopy { bytes_written: 10 });
    t.add(CopyOutcome::NoCopy);
    t.add(CopyOutcome::StandardCopy { bytes_written: 32 });
    assert_eq!(t.outcome(), CopyOutcome::StandardCopy { bytes_written: 42 });
}

#[test]
fn tally_of_reflinks_only_is_reflinked() {
    let mut t = CopyTally::new();
    t.add(CopyOutcome::Reflinked);
    t.add(CopyOutcome::Reflinked);
    assert_eq!(t.outcome(), CopyOutcome::Reflinked);
}

#[test]
fn tally_of_mixed_copies_reports_bytes() {
    let mut t = CopyTally::new();
    t.add(CopyOutcome::Reflinked);
    t.add(CopyOutcome::StandardCopy { bytes_written: 7 });
    assert_eq!(t.outcome(), CopyOutcome::StandardCopy { bytes_written: 7 });
}

#[test]
fn start_time_is_the_twentieth_field_after_the_state() {
    let stat = "1234 (my (odd) prog) S 1 2 3 4 5 6 7 8 9 10 11 12 13 14 15 16 17 18 987654 20 21";
    assert_eq!(process_start_time_from(stat), 987654);
}

#[test]
fn start_time_is_zero_when_absent_or_unparsable() {
    assert_eq!(process_start_time_from("no parenthesis here"), 0);
    assert_eq!(process_start_time_from("1 (p) S 1 2 3"), 0);
    let stat = "1 (p) S 1 2 3 4 5 6 7 8 9 10 11 12 13 14 15 16 17 18 x";
    assert_eq!(process_start_time_from(stat), 0);
}

#[test]
fn env_vars_for_a_worktree() {
    let e = EnvVars::for_worktree("/w/feat", "feat", "/repo", "tool", Some(3150), "uuid-9");
    assert_eq!(e.path, "/w/feat");
    assert_eq!(e.branch, "feat");
    assert_eq!(e.repo, "/repo");
    assert_eq!(e.name, "tool");
    assert_eq!(e.port, "3150");
    assert_eq!(e.uuid, "uuid-9");
    let none = EnvVars::for_worktree("/w", "b", "/r", "n", None, "u");
    assert_eq!(none.port, "");
}

#[test]
fn recorded_handle_carries_the_entry() {
    let e = creating_entry("/w/feat", "feat", "abc123", 1_700_000_000_000_000, 42, "tool", "uuid-1");
    let h = recorded_handle(&e);
    assert_eq!(h.path, "/w/feat");
    assert_eq!(h.branch, "feat");
    assert_eq!(h.base_commit, "abc123");
    assert_eq!(h.state, WorktreeState::Creating);
    assert_eq!(h.created_at, "2023-11-14T22:13:20+00:00");
    assert_eq!(h.creator_pid, 42);
    assert_eq!(h.creator_name, "tool");
    assert_eq!(h.session_uuid, "uuid-1");
    assert_eq!(h.port, None);
}

#[test]
fn new_creating_entries_get_fresh_ids() {
    let a = new_creating_entry("/w/a", "a", "c", 7, "tool");
    let b = new_creating_entry("/w/a", "a", "c", 7, "tool");
    assert_eq!(a.state, WorktreeState::Creating);
    assert_eq!(a.session_uuid.len(), 36);
    assert_ne!(a.session_uuid, b.session_uuid);
    assert!(a.created_at > 0);
    assert_eq!(a.last_activity, Some(a.created_at));
}

#[test]
fn fresh_session_ids_are_hyphenated_lowercase_v4_uuids() {
    let e = new_creating_entry("/w/b", "b", "c", 7, "tool");
    let id: Vec<char> = e.session_uuid.chars().collect();
    assert_eq!(id.len(), 36);
    for (i, c) in id.iter().enumerate() {
        if [8, 13, 18, 23].contains(&i) {
            assert_eq!(*c, '-');
        } else {
            assert!(c.is_ascii_digit() || ('a'..='f').contains(c), "{c} at {i}");
        }
    }
    assert_eq!(id[14], '4');
    assert!(['8', '9', 'a', 'b'].contains(&id[19]));
}
