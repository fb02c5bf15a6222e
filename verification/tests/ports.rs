use iso_code::ports::{
    allocate_port, allocate_port_at, compute_preferred_port, is_lease_expired, make_lease, make_lease_at, renew_lease,
    renew_lease_at,
    sweep_expired_leases,
};
use iso_code::{PortLease, StringMap, WorktreeError};

const REPO_ID: &str = "test-repo-abc123";
const START: u16 = 3100;
const END: u16 = 5100;
const HOUR: i64 = 3_600_000_000;
const NOW: i64 = 1_767_225_600_000_000;

fn lease(port: u16, branch: &str, created_at: i64, expires_at: i64) -> PortLease {
    PortLease {
        port,
        branch: branch.to_string(),
        session_uuid: format!("uuid-{branch}"),
        pid: 1,
        created_at,
        expires_at,
        status: "active".to_string(),
    }
}

#[test]
fn preferred_port_is_deterministic() {
    let p1 = compute_preferred_port(REPO_ID, "main", START, END);
    let p2 = compute_preferred_port(REPO_ID, "main", START, END);
    assert_eq!(p1, p2);
    assert!((START..END).contains(&p1));
}

#[test]
fn preferred_port_is_in_range() {
    let port = compute_preferred_port(REPO_ID, "feature/test", START, END);
    assert!((START..END).contains(&port));
}

#[test]
fn preferred_port_matches_sha256_formula() {
    assert_eq!(compute_preferred_port(REPO_ID, "main", START, END), 3573);
    assert_eq!(compute_preferred_port(REPO_ID, "branch-a", START, END), 3638);
}

#[test]
fn allocate_no_collision() {
    let leases = StringMap::new();
    let port = allocate_port(REPO_ID, "main", "uuid-1", START, END, &leases).unwrap();
    assert!((START..END).contains(&port));
    assert_eq!(port, compute_preferred_port(REPO_ID, "main", START, END));
}

#[test]
fn allocate_probes_on_collision() {
    let preferred = compute_preferred_port(REPO_ID, "branch-a", START, END);
    let mut leases = StringMap::new();
    leases.insert("other".to_string(), make_lease(preferred, "other", "uuid-other", 1234));
    let port = allocate_port(REPO_ID, "branch-a", "uuid-a", START, END, &leases).unwrap();
    assert_ne!(port, preferred);
    assert_eq!(port, preferred + 1);
    assert!((START..END).contains(&port));
}

#[test]
fn allocate_full_range_returns_error() {
    let start: u16 = 3100;
    let end: u16 = 3102;
    let mut leases = StringMap::new();
    for port in start..end {
        leases.insert(port.to_string(), lease(port, &format!("branch-{port}"), NOW, NOW + 8 * HOUR));
    }
    let result = allocate_port_at(REPO_ID, "new-branch", start, end, &leases, NOW);
    assert!(matches!(result, Err(WorktreeError::RateLimitExceeded { current: 2, max: 2 })));
}

#[test]
fn empty_range_is_rate_limited() {
    let leases = StringMap::new();
    let result = allocate_port_at(REPO_ID, "b", 4000, 4000, &leases, NOW);
    assert!(matches!(result, Err(WorktreeError::RateLimitExceeded { current: 0, max: 0 })));
}

#[test]
fn allocation_wraps_around_the_range() {
    let start: u16 = 3100;
    let end: u16 = 3103;
    let preferred = compute_preferred_port(REPO_ID, "wrap", start, end);
    let mut leases = StringMap::new();
    let mut p = preferred;
    for i in 0..2 {
        leases.insert(format!("held-{i}"), lease(p, "held", NOW, NOW + HOUR));
        p = if p + 1 == end { start } else { p + 1 };
    }
    assert_eq!(allocate_port_at(REPO_ID, "wrap", start, end, &leases, NOW).unwrap(), p);
}

#[test]
fn expired_lease_frees_port() {
    let preferred = compute_preferred_port(REPO_ID, "branch-b", START, END);
    let mut leases = StringMap::new();
    let past = NOW - HOUR;
    leases.insert("expired".to_string(), lease(preferred, "other", past - 8 * HOUR, past));
    let port = allocate_port_at(REPO_ID, "branch-b", START, END, &leases, NOW).unwrap();
    assert_eq!(port, preferred);
}

#[test]
fn twenty_branches_get_unique_ports() {
    let start: u16 = 3100;
    let end: u16 = 3120;
    let mut leases = StringMap::new();
    let mut allocated = std::collections::HashSet::new();
    for i in 0..20u32 {
        let branch = format!("branch-{i}");
        let session = format!("uuid-{i}");
        let port = allocate_port(REPO_ID, &branch, &session, start, end, &leases).unwrap();
        assert!(allocated.insert(port), "port {port} was allocated twice");
        leases.insert(branch.clone(), make_lease(port, &branch, &session, 1234));
    }
    assert_eq!(allocated.len(), 20);
    assert!(allocate_port(REPO_ID, "one-more", "u", start, end, &leases).is_err());
}

#[test]
fn sweep_removes_expired_leases() {
    let mut leases = StringMap::new();
    let past = NOW - HOUR;
    let future = NOW + 7 * HOUR;
    leases.insert("expired".to_string(), lease(3100, "old", past - 8 * HOUR, past));
    leases.insert("active".to_string(), lease(3101, "new", NOW - HOUR, future));
    let removed = sweep_expired_leases(&mut leases, NOW);
    assert_eq!(removed, 1);
    assert!(!leases.contains_key("expired"));
    assert!(leases.contains_key("active"));
}

#[test]
fn lease_expires_exactly_at_its_expiry() {
    let l = lease(3100, "b", NOW, NOW + HOUR);
    assert!(!is_lease_expired(&l, NOW + HOUR - 1));
    assert!(is_lease_expired(&l, NOW + HOUR));
}

#[test]
fn renew_extends_expiry() {
    let mut l = make_lease_at(3100, "main", "uuid-1", 1234, NOW);
    assert_eq!(l.expires_at, NOW + 8 * HOUR);
    assert_eq!(l.status, "active");
    let original_expiry = l.expires_at;
    renew_lease_at(&mut l, NOW + 10);
    assert!(l.expires_at > original_expiry);
    assert_eq!(l.expires_at, NOW + 10 + 8 * HOUR);
    assert_eq!(l.created_at, NOW);
}

#[test]
fn renew_now_pushes_expiry_eight_hours_past_the_clock() {
    let mut l = make_lease_at(3100, "main", "uuid-1", 1234, 0);
    renew_lease(&mut l);
    assert!(l.expires_at > 1_700_000_000_000_000 + 8 * HOUR);
    assert_eq!(l.created_at, 0);
    assert_eq!(l.port, 3100);
}
