//! The state file's model (schema v2), where it lives, how older files are
//! brought up to the current schema, and the updates each operation makes.
//!
//! Maps are keyed by branch name. Times are microseconds since the epoch.
//! Fields that a newer writer added and this model does not know are kept,
//! as raw JSON text per key, in each record's `extra`.
use vstd::prelude::*;

use vstd::string::StringSliceAdditionalSpecFns;

use crate::clock::{max_time_micros, micros_per_day, now_micros};
use crate::error::WorktreeError;
use crate::hash::{hex, hex_string, sha256, sha256_digest};
use crate::map::StringMap;
use crate::text::{chars_of, decimal, push_decimal, push_str, string_from_chars};
use crate::types::{PortLease, WorktreeState};

verus! {

// ── Records ──────────────────────────────────────────────────────────────

/// A managed worktree as recorded in the state file.
#[derive(Debug)]
pub struct ActiveWorktreeEntry {
    pub path: String,
    pub branch: String,
    pub base_commit: String,
    pub state: WorktreeState,
    pub created_at: i64,
    pub last_activity: Option<i64>,
    pub creator_pid: u32,
    pub creator_name: String,
    pub session_uuid: String,
    pub adapter: Option<String>,
    pub setup_complete: bool,
    pub port: Option<u16>,
    /// Unknown fields, name to raw JSON text.
    pub extra: Vec<(String, String)>,
}

/// An evicted worktree whose metadata is kept until `expires_at`.
#[derive(Debug)]
pub struct StaleWorktreeEntry {
    pub original_path: String,
    pub branch: String,
    pub base_commit: String,
    pub creator_name: String,
    pub session_uuid: String,
    pub port: Option<u16>,
    pub last_activity: Option<i64>,
    pub evicted_at: i64,
    pub eviction_reason: String,
    pub expires_at: i64,
    /// Unknown fields, name to raw JSON text.
    pub extra: Vec<(String, String)>,
}

/// The configuration recorded in the state file for diagnostics.
#[derive(Debug)]
pub struct ConfigSnapshot {
    pub max_worktrees: usize,
    pub disk_threshold_percent: u8,
    pub gc_max_age_days: u32,
    pub port_range_start: u16,
    pub port_range_end: u16,
    pub stale_metadata_ttl_days: u32,
    /// Unknown fields, name to raw JSON text.
    pub extra: Vec<(String, String)>,
}

/// One garbage-collection run.
#[derive(Debug)]
pub struct GcHistoryEntry {
    pub timestamp: i64,
    pub removed: u32,
    pub evicted: u32,
    pub freed_mb: u64,
    /// Unknown fields, name to raw JSON text.
    pub extra: Vec<(String, String)>,
}

/// The whole state file (schema version 2).
#[derive(Debug)]
pub struct StateV2 {
    pub schema_version: u64,
    pub repo_id: String,
    pub last_modified: i64,
    pub active_worktrees: StringMap<ActiveWorktreeEntry>,
    pub stale_worktrees: StringMap<StaleWorktreeEntry>,
    pub port_leases: StringMap<PortLease>,
    pub config_snapshot: Option<ConfigSnapshot>,
    pub gc_history: Vec<GcHistoryEntry>,
    /// Unknown top-level fields, name to raw JSON text.
    pub extra: Vec<(String, String)>,
}

/// Whether `s` is a fresh state for `repo_id` last modified at `now`.
pub open spec fn is_empty_state(s: StateV2, repo_id: Seq<char>, now: int) -> bool {
    &&& s.schema_version == 2
    &&& s.repo_id@ == repo_id
    &&& s.last_modified == now
    &&& s.active_worktrees@ == Map::<Seq<char>, ActiveWorktreeEntry>::empty()
    &&& s.stale_worktrees@ == Map::<Seq<char>, StaleWorktreeEntry>::empty()
    &&& s.port_leases@ == Map::<Seq<char>, PortLease>::empty()
    &&& s.config_snapshot is None
    &&& s.gc_history@.len() == 0
    &&& s.extra@.len() == 0
}

impl StateV2 {
    /// A fresh, empty state for `repo_id`, last modified at `now`.
    pub fn new_empty_at(repo_id: String, now: i64) -> (s: Self)
        ensures
            is_empty_state(s, repo_id@, now as int),
    {
        StateV2 {
            schema_version: 2,
            repo_id,
            last_modified: now,
            active_worktrees: StringMap::new(),
            stale_worktrees: StringMap::new(),
            port_leases: StringMap::new(),
            config_snapshot: None,
            gc_history: Vec::new(),
            extra: Vec::new(),
        }
    }

    /// A fresh, empty state for `repo_id`, last modified now.
    pub fn new_empty(repo_id: String) -> (s: Self)
        ensures
            0 <= s.last_modified <= max_time_micros(),
            is_empty_state(s, repo_id@, s.last_modified as int),
    {
        let now = now_micros();
        Self::new_empty_at(repo_id, now)
    }
}

// ── Locations ────────────────────────────────────────────────────────────

/// The repository id: lowercase hex SHA-256 of the canonical repository path.
pub open spec fn repo_id_of(canonical_root: Seq<char>) -> Seq<char> {
    hex(sha256(vstd::utf8::encode_utf8(canonical_root)))
}

/// Compute the repository id from the canonicalized repository root.
pub fn compute_repo_id(canonical_root: &str) -> (id: String)
    ensures
        id@ == repo_id_of(canonical_root@),
        id@.len() == 64,
{
    let digest = sha256_digest(canonical_root.as_bytes());
    let text = hex_string(digest.as_slice());
    string_from_chars(&text)
}

/// `name` appended to `base` as one more path component (as `PathBuf::push`
/// does with a relative name).
pub open spec fn join_path(base: Seq<char>, name: Seq<char>) -> Seq<char> {
    if base.len() == 0 || base.last() == '/' {
        base + name
    } else {
        base + seq!['/'] + name
    }
}

fn join_path_exec(base: &str, name: &str) -> (r: String)
    ensures
        r@ == join_path(base@, name@),
{
    let mut out = chars_of(base);
    let n = out.len();
    if n != 0 && out[n - 1] != '/' {
        out.push('/');
    }
    push_str(&mut out, name);
    proof {
        assert(out@ =~= join_path(base@, name@));
    }
    string_from_chars(&out)
}

/// The state directory: the configured override, else the `ISO_CODE_HOME`
/// environment value, else `<repo>/.git/iso-code`.
pub open spec fn state_dir_of(repo_root: Seq<char>, home_override: Option<Seq<char>>, env_home: Option<Seq<char>>) -> Seq<char> {
    match home_override {
        Some(h) => h,
        None => match env_home {
            Some(h) => h,
            None => join_path(join_path(repo_root, ".git"@), "iso-code"@),
        },
    }
}

/// The view of an optional string.
pub open spec fn opt_view(o: Option<&str>) -> Option<Seq<char>> {
    match o {
        Some(s) => Some(s@),
        None => None,
    }
}

/// Return the state directory. `env_home` is the value of `ISO_CODE_HOME`
/// in the environment, if set.
pub fn state_dir(repo_root: &str, home_override: Option<&str>, env_home: Option<&str>) -> (d: String)
    ensures
        d@ == state_dir_of(repo_root@, opt_view(home_override), opt_view(env_home)),
{
    match home_override {
        Some(h) => h.to_owned(),
        None => match env_home {
            Some(h) => h.to_owned(),
            None => {
                let git = join_path_exec(repo_root, ".git");
                proof {
                    reveal_strlit(".git");
                    reveal_strlit("iso-code");
                }
                join_path_exec(git.as_str(), "iso-code")
            },
        },
    }
}

/// Return the `state.json` path.
pub fn state_json_path(repo_root: &str, home_override: Option<&str>, env_home: Option<&str>) -> (p: String)
    ensures
        p@ == join_path(state_dir_of(repo_root@, opt_view(home_override), opt_view(env_home)), "state.json"@),
{
    let d = state_dir(repo_root, home_override, env_home);
    join_path_exec(d.as_str(), "state.json")
}

/// Return the `state.lock` path.
pub fn state_lock_path(repo_root: &str, home_override: Option<&str>, env_home: Option<&str>) -> (p: String)
    ensures
        p@ == join_path(state_dir_of(repo_root@, opt_view(home_override), opt_view(env_home)), "state.lock"@),
{
    let d = state_dir(repo_root, home_override, env_home);
    join_path_exec(d.as_str(), "state.lock")
}

// ── Schema migration ─────────────────────────────────────────────────────

/// How a state file of a given schema is read.
#[derive(Debug, Clone, Copy, PartialEq, Eq, Structural)]
pub enum Migration {
    /// Version 1: `worktrees` become `active_worktrees`; everything else starts empty.
    FromV1,
    /// Version 2: read as it stands.
    Current,
}

/// The schema a file declares: `schema_version`, else `version`, else 1.
pub open spec fn declared_schema(schema_version: Option<u64>, version: Option<u64>) -> u64 {
    match schema_version {
        Some(v) => v,
        None => match version {
            Some(v) => v,
            None => 1,
        },
    }
}

/// Whether `r` is how a file declaring `schema_version` / `version` is read:
/// 1 migrates, 2 is current, anything else is `StateCorrupted` with reason
/// `"unknown schema version {v}"`.
pub open spec fn migration_result(r: Result<Migration, WorktreeError>, schema_version: Option<u64>, version: Option<u64>) -> bool {
    let v = declared_schema(schema_version, version);
    if v == 1 {
        r == Ok::<Migration, WorktreeError>(Migration::FromV1)
    } else if v == 2 {
        r == Ok::<Migration, WorktreeError>(Migration::Current)
    } else {
        &&& r is Err
        &&& r->Err_0 is StateCorrupted
        &&& r->Err_0->StateCorrupted_reason@ == "unknown schema version "@ + decimal(v as nat)
    }
}

/// Decide how to read a state file from its `schema_version` and `version`
/// fields (each present only where it holds an unsigned integer).
pub fn migration_for(schema_version: Option<u64>, version: Option<u64>) -> (r: Result<Migration, WorktreeError>)
    ensures
        migration_result(r, schema_version, version),
{
    let v: u64 = match schema_version {
        Some(v) => v,
        None => match version {
            Some(v) => v,
            None => 1,
        },
    };
    if v == 1 {
        Ok(Migration::FromV1)
    } else if v == 2 {
        Ok(Migration::Current)
    } else {
        let mut out = chars_of("unknown schema version ");
        push_decimal(&mut out, v);
        proof {
            reveal_strlit("unknown schema version ");
        }
        Err(WorktreeError::StateCorrupted { reason: string_from_chars(&out) })
    }
}

/// The map holding `entries`, a later entry replacing an earlier one with the same key.
pub open spec fn map_of_entries<V>(entries: Seq<(String, V)>) -> Map<Seq<char>, V>
    decreases entries.len(),
{
    if entries.len() == 0 {
        Map::empty()
    } else {
        map_of_entries(entries.drop_last()).insert(entries.last().0@, entries.last().1)
    }
}

/// Build the v2 state for a version-1 file: its `repo_id` (empty when absent)
/// and its worktrees as the active entries, all else empty, last modified at `now`.
pub fn migrate_v1_to_v2(repo_id: Option<String>, worktrees: Vec<(String, ActiveWorktreeEntry)>, now: i64) -> (s: StateV2)
    ensures
        s.schema_version == 2,
        s.repo_id@ == (match repo_id {
            Some(r) => r@,
            None => Seq::<char>::empty(),
        }),
        s.last_modified == now,
        s.active_worktrees@ == map_of_entries(worktrees@),
        s.stale_worktrees@ == Map::<Seq<char>, StaleWorktreeEntry>::empty(),
        s.port_leases@ == Map::<Seq<char>, PortLease>::empty(),
        s.config_snapshot is None,
        s.gc_history@.len() == 0,
        s.extra@.len() == 0,
{
    let id = match repo_id {
        Some(r) => r,
        None => String::new(),
    };
    let mut s = StateV2::new_empty_at(id, now);
    let ghost idv = s.repo_id@;
    let mut rest = worktrees;
    let ghost all = rest@;
    let n = rest.len();
    let mut i: usize = 0;
    while i < n
        invariant
            n == all.len(),
            i <= n,
            rest@ == all.skip(i as int),
            s.active_worktrees@ == map_of_entries(all.take(i as int)),
            s.schema_version == 2,
            s.repo_id@ == idv,
            s.last_modified == now,
            s.stale_worktrees@ == Map::<Seq<char>, StaleWorktreeEntry>::empty(),
            s.port_leases@ == Map::<Seq<char>, PortLease>::empty(),
            s.config_snapshot is None,
            s.gc_history@.len() == 0,
            s.extra@.len() == 0,
        decreases n - i,
    {
        let (k, v) = rest.remove(0);
        proof {
            assert(rest@ =~= all.skip(i as int + 1));
            assert(all.take(i as int + 1).drop_last() =~= all.take(i as int));
        }
        s.active_worktrees.insert(k, v);
        i = i + 1;
    }
    proof {
        assert(all.take(n as int) =~= all);
    }
    s
}

// ── Eviction and reconciliation ──────────────────────────────────────────

/// Whether `st` is the stale record made from `e` when it is evicted at `now`
/// for `reason`, kept for `ttl_days` days.
pub open spec fn is_eviction(st: StaleWorktreeEntry, e: ActiveWorktreeEntry, now: int, reason: Seq<char>, ttl_days: int) -> bool {
    &&& st.original_path == e.path
    &&& st.branch == e.branch
    &&& st.base_commit == e.base_commit
    &&& st.creator_name == e.creator_name
    &&& st.session_uuid == e.session_uuid
    &&& st.port == e.port
    &&& st.last_activity == e.last_activity
    &&& st.evicted_at == now
    &&& st.eviction_reason@ == reason
    &&& st.expires_at == now + ttl_days * micros_per_day()
    &&& st.extra@.len() == 0
}

/// Whether `l2` is `l` with its status set to `"stale"`.
pub open spec fn is_stale_lease(l2: PortLease, l: PortLease) -> bool {
    &&& l2 == (PortLease { status: l2.status, ..l })
    &&& l2.status@ == "stale"@
}

/// The fields of `b` other than the three maps equal those of `a`.
pub open spec fn same_but_maps(a: StateV2, b: StateV2) -> bool {
    &&& b.schema_version == a.schema_version
    &&& b.repo_id == a.repo_id
    &&& b.last_modified == a.last_modified
    &&& b.config_snapshot == a.config_snapshot
    &&& b.gc_history == a.gc_history
    &&& b.extra == a.extra
}

/// The stale record for `e` evicted at `now` for `reason`.
fn eviction_of(e: ActiveWorktreeEntry, now: i64, reason: &str, ttl_days: u32) -> (st: StaleWorktreeEntry)
    requires
        now + ttl_days * micros_per_day() <= i64::MAX,
    ensures
        is_eviction(st, e, now as int, reason@, ttl_days as int),
{
    let expires: i128 = now as i128 + (ttl_days as i128) * 86_400_000_000;
    StaleWorktreeEntry {
        original_path: e.path,
        branch: e.branch,
        base_commit: e.base_commit,
        creator_name: e.creator_name,
        session_uuid: e.session_uuid,
        port: e.port,
        last_activity: e.last_activity,
        evicted_at: now,
        eviction_reason: reason.to_owned(),
        expires_at: expires as i64,
        extra: Vec::new(),
    }
}

impl StateV2 {
    /// Move the active entry `key`, if any, to the stale entries, evicted at
    /// `now` for `reason`; with `mark_lease`, a lease held under `key` turns
    /// `"stale"`. Returns whether an entry moved.
    pub fn evict(&mut self, key: &str, now: i64, reason: &str, ttl_days: u32, mark_lease: bool) -> (moved: bool)
        requires
            now + ttl_days * micros_per_day() <= i64::MAX,
        ensures
            moved == old(self).active_worktrees@.dom().contains(key@),
            same_but_maps(*old(self), *final(self)),
            final(self).active_worktrees@ == old(self).active_worktrees@.remove(key@),
            moved ==> final(self).stale_worktrees@.dom() == old(self).stale_worktrees@.dom().insert(key@),
            moved ==> is_eviction(final(self).stale_worktrees@[key@], old(self).active_worktrees@[key@], now as int, reason@, ttl_days as int),
            moved ==> forall|k: Seq<char>| k != key@ && #[trigger] old(self).stale_worktrees@.dom().contains(k)
                ==> final(self).stale_worktrees@[k] == old(self).stale_worktrees@[k],
            !moved ==> final(self).stale_worktrees@ == old(self).stale_worktrees@,
            (moved && mark_lease) ==> final(self).port_leases@.dom() == old(self).port_leases@.dom(),
            (moved && mark_lease && old(self).port_leases@.dom().contains(key@)) ==> is_stale_lease(
                final(self).port_leases@[key@], old(self).port_leases@[key@]),
            (moved && mark_lease) ==> forall|k: Seq<char>| k != key@ && #[trigger] old(self).port_leases@.dom().contains(k)
                ==> final(self).port_leases@[k] == old(self).port_leases@[k],
            !(moved && mark_lease) ==> final(self).port_leases@ == old(self).port_leases@,
    {
        match self.active_worktrees.remove(key) {
            Some(entry) => {
                let st = eviction_of(entry, now, reason, ttl_days);
                self.stale_worktrees.insert(key.to_owned(), st);
                if mark_lease {
                    match self.port_leases.remove(key) {
                        Some(lease) => {
                            let l2 = PortLease { status: "stale".to_owned(), ..lease };
                            self.port_leases.insert(key.to_owned(), l2);
                            proof {
                                reveal_strlit("stale");
                            }
                        },
                        None => {},
                    }
                }
                proof {
                    assert(self.stale_worktrees@.dom() =~= old(self).stale_worktrees@.dom().insert(key@));
                    if mark_lease {
                        assert(self.port_leases@.dom() =~= old(self).port_leases@.dom());
                    }
                }
                true
            },
            None => false,
        }
    }
}

/// Whether an active entry survives reconciliation against the branches git lists.
pub open spec fn keeps_active(k: Seq<char>, e: ActiveWorktreeEntry, git: Seq<Seq<char>>) -> bool {
    git.contains(k) || e.state == WorktreeState::Creating || e.state == WorktreeState::Pending
}

/// Whether `k` is the view of one of the first `n` strings of `ks`.
pub open spec fn in_prefix(ks: Seq<String>, n: int, k: Seq<char>) -> bool {
    exists|a: int| 0 <= a < n && (#[trigger] ks[a])@ == k
}

/// The reason recorded for entries that reconciliation evicts.
pub open spec fn reconcile_reason() -> Seq<char> {
    "reconciliation: not in git worktree list"@
}

/// Whether `v` is among the views of `ks`.
fn contains_text(ks: &Vec<String>, v: &str) -> (b: bool)
    ensures
        b == ks@.map_values(|s: String| s@).contains(v@),
{
    let mut i: usize = 0;
    while i < ks.len()
        invariant
            i <= ks@.len(),
            forall|j: int| 0 <= j < i ==> (#[trigger] ks@[j])@ != v@,
        decreases ks@.len() - i,
    {
        if crate::text::str_is(ks[i].as_str(), v) {
            proof {
                assert(ks@.map_values(|s: String| s@)[i as int] == v@);
            }
            return true;
        }
        i = i + 1;
    }
    proof {
        let m = ks@.map_values(|s: String| s@);
        if m.contains(v@) {
            let j = choose|j: int| 0 <= j < m.len() && #[trigger] m[j] == v@;
            assert(ks@[j]@ == v@);
        }
    }
    false
}

/// Keys of active entries that reconciliation evicts.
fn keys_to_evict(active: &StringMap<ActiveWorktreeEntry>, git: &Vec<String>) -> (ks: Vec<String>)
    ensures
        forall|k: Seq<char>| in_prefix(ks@, ks@.len() as int, k) <==> (
            active@.dom().contains(k) && !keeps_active(k, active@[k], git@.map_values(|s: String| s@))),
        forall|a: int, b: int| 0 <= a < b < ks@.len() ==> (#[trigger] ks@[a])@ != (#[trigger] ks@[b])@,
{
    let ghost g = git@.map_values(|s: String| s@);
    let n = active.len();
    let ghost ps = active.pairs();
    let mut ks: Vec<String> = Vec::new();
    let mut i: usize = 0;
    proof {
        assert forall|a: int| 0 <= a < n implies #[trigger] active@.dom().contains(ps[a].0) && active@[ps[a].0] == ps[a].1 by {
            assert(active@.dom().contains(active.pairs()[a].0));
        }
    }
    while i < n
        invariant
            n == ps.len(),
            ps == active.pairs(),
            g == git@.map_values(|s: String| s@),
            i <= n,
            forall|a: int, b: int| 0 <= a < n && 0 <= b < n && a != b ==> (#[trigger] ps[a]).0 != (#[trigger] ps[b]).0,
            forall|a: int| 0 <= a < n ==> #[trigger] active@.dom().contains(ps[a].0) && active@[ps[a].0] == ps[a].1,
            forall|k: Seq<char>| in_prefix(ks@, ks@.len() as int, k) <==> exists|j: int|
                0 <= j < i && (#[trigger] ps[j]).0 == k && !keeps_active(k, ps[j].1, g),
            forall|a: int| 0 <= a < ks@.len() ==> exists|j: int| 0 <= j < i && (#[trigger] ps[j]).0 == (#[trigger] ks@[a])@,
            forall|a: int, b: int| 0 <= a < b < ks@.len() ==> (#[trigger] ks@[a])@ != (#[trigger] ks@[b])@,
        decreases n - i,
    {
        let (k, e) = active.entry_at(i);
        let st = e.state;
        let in_git = contains_text(git, k.as_str());
        if !in_git && st != WorktreeState::Creating && st != WorktreeState::Pending {
            let ghost before = ks@;
            ks.push(k.clone());
            proof {
                assert forall|kk: Seq<char>| in_prefix(ks@, ks@.len() as int, kk) <==> exists|j: int|
                    0 <= j < i + 1 && (#[trigger] ps[j]).0 == kk && !keeps_active(kk, ps[j].1, g) by {
                    if in_prefix(ks@, ks@.len() as int, kk) {
                        let a = choose|a: int| 0 <= a < ks@.len() && (#[trigger] ks@[a])@ == kk;
                        if a < before.len() {
                            assert(before[a] == ks@[a]);
                            assert(in_prefix(before, before.len() as int, kk));
                        } else {
                            assert(ps[i as int].0 == kk);
                        }
                    }
                    if exists|j: int| 0 <= j < i + 1 && (#[trigger] ps[j]).0 == kk && !keeps_active(kk, ps[j].1, g) {
                        let j = choose|j: int| 0 <= j < i + 1 && (#[trigger] ps[j]).0 == kk && !keeps_active(kk, ps[j].1, g);
                        if j < i {
                            assert(exists|j2: int| 0 <= j2 < i && (#[trigger] ps[j2]).0 == kk && !keeps_active(kk, ps[j2].1, g));
                            assert(in_prefix(before, before.len() as int, kk));
                            let a = choose|a: int| 0 <= a < before.len() && (#[trigger] before[a])@ == kk;
                            assert(ks@[a] == before[a]);
                        } else {
                            assert(ks@[before.len() as int]@ == kk);
                        }
                    }
                }
                assert forall|a: int| 0 <= a < ks@.len() implies exists|j: int| 0 <= j < i + 1 && (#[trigger] ps[j]).0 == (#[trigger] ks@[a])@ by {
                    if a < before.len() {
                        assert(before[a] == ks@[a]);
                        let j = choose|j: int| 0 <= j < i && (#[trigger] ps[j]).0 == (#[trigger] before[a])@;
                    } else {
                        assert(ps[i as int].0 == ks@[a]@);
                    }
                }
                assert forall|a: int, b: int| 0 <= a < b < ks@.len() implies (#[trigger] ks@[a])@ != (#[trigger] ks@[b])@ by {
                    if b < before.len() {
                        assert(before[a] == ks@[a] && before[b] == ks@[b]);
                    } else {
                        assert(before[a] == ks@[a]);
                        let j = choose|j: int| 0 <= j < i && (#[trigger] ps[j]).0 == (#[trigger] before[a])@;
                        assert(ps[j].0 != ps[i as int].0);
                    }
                }
            }
        } else {
            proof {
                assert forall|kk: Seq<char>| in_prefix(ks@, ks@.len() as int, kk) <==> exists|j: int|
                    0 <= j < i + 1 && (#[trigger] ps[j]).0 == kk && !keeps_active(kk, ps[j].1, g) by {
                    if exists|j: int| 0 <= j < i + 1 && (#[trigger] ps[j]).0 == kk && !keeps_active(kk, ps[j].1, g) {
                        let j = choose|j: int| 0 <= j < i + 1 && (#[trigger] ps[j]).0 == kk && !keeps_active(kk, ps[j].1, g);
                        assert(j < i);
                    }
                }
            }
        }
        i = i + 1;
    }
    proof {
        assert forall|k: Seq<char>| in_prefix(ks@, ks@.len() as int, k) <==> (
            active@.dom().contains(k) && !keeps_active(k, active@[k], g)) by {
            if active@.dom().contains(k) {
                let j = choose|j: int| 0 <= j < ps.len() && (#[trigger] ps[j]).0 == k;
                assert(active@[ps[j].0] == ps[j].1);
            }
        }
    }
    ks
}

/// Whether `final` is `old` after reconciliation against the branches git
/// lists, at `now`, with evicted metadata kept `ttl_days` days.
pub open spec fn reconciled(old: StateV2, new: StateV2, git: Seq<Seq<char>>, now: int, ttl_days: int) -> bool {
    let moved = |k: Seq<char>| old.active_worktrees@.dom().contains(k) && !keeps_active(k, old.active_worktrees@[k], git);
    &&& same_but_maps(old, new)
    &&& new.active_worktrees@ == old.active_worktrees@.restrict(
        old.active_worktrees@.dom().filter(|k: Seq<char>| keeps_active(k, old.active_worktrees@[k], git)))
    &&& forall|k: Seq<char>| #[trigger] new.stale_worktrees@.dom().contains(k) <==> (
        (moved(k) || old.stale_worktrees@.dom().contains(k)) && now < (if moved(k) {
            now + ttl_days * micros_per_day()
        } else {
            old.stale_worktrees@[k].expires_at as int
        }))
    &&& forall|k: Seq<char>| #[trigger] new.stale_worktrees@.dom().contains(k) ==> (if moved(k) {
        is_eviction(new.stale_worktrees@[k], old.active_worktrees@[k], now, reconcile_reason(), ttl_days)
    } else {
        new.stale_worktrees@[k] == old.stale_worktrees@[k]
    })
    &&& new.port_leases@ == crate::ports::live_leases(old.port_leases@, now)
}

/// Whether the stale record `st` is still kept at `*now`.
fn stale_is_live(st: &StaleWorktreeEntry, now: &i64) -> (b: bool)
    ensures
        b == (*now < st.expires_at),
{
    *now < st.expires_at
}

impl StateV2 {
    /// Reconcile with the branches `git worktree list` reports: active
    /// entries git does not list (unless `Creating` or `Pending`) move to the
    /// stale entries, stale entries past their expiry are purged, and leases
    /// expired at `now` are dropped.
    pub fn reconcile(&mut self, git_branches: &Vec<String>, now: i64, stale_ttl_days: u32)
        requires
            now + stale_ttl_days * micros_per_day() <= i64::MAX,
        ensures
            reconciled(*old(self), *final(self), git_branches@.map_values(|s: String| s@), now as int, stale_ttl_days as int),
    {
        let ghost g = git_branches@.map_values(|s: String| s@);
        let ghost old_active = self.active_worktrees@;
        let ghost old_stale = self.stale_worktrees@;
        let ghost old_leases = self.port_leases@;
        let ghost ttl = stale_ttl_days as int;
        let keys = keys_to_evict(&self.active_worktrees, git_branches);
        let reason = "reconciliation: not in git worktree list";
        proof {
            reveal_strlit("reconciliation: not in git worktree list");
        }
        let mut j: usize = 0;
        while j < keys.len()
            invariant
                j <= keys@.len(),
                now + stale_ttl_days * micros_per_day() <= i64::MAX,
                reason@ == reconcile_reason(),
                ttl == stale_ttl_days as int,
                same_but_maps(*old(self), *self),
                self.port_leases@ == old_leases,
                forall|k: Seq<char>| in_prefix(keys@, keys@.len() as int, k) <==> (
                    old_active.dom().contains(k) && !keeps_active(k, old_active[k], g)),
                forall|a: int, b: int| 0 <= a < b < keys@.len() ==> (#[trigger] keys@[a])@ != (#[trigger] keys@[b])@,
                forall|k: Seq<char>| #[trigger] self.active_worktrees@.dom().contains(k) <==> (
                    old_active.dom().contains(k) && !in_prefix(keys@, j as int, k)),
                forall|k: Seq<char>| #[trigger] self.active_worktrees@.dom().contains(k) ==> self.active_worktrees@[k] == old_active[k],
                forall|k: Seq<char>| #[trigger] self.stale_worktrees@.dom().contains(k) <==> (
                    old_stale.dom().contains(k) || in_prefix(keys@, j as int, k)),
                forall|k: Seq<char>| #[trigger] self.stale_worktrees@.dom().contains(k) ==> (if in_prefix(keys@, j as int, k) {
                    is_eviction(self.stale_worktrees@[k], old_active[k], now as int, reconcile_reason(), ttl)
                } else {
                    self.stale_worktrees@[k] == old_stale[k]
                }),
            decreases keys@.len() - j,
        {
            let ghost before_active = self.active_worktrees@;
            let ghost before_stale = self.stale_worktrees@;
            let ghost kj = keys@[j as int]@;
            proof {
                assert(in_prefix(keys@, keys@.len() as int, kj));
                assert(!in_prefix(keys@, j as int, kj)) by {
                    if in_prefix(keys@, j as int, kj) {
                        let a = choose|a: int| 0 <= a < j && (#[trigger] keys@[a])@ == kj;
                    }
                }
            }
            let moved = self.evict(keys[j].as_str(), now, reason, stale_ttl_days, false);
            proof {
                assert(moved);
                assert forall|k: Seq<char>| in_prefix(keys@, j + 1, k) <==> (in_prefix(keys@, j as int, k) || k == kj) by {
                    if in_prefix(keys@, j + 1, k) {
                        let a = choose|a: int| 0 <= a < j + 1 && (#[trigger] keys@[a])@ == k;
                        if a < j {
                            assert(in_prefix(keys@, j as int, k));
                        }
                    }
                    if in_prefix(keys@, j as int, k) {
                        let a = choose|a: int| 0 <= a < j && (#[trigger] keys@[a])@ == k;
                        assert(0 <= a < j + 1);
                    }
                    if k == kj {
                        assert(keys@[j as int]@ == k);
                    }
                }
            }
            j = j + 1;
        }
        proof {
            let n = keys@.len() as int;
            assert forall|k: Seq<char>| #[trigger] self.active_worktrees@.dom().contains(k) <==> old_active.dom().filter(
                |k: Seq<char>| keeps_active(k, old_active[k], g)).contains(k) by {
                if self.active_worktrees@.dom().contains(k) {
                    assert(!in_prefix(keys@, n, k));
                }
            }
            assert(self.active_worktrees@ =~= old_active.restrict(
                old_active.dom().filter(|k: Seq<char>| keeps_active(k, old_active[k], g))));
        }
        let ghost mid_stale = self.stale_worktrees@;
        self.stale_worktrees.retain(stale_is_live, &now, Ghost(|st: StaleWorktreeEntry| now < st.expires_at));
        crate::ports::sweep_expired_leases(&mut self.port_leases, now);
        proof {
            let n = keys@.len() as int;
            assert forall|k: Seq<char>| #[trigger] self.stale_worktrees@.dom().contains(k) <==> (
                ((old_active.dom().contains(k) && !keeps_active(k, old_active[k], g)) || old_stale.dom().contains(k)) && now < (if (
                old_active.dom().contains(k) && !keeps_active(k, old_active[k], g)) {
                    now + ttl * micros_per_day()
                } else {
                    old_stale[k].expires_at as int
                })) by {
                if mid_stale.dom().contains(k) && in_prefix(keys@, n, k) {
                    assert(is_eviction(mid_stale[k], old_active[k], now as int, reconcile_reason(), ttl));
                }
            }
            assert forall|k: Seq<char>| #[trigger] self.stale_worktrees@.dom().contains(k) implies (if (
                old_active.dom().contains(k) && !keeps_active(k, old_active[k], g)) {
                is_eviction(self.stale_worktrees@[k], old_active[k], now as int, reconcile_reason(), ttl)
            } else {
                self.stale_worktrees@[k] == old_stale[k]
            }) by {
                assert(mid_stale.dom().contains(k));
            }
        }
    }
}

// ── Per-operation updates ────────────────────────────────────────────────

/// The reason `touch` reports for a branch without an active entry.
pub open spec fn touch_missing_reason(branch: Seq<char>) -> Seq<char> {
    "touch: branch '"@ + branch + "' not in active_worktrees"@
}

/// The reason `renew_port_lease` reports for an expired lease.
pub open spec fn renew_expired_reason(branch: Seq<char>) -> Seq<char> {
    "renew_port_lease: lease for '"@ + branch + "' is expired — reallocate instead"@
}

/// The reason `renew_port_lease` reports for a branch without a lease.
pub open spec fn renew_missing_reason(branch: Seq<char>) -> Seq<char> {
    "renew_port_lease: no active lease for '"@ + branch + "'"@
}

/// `prefix + text + suffix` as a `StateCorrupted` error.
fn corrupted_with(prefix: &str, text: &str, suffix: &str) -> (e: WorktreeError)
    ensures
        e is StateCorrupted,
        e->StateCorrupted_reason@ == prefix@ + text@ + suffix@,
{
    let mut out = chars_of(prefix);
    push_str(&mut out, text);
    push_str(&mut out, suffix);
    proof {
        assert(out@ =~= prefix@ + text@ + suffix@);
    }
    WorktreeError::StateCorrupted { reason: string_from_chars(&out) }
}

/// A copy of a lease.
pub fn copy_lease(l: &PortLease) -> (r: PortLease)
    ensures
        r == *l,
{
    PortLease {
        port: l.port,
        branch: l.branch.clone(),
        session_uuid: l.session_uuid.clone(),
        pid: l.pid,
        created_at: l.created_at,
        expires_at: l.expires_at,
        status: l.status.clone(),
    }
}

/// A copy of an optional string.
pub fn copy_opt_string(o: &Option<String>) -> (r: Option<String>)
    ensures
        r == *o,
{
    match o {
        Some(s) => Some(s.clone()),
        None => None,
    }
}

/// The entry `create` records before `git worktree add` runs.
pub open spec fn is_creating_entry(e: ActiveWorktreeEntry, path: Seq<char>, branch: Seq<char>, base_commit: Seq<char>,
    created_at: int, creator_pid: u32, creator_name: Seq<char>, session_uuid: Seq<char>) -> bool {
    &&& e.path@ == path
    &&& e.branch@ == branch
    &&& e.base_commit@ == base_commit
    &&& e.state == WorktreeState::Creating
    &&& e.created_at == created_at
    &&& e.last_activity == Some(created_at as i64)
    &&& e.creator_pid == creator_pid
    &&& e.creator_name@ == creator_name
    &&& e.session_uuid@ == session_uuid
    &&& e.adapter is None
    &&& !e.setup_complete
    &&& e.port is None
    &&& e.extra@.len() == 0
}

/// Build the `Creating` entry for a worktree being created.
pub fn creating_entry(path: &str, branch: &str, base_commit: &str, created_at: i64, creator_pid: u32,
    creator_name: &str, session_uuid: &str) -> (e: ActiveWorktreeEntry)
    ensures
        is_creating_entry(e, path@, branch@, base_commit@, created_at as int, creator_pid, creator_name@, session_uuid@),
{
    ActiveWorktreeEntry {
        path: path.to_owned(),
        branch: branch.to_owned(),
        base_commit: base_commit.to_owned(),
        state: WorktreeState::Creating,
        created_at,
        last_activity: Some(created_at),
        creator_pid,
        creator_name: creator_name.to_owned(),
        session_uuid: session_uuid.to_owned(),
        adapter: None,
        setup_complete: false,
        port: None,
        extra: Vec::new(),
    }
}

/// The `Creating` entry of a worktree whose creation starts now, with a
/// fresh session id.
pub fn new_creating_entry(path: &str, branch: &str, base_commit: &str, creator_pid: u32, creator_name: &str) -> (e: ActiveWorktreeEntry)
    ensures
        0 <= e.created_at <= max_time_micros(),
        crate::clock::is_v4_uuid_text(e.session_uuid@),
        is_creating_entry(e, path@, branch@, base_commit@, e.created_at as int, creator_pid, creator_name@, e.session_uuid@),
{
    let now = now_micros();
    let id = crate::clock::new_session_uuid();
    creating_entry(path, branch, base_commit, now, creator_pid, creator_name, id.as_str())
}

/// The handle of a recorded worktree (its creation time as RFC 3339 text).
pub fn recorded_handle(e: &ActiveWorktreeEntry) -> (h: crate::types::WorktreeHandle)
    ensures
        h.path == e.path,
        h.branch == e.branch,
        h.base_commit == e.base_commit,
        h.state == e.state,
        h.created_at@ == crate::clock::rfc3339_text(e.created_at as int),
        h.creator_pid == e.creator_pid,
        h.creator_name == e.creator_name,
        h.adapter == e.adapter,
        h.setup_complete == e.setup_complete,
        h.port == e.port,
        h.session_uuid == e.session_uuid,
{
    crate::types::WorktreeHandle::new(
        e.path.clone(),
        e.branch.clone(),
        e.base_commit.clone(),
        e.state,
        crate::clock::rfc3339(e.created_at),
        e.creator_pid,
        e.creator_name.clone(),
        copy_opt_string(&e.adapter),
        e.setup_complete,
        e.port,
        e.session_uuid.clone(),
    )
}

impl StateV2 {
    /// Record `last_activity = now` for `branch`; a branch without an active
    /// entry is `StateCorrupted`, and then nothing changes.
    pub fn touch(&mut self, branch: &str, now: i64) -> (r: Result<(), WorktreeError>)
        ensures
            same_but_maps(*old(self), *final(self)),
            final(self).stale_worktrees@ == old(self).stale_worktrees@,
            final(self).port_leases@ == old(self).port_leases@,
            match r {
                Ok(()) => old(self).active_worktrees@.dom().contains(branch@) && final(self).active_worktrees@
                    == old(self).active_worktrees@.insert(branch@, ActiveWorktreeEntry {
                        last_activity: Some(now),
                        ..old(self).active_worktrees@[branch@]
                    }),
                Err(e) => !old(self).active_worktrees@.dom().contains(branch@)
                    && final(self).active_worktrees@ == old(self).active_worktrees@
                    && e is StateCorrupted && e->StateCorrupted_reason@ == touch_missing_reason(branch@),
            },
    {
        match self.active_worktrees.remove(branch) {
            Some(entry) => {
                let updated = ActiveWorktreeEntry { last_activity: Some(now), ..entry };
                self.active_worktrees.insert(branch.to_owned(), updated);
                proof {
                    assert(self.active_worktrees@ =~= old(self).active_worktrees@.insert(branch@, ActiveWorktreeEntry {
                        last_activity: Some(now),
                        ..old(self).active_worktrees@[branch@]
                    }));
                }
                Ok(())
            },
            None => {
                proof {
                    reveal_strlit("touch: branch '");
                    reveal_strlit("' not in active_worktrees");
                    assert(self.active_worktrees@ =~= old(self).active_worktrees@);
                }
                Err(corrupted_with("touch: branch '", branch, "' not in active_worktrees"))
            },
        }
    }

    /// Extend the live lease of `branch` to eight hours after `now`. An
    /// expired lease, or none, is `StateCorrupted`, and then nothing changes.
    pub fn renew_port_lease(&mut self, branch: &str, now: i64) -> (r: Result<(), WorktreeError>)
        requires
            now + crate::ports::lease_ttl() <= i64::MAX,
        ensures
            same_but_maps(*old(self), *final(self)),
            final(self).active_worktrees@ == old(self).active_worktrees@,
            final(self).stale_worktrees@ == old(self).stale_worktrees@,
            match r {
                Ok(()) => old(self).port_leases@.dom().contains(branch@)
                    && !crate::ports::lease_expired(old(self).port_leases@[branch@], now as int)
                    && final(self).port_leases@ == old(self).port_leases@.insert(branch@, PortLease {
                        expires_at: (now + crate::ports::lease_ttl()) as i64,
                        ..old(self).port_leases@[branch@]
                    }),
                Err(e) => final(self).port_leases@ == old(self).port_leases@ && e is StateCorrupted && (
                    if old(self).port_leases@.dom().contains(branch@) {
                        crate::ports::lease_expired(old(self).port_leases@[branch@], now as int)
                            && e->StateCorrupted_reason@ == renew_expired_reason(branch@)
                    } else {
                        e->StateCorrupted_reason@ == renew_missing_reason(branch@)
                    }),
            },
    {
        match self.port_leases.remove(branch) {
            Some(lease) => {
                if crate::ports::is_lease_expired(&lease, now) {
                    self.port_leases.insert(branch.to_owned(), lease);
                    proof {
                        reveal_strlit("renew_port_lease: lease for '");
                        reveal_strlit("' is expired — reallocate instead");
                        assert(self.port_leases@ =~= old(self).port_leases@);
                    }
                    Err(corrupted_with("renew_port_lease: lease for '", branch, "' is expired — reallocate instead"))
                } else {
                    let mut l = lease;
                    crate::ports::renew_lease_at(&mut l, now);
                    self.port_leases.insert(branch.to_owned(), l);
                    proof {
                        assert(self.port_leases@ =~= old(self).port_leases@.insert(branch@, PortLease {
                            expires_at: (now + crate::ports::lease_ttl()) as i64,
                            ..old(self).port_leases@[branch@]
                        }));
                    }
                    Ok(())
                }
            },
            None => {
                proof {
                    reveal_strlit("renew_port_lease: no active lease for '");
                    reveal_strlit("'");
                    assert(self.port_leases@ =~= old(self).port_leases@);
                }
                Err(corrupted_with("renew_port_lease: no active lease for '", branch, "'"))
            },
        }
    }

    /// Drop the lease of `branch`, if any.
    pub fn release_port(&mut self, branch: &str)
        ensures
            same_but_maps(*old(self), *final(self)),
            final(self).active_worktrees@ == old(self).active_worktrees@,
            final(self).stale_worktrees@ == old(self).stale_worktrees@,
            final(self).port_leases@ == old(self).port_leases@.remove(branch@),
    {
        self.port_leases.remove(branch);
    }

    /// The lease of `branch` if it is live at `now`.
    pub fn port_lease(&self, branch: &str, now: i64) -> (r: Option<PortLease>)
        ensures
            r == (if self.port_leases@.dom().contains(branch@) && !crate::ports::lease_expired(
                self.port_leases@[branch@], now as int) {
                Some(self.port_leases@[branch@])
            } else {
                None
            }),
    {
        match self.port_leases.get(branch) {
            Some(l) => {
                if crate::ports::is_lease_expired(l, now) {
                    None
                } else {
                    Some(copy_lease(l))
                }
            },
            None => None,
        }
    }

    /// Allocate a port for `branch` at `now` and record its lease (made for
    /// `session_uuid` and `pid`); on failure nothing changes.
    pub fn allocate_port(&mut self, repo_id: &str, branch: &str, session_uuid: &str, port_range_start: u16,
        port_range_end: u16, pid: u32, now: i64) -> (r: Result<u16, WorktreeError>)
        requires
            port_range_start <= port_range_end,
            now + crate::ports::lease_ttl() <= i64::MAX,
        ensures
            crate::ports::allocation_result(r, repo_id@, branch@, port_range_start, port_range_end,
                old(self).port_leases@, now as int),
            same_but_maps(*old(self), *final(self)),
            final(self).active_worktrees@ == old(self).active_worktrees@,
            final(self).stale_worktrees@ == old(self).stale_worktrees@,
            match r {
                Ok(p) => crate::ports::lease_granted(old(self).port_leases@, final(self).port_leases@, p, branch@,
                    session_uuid@, pid, now as int),
                Err(_) => final(self).port_leases@ == old(self).port_leases@,
            },
    {
        let r = crate::ports::allocate_port_at(repo_id, branch, port_range_start, port_range_end, &self.port_leases, now);
        match r {
            Ok(p) => {
                let lease = crate::ports::make_lease_at(p, branch, session_uuid, pid, now);
                self.port_leases.insert(branch.to_owned(), lease);
                proof {
                    assert(self.port_leases@.dom() =~= old(self).port_leases@.dom().insert(branch@));
                }
                Ok(p)
            },
            Err(e) => Err(e),
        }
    }

    /// Record the `Creating` entry of a worktree under its branch.
    pub fn begin_create(&mut self, entry: ActiveWorktreeEntry)
        ensures
            same_but_maps(*old(self), *final(self)),
            final(self).active_worktrees@ == old(self).active_worktrees@.insert(entry.branch@, entry),
            final(self).stale_worktrees@ == old(self).stale_worktrees@,
            final(self).port_leases@ == old(self).port_leases@,
    {
        let key = entry.branch.clone();
        self.active_worktrees.insert(key, entry);
    }

    /// Drop the active entry of `branch` (a create that failed, or a
    /// worktree whose removal finished, with its lease when `with_lease`).
    pub fn forget(&mut self, branch: &str, with_lease: bool)
        ensures
            same_but_maps(*old(self), *final(self)),
            final(self).active_worktrees@ == old(self).active_worktrees@.remove(branch@),
            final(self).stale_worktrees@ == old(self).stale_worktrees@,
            final(self).port_leases@ == (if with_lease {
                old(self).port_leases@.remove(branch@)
            } else {
                old(self).port_leases@
            }),
    {
        self.active_worktrees.remove(branch);
        if with_lease {
            self.port_leases.remove(branch);
        }
    }

    /// Set the lifecycle state of `branch`'s entry, if it has one.
    pub fn set_entry_state(&mut self, branch: &str, state: WorktreeState)
        ensures
            same_but_maps(*old(self), *final(self)),
            final(self).active_worktrees@ == (if old(self).active_worktrees@.dom().contains(branch@) {
                old(self).active_worktrees@.insert(branch@, ActiveWorktreeEntry {
                    state,
                    ..old(self).active_worktrees@[branch@]
                })
            } else {
                old(self).active_worktrees@
            }),
            final(self).stale_worktrees@ == old(self).stale_worktrees@,
            final(self).port_leases@ == old(self).port_leases@,
    {
        match self.active_worktrees.remove(branch) {
            Some(entry) => {
                self.active_worktrees.insert(branch.to_owned(), ActiveWorktreeEntry { state, ..entry });
                proof {
                    assert(self.active_worktrees@ =~= old(self).active_worktrees@.insert(branch@, ActiveWorktreeEntry {
                        state,
                        ..old(self).active_worktrees@[branch@]
                    }));
                }
            },
            None => {
                proof {
                    assert(self.active_worktrees@ =~= old(self).active_worktrees@);
                }
            },
        }
    }

    /// Complete a create: `branch`'s entry takes its final state, canonical
    /// path, port, adapter and setup flag, if the entry is still there.
    pub fn finish_create(&mut self, branch: &str, state: WorktreeState, path: String, port: Option<u16>,
        adapter: Option<String>, setup_complete: bool)
        ensures
            same_but_maps(*old(self), *final(self)),
            final(self).active_worktrees@ == (if old(self).active_worktrees@.dom().contains(branch@) {
                old(self).active_worktrees@.insert(branch@, ActiveWorktreeEntry {
                    state,
                    path,
                    port,
                    adapter,
                    setup_complete,
                    ..old(self).active_worktrees@[branch@]
                })
            } else {
                old(self).active_worktrees@
            }),
            final(self).stale_worktrees@ == old(self).stale_worktrees@,
            final(self).port_leases@ == old(self).port_leases@,
    {
        match self.active_worktrees.remove(branch) {
            Some(entry) => {
                let updated = ActiveWorktreeEntry { state, path, port, adapter, setup_complete, ..entry };
                self.active_worktrees.insert(branch.to_owned(), updated);
                proof {
                    assert(self.active_worktrees@ =~= old(self).active_worktrees@.insert(branch@, ActiveWorktreeEntry {
                        state,
                        path,
                        port,
                        adapter,
                        setup_complete,
                        ..old(self).active_worktrees@[branch@]
                    }));
                }
            },
            None => {
                proof {
                    assert(self.active_worktrees@ =~= old(self).active_worktrees@);
                }
            },
        }
    }
}

// ── Attach ───────────────────────────────────────────────────────────────

/// Whether some stale record's original path is `path`.
pub open spec fn stale_path_known(stale: Map<Seq<char>, StaleWorktreeEntry>, path: Seq<char>) -> bool {
    exists|k: Seq<char>| #[trigger] stale.dom().contains(k) && stale[k].original_path@ == path
}

/// Whether some stale record is for `branch`.
pub open spec fn stale_branch_known(stale: Map<Seq<char>, StaleWorktreeEntry>, branch: Seq<char>) -> bool {
    exists|k: Seq<char>| #[trigger] stale.dom().contains(k) && stale[k].branch@ == branch
}

/// Whether key `k` names the stale record to recover for a worktree at
/// `path` on `branch`: one with that path, else (when none has it) one for
/// that branch.
pub open spec fn recovers(stale: Map<Seq<char>, StaleWorktreeEntry>, k: Seq<char>, path: Seq<char>, branch: Seq<char>) -> bool {
    &&& stale.dom().contains(k)
    &&& (stale[k].original_path@ == path || (!stale_path_known(stale, path) && stale[k].branch@ == branch))
}

/// The entry `attach` records for a worktree it takes under management.
pub open spec fn is_attached_entry(e: ActiveWorktreeEntry, path: Seq<char>, branch: Seq<char>, base_commit: Seq<char>,
    state: WorktreeState, created_at: int, creator_pid: u32, creator_name: Seq<char>, session_uuid: Seq<char>,
    adapter: Option<String>, setup_complete: bool, port: Option<u16>) -> bool {
    &&& e.path@ == path
    &&& e.branch@ == branch
    &&& e.base_commit@ == base_commit
    &&& e.state == state
    &&& e.created_at == created_at
    &&& e.last_activity == Some(created_at as i64)
    &&& e.creator_pid == creator_pid
    &&& e.creator_name@ == creator_name
    &&& e.session_uuid@ == session_uuid
    &&& e.adapter == adapter
    &&& e.setup_complete == setup_complete
    &&& e.port == port
    &&& e.extra@.len() == 0
}

/// Build the entry `attach` records.
pub fn attached_entry(path: &str, branch: &str, base_commit: &str, state: WorktreeState, created_at: i64,
    creator_pid: u32, creator_name: &str, session_uuid: &str, adapter: Option<String>, setup_complete: bool,
    port: Option<u16>) -> (e: ActiveWorktreeEntry)
    ensures
        is_attached_entry(e, path@, branch@, base_commit@, state, created_at as int, creator_pid, creator_name@,
            session_uuid@, adapter, setup_complete, port),
{
    ActiveWorktreeEntry {
        path: path.to_owned(),
        branch: branch.to_owned(),
        base_commit: base_commit.to_owned(),
        state,
        created_at,
        last_activity: Some(created_at),
        creator_pid,
        creator_name: creator_name.to_owned(),
        session_uuid: session_uuid.to_owned(),
        adapter,
        setup_complete,
        port,
        extra: Vec::new(),
    }
}

impl StateV2 {
    /// The key of the stale record to recover for a worktree at `path` on
    /// `branch`: the first (in stored order) whose original path is `path`,
    /// else the first for `branch`.
    pub fn find_stale_for(&self, path: &str, branch: &str) -> (r: Option<String>)
        ensures
            match r {
                Some(k) => recovers(self.stale_worktrees@, k@, path@, branch@),
                None => !stale_path_known(self.stale_worktrees@, path@) && !stale_branch_known(
                    self.stale_worktrees@, branch@),
            },
    {
        let n = self.stale_worktrees.len();
        let ghost ps = self.stale_worktrees.pairs();
        let ghost m = self.stale_worktrees@;
        proof {
            assert forall|a: int| 0 <= a < n implies #[trigger] m.dom().contains(ps[a].0) && m[ps[a].0] == ps[a].1 by {
                assert(m.dom().contains(self.stale_worktrees.pairs()[a].0));
            }
        }
        let mut i: usize = 0;
        while i < n
            invariant
                n == ps.len(),
                ps == self.stale_worktrees.pairs(),
                m == self.stale_worktrees@,
                i <= n,
                forall|a: int| 0 <= a < n ==> #[trigger] m.dom().contains(ps[a].0) && m[ps[a].0] == ps[a].1,
                forall|j: int| 0 <= j < i ==> (#[trigger] ps[j]).1.original_path@ != path@,
            decreases n - i,
        {
            let (k, v) = self.stale_worktrees.entry_at(i);
            if crate::text::str_is(v.original_path.as_str(), path) {
                proof {
                    assert(m.dom().contains(ps[i as int].0) && m[ps[i as int].0] == ps[i as int].1);
                }
                return Some(k.clone());
            }
            i = i + 1;
        }
        proof {
            assert(!stale_path_known(m, path@)) by {
                if stale_path_known(m, path@) {
                    let k = choose|k: Seq<char>| #[trigger] m.dom().contains(k) && m[k].original_path@ == path@;
                    let j = choose|j: int| 0 <= j < ps.len() && (#[trigger] ps[j]).0 == k;
                    assert(m[ps[j].0] == ps[j].1);
                }
            }
        }
        let mut i: usize = 0;
        while i < n
            invariant
                n == ps.len(),
                ps == self.stale_worktrees.pairs(),
                m == self.stale_worktrees@,
                !stale_path_known(m, path@),
                i <= n,
                forall|a: int| 0 <= a < n ==> #[trigger] m.dom().contains(ps[a].0) && m[ps[a].0] == ps[a].1,
                forall|j: int| 0 <= j < i ==> (#[trigger] ps[j]).1.branch@ != branch@,
            decreases n - i,
        {
            let (k, v) = self.stale_worktrees.entry_at(i);
            if crate::text::str_is(v.branch.as_str(), branch) {
                proof {
                    assert(m.dom().contains(ps[i as int].0) && m[ps[i as int].0] == ps[i as int].1);
                }
                return Some(k.clone());
            }
            i = i + 1;
        }
        proof {
            assert(!stale_branch_known(m, branch@)) by {
                if stale_branch_known(m, branch@) {
                    let k = choose|k: Seq<char>| #[trigger] m.dom().contains(k) && m[k].branch@ == branch@;
                    let j = choose|j: int| 0 <= j < ps.len() && (#[trigger] ps[j]).0 == k;
                    assert(m[ps[j].0] == ps[j].1);
                }
            }
        }
        None
    }

    /// The session id and port kept by the stale record `key`, if there is one.
    pub fn stale_identity(&self, key: &Option<String>) -> (r: Option<(String, Option<u16>)>)
        ensures
            match key {
                Some(k) => if self.stale_worktrees@.dom().contains(k@) {
                    r matches Some(p) && p.0 == self.stale_worktrees@[k@].session_uuid && p.1 == self.stale_worktrees@[k@].port
                } else {
                    r is None
                },
                None => r is None,
            },
    {
        match key {
            Some(k) => match self.stale_worktrees.get(k.as_str()) {
                Some(st) => Some((st.session_uuid.clone(), st.port)),
                None => None,
            },
            None => None,
        }
    }

    /// Take a worktree under management: the recovered stale record, if
    /// any, goes, and `entry` becomes the active entry of its branch.
    pub fn record_attach(&mut self, recovered: &Option<String>, entry: ActiveWorktreeEntry)
        ensures
            same_but_maps(*old(self), *final(self)),
            final(self).active_worktrees@ == old(self).active_worktrees@.insert(entry.branch@, entry),
            final(self).stale_worktrees@ == (match recovered {
                Some(k) => old(self).stale_worktrees@.remove(k@),
                None => old(self).stale_worktrees@,
            }),
            final(self).port_leases@ == old(self).port_leases@,
    {
        match recovered {
            Some(k) => {
                self.stale_worktrees.remove(k.as_str());
            },
            None => {},
        }
        let key = entry.branch.clone();
        self.active_worktrees.insert(key, entry);
    }

    /// When the active entry of `branch` was created, if it has one.
    pub fn created_at_of(&self, branch: &str) -> (r: Option<i64>)
        ensures
            r == (if self.active_worktrees@.dom().contains(branch@) {
                Some(self.active_worktrees@[branch@].created_at)
            } else {
                None
            }),
    {
        match self.active_worktrees.get(branch) {
            Some(e) => Some(e.created_at),
            None => None,
        }
    }
}

// ── Enrichment of listed worktrees ───────────────────────────────────────

/// Whether `h2` is `h` completed from the recorded entry of its branch:
/// base commit, creation time (as RFC 3339 text), creator, session id and
/// port, and with `full` also the adapter and setup flag. A branch without
/// an entry leaves the handle as git reported it.
pub open spec fn enriched(h2: crate::types::WorktreeHandle, h: crate::types::WorktreeHandle, active: Map<Seq<char>, ActiveWorktreeEntry>, full: bool) -> bool {
    if active.dom().contains(h.branch@) {
        let e = active[h.branch@];
        &&& h2 == (crate::types::WorktreeHandle {
            base_commit: e.base_commit,
            created_at: h2.created_at,
            creator_pid: e.creator_pid,
            creator_name: e.creator_name,
            session_uuid: e.session_uuid,
            port: e.port,
            adapter: if full { e.adapter } else { h.adapter },
            setup_complete: if full { e.setup_complete } else { h.setup_complete },
            ..h
        })
        &&& h2.created_at@ == crate::clock::rfc3339_text(e.created_at as int)
    } else {
        h2 == h
    }
}

impl StateV2 {
    /// Complete each listed worktree from the entry recorded for its branch.
    pub fn enrich_handles(&self, handles: &mut Vec<crate::types::WorktreeHandle>, full: bool)
        ensures
            final(handles)@.len() == old(handles)@.len(),
            forall|i: int| 0 <= i < old(handles)@.len() ==> enriched(#[trigger] final(handles)@[i], old(handles)@[i],
                self.active_worktrees@, full),
    {
        let ghost orig = handles@;
        let mut rest: Vec<crate::types::WorktreeHandle> = Vec::new();
        std::mem::swap(&mut rest, handles);
        let n = rest.len();
        let mut i: usize = 0;
        while i < n
            invariant
                n == orig.len(),
                i <= n,
                rest@ == orig.skip(i as int),
                handles@.len() == i,
                forall|j: int| 0 <= j < i ==> enriched(#[trigger] handles@[j], orig[j], self.active_worktrees@, full),
            decreases n - i,
        {
            let h = rest.remove(0);
            proof {
                assert(rest@ =~= orig.skip(i as int + 1));
                assert(h == orig[i as int]);
            }
            let h2 = match self.active_worktrees.get(h.branch.as_str()) {
                Some(e) => {
                    let (adapter, setup_complete) = if full {
                        (copy_opt_string(&e.adapter), e.setup_complete)
                    } else {
                        (h.adapter, h.setup_complete)
                    };
                    crate::types::WorktreeHandle {
                        base_commit: e.base_commit.clone(),
                        created_at: crate::clock::rfc3339(e.created_at),
                        creator_pid: e.creator_pid,
                        creator_name: e.creator_name.clone(),
                        session_uuid: e.session_uuid.clone(),
                        port: e.port,
                        adapter,
                        setup_complete,
                        ..h
                    }
                },
                None => h,
            };
            handles.push(h2);
            i = i + 1;
        }
    }
}

// ── Garbage collection ───────────────────────────────────────────────────

/// The view of an optional string.
pub open spec fn opt_string_view(o: Option<String>) -> Option<Seq<char>> {
    match o {
        Some(s) => Some(s@),
        None => None,
    }
}

/// The canonical form recorded for path `p` in `canon` (path, canonical
/// path if it could be resolved), first record first; `None` when `p` has
/// no record or could not be resolved.
pub open spec fn canon_of(canon: Seq<(String, Option<String>)>, p: Seq<char>) -> Option<Seq<char>>
    decreases canon.len(),
{
    if canon.len() == 0 {
        None
    } else if canon[0].0@ == p {
        opt_string_view(canon[0].1)
    } else {
        canon_of(canon.drop_first(), p)
    }
}

/// Whether a recorded path and a target name the same place: their
/// canonical forms are equal where both resolve, else the texts are equal.
pub open spec fn same_place(entry_path: Seq<char>, target: Seq<char>, canon: Seq<(String, Option<String>)>) -> bool {
    match (canon_of(canon, target), canon_of(canon, entry_path)) {
        (Some(a), Some(b)) => a == b,
        _ => entry_path == target,
    }
}

fn canon_lookup(canon: &Vec<(String, Option<String>)>, p: &str) -> (r: Option<String>)
    ensures
        opt_string_view(r) == canon_of(canon@, p@),
{
    let mut i: usize = 0;
    proof {
        assert(canon@.skip(0) =~= canon@);
    }
    while i < canon.len()
        invariant
            i <= canon@.len(),
            canon_of(canon@, p@) == canon_of(canon@.skip(i as int), p@),
        decreases canon@.len() - i,
    {
        let ghost rest = canon@.skip(i as int);
        proof {
            assert(rest.drop_first() =~= canon@.skip(i as int + 1));
            assert(rest[0] == canon@[i as int]);
        }
        if crate::text::str_is(canon[i].0.as_str(), p) {
            return copy_opt_string(&canon[i].1);
        }
        i = i + 1;
    }
    None
}

fn same_place_exec(entry_path: &str, target: &str, canon: &Vec<(String, Option<String>)>) -> (b: bool)
    ensures
        b == same_place(entry_path@, target@, canon@),
{
    let a = canon_lookup(canon, target);
    let b = canon_lookup(canon, entry_path);
    match (a, b) {
        (Some(x), Some(y)) => crate::text::str_is(x.as_str(), y.as_str()),
        _ => crate::text::str_is(entry_path, target),
    }
}

/// Whether `r` is the active key `gc` moves for a worktree at `path` named
/// by branch `hint`: the hinted branch when it has an entry, else the first
/// entry (in stored order) at the same place, else none.
pub open spec fn gc_key_choice(r: Option<Seq<char>>, active: StringMap<ActiveWorktreeEntry>, hint: Option<Seq<char>>,
    path: Seq<char>, canon: Seq<(String, Option<String>)>) -> bool {
    let ps = active.pairs();
    if hint is Some && active@.dom().contains(hint->0) {
        r == hint
    } else {
        match r {
            Some(k) => exists|i: int|
                0 <= i < ps.len() && (#[trigger] ps[i]).0 == k && same_place(ps[i].1.path@, path, canon)
                    && forall|j: int| 0 <= j < i ==> !same_place((#[trigger] ps[j]).1.path@, path, canon),
            None => forall|j: int| 0 <= j < ps.len() ==> !same_place((#[trigger] ps[j]).1.path@, path, canon),
        }
    }
}

/// Whether `new` is `old` after `gc`'s bookkeeping at `now`: entries only
/// leave the active map by eviction, as stale records carrying their
/// metadata; stale records of other keys are untouched; a lease keeps its
/// key, turns `"stale"` when its worktree is evicted, and is otherwise
/// unchanged.
pub open spec fn gc_keeps_metadata(old: StateV2, new: StateV2, now: int, ttl_days: int) -> bool {
    &&& new.schema_version == old.schema_version
    &&& new.repo_id == old.repo_id
    &&& new.last_modified == old.last_modified
    &&& new.config_snapshot == old.config_snapshot
    &&& new.extra == old.extra
    &&& forall|k: Seq<char>| #[trigger] new.active_worktrees@.dom().contains(k) ==> old.active_worktrees@.dom().contains(k)
        && new.active_worktrees@[k] == old.active_worktrees@[k]
    &&& forall|k: Seq<char>| #[trigger] old.active_worktrees@.dom().contains(k) && !new.active_worktrees@.dom().contains(k)
        ==> new.stale_worktrees@.dom().contains(k) && gc_evicted(new.stale_worktrees@[k], old.active_worktrees@[k], now, ttl_days)
    &&& forall|k: Seq<char>| #[trigger] new.stale_worktrees@.dom().contains(k) ==> old.stale_worktrees@.dom().contains(k) || (
        old.active_worktrees@.dom().contains(k) && !new.active_worktrees@.dom().contains(k))
    &&& forall|k: Seq<char>| #[trigger] old.stale_worktrees@.dom().contains(k) && !(old.active_worktrees@.dom().contains(k)
        && !new.active_worktrees@.dom().contains(k)) ==> new.stale_worktrees@.dom().contains(k) && new.stale_worktrees@[k]
        == old.stale_worktrees@[k]
    &&& new.port_leases@.dom() == old.port_leases@.dom()
    &&& forall|k: Seq<char>| #[trigger] old.port_leases@.dom().contains(k) ==> if old.active_worktrees@.dom().contains(k)
        && !new.active_worktrees@.dom().contains(k) {
        is_stale_lease(new.port_leases@[k], old.port_leases@[k])
    } else {
        new.port_leases@[k] == old.port_leases@[k]
    }
}

/// The reasons `gc` records.
pub open spec fn gc_reason(r: Seq<char>) -> bool {
    r == "gc: age exceeded"@ || r == "gc: orphaned worktree"@ || r == "gc: abandoned Creating entry"@
}

/// Whether `st` is `e` evicted by `gc` at `now` for one of its reasons.
pub open spec fn gc_evicted(st: StaleWorktreeEntry, e: ActiveWorktreeEntry, now: int, ttl_days: int) -> bool {
    is_eviction(st, e, now, st.eviction_reason@, ttl_days) && gc_reason(st.eviction_reason@)
}

/// Whether an active entry is left over from a create that died: still
/// `Creating` or `Pending`, created before `cutoff`, by a process that is
/// known (non-zero) and not among `live_pids`.
pub open spec fn abandoned(e: ActiveWorktreeEntry, cutoff: int, live_pids: Seq<u32>) -> bool {
    &&& (e.state == WorktreeState::Creating || e.state == WorktreeState::Pending)
    &&& e.created_at < cutoff
    &&& e.creator_pid != 0
    &&& !live_pids.contains(e.creator_pid)
}

fn contains_pid(v: &Vec<u32>, p: u32) -> (b: bool)
    ensures
        b == v@.contains(p),
{
    let mut i: usize = 0;
    while i < v.len()
        invariant
            i <= v@.len(),
            forall|j: int| 0 <= j < i ==> v@[j] != p,
        decreases v@.len() - i,
    {
        if v[i] == p {
            return true;
        }
        i = i + 1;
    }
    false
}

proof fn lemma_keeps_step(a: StateV2, b: StateV2, c: StateV2, now: int, ttl: int)
    requires
        gc_keeps_metadata(a, b, now, ttl),
        gc_keeps_metadata(b, c, now, ttl),
    ensures
        gc_keeps_metadata(a, c, now, ttl),
{
    assert forall|k: Seq<char>| #[trigger] a.active_worktrees@.dom().contains(k) && !c.active_worktrees@.dom().contains(k)
        implies c.stale_worktrees@.dom().contains(k) && gc_evicted(c.stale_worktrees@[k], a.active_worktrees@[k], now, ttl) by {
        if b.active_worktrees@.dom().contains(k) {
            assert(b.active_worktrees@[k] == a.active_worktrees@[k]);
        } else {
            assert(b.stale_worktrees@.dom().contains(k));
            assert(!(b.active_worktrees@.dom().contains(k) && !c.active_worktrees@.dom().contains(k)));
        }
    }
    assert forall|k: Seq<char>| #[trigger] a.stale_worktrees@.dom().contains(k) && !(a.active_worktrees@.dom().contains(k)
        && !c.active_worktrees@.dom().contains(k)) implies c.stale_worktrees@.dom().contains(k) && c.stale_worktrees@[k]
        == a.stale_worktrees@[k] by {
        assert(b.stale_worktrees@.dom().contains(k));
        if b.active_worktrees@.dom().contains(k) {
            assert(a.active_worktrees@.dom().contains(k));
        }
    }
    assert forall|k: Seq<char>| #[trigger] c.stale_worktrees@.dom().contains(k) implies a.stale_worktrees@.dom().contains(k) || (
        a.active_worktrees@.dom().contains(k) && !c.active_worktrees@.dom().contains(k)) by {
        if !b.stale_worktrees@.dom().contains(k) {
            assert(b.active_worktrees@.dom().contains(k) && !c.active_worktrees@.dom().contains(k));
        }
    }
    assert forall|k: Seq<char>| #[trigger] a.port_leases@.dom().contains(k) implies (if a.active_worktrees@.dom().contains(k)
        && !c.active_worktrees@.dom().contains(k) {
        is_stale_lease(c.port_leases@[k], a.port_leases@[k])
    } else {
        c.port_leases@[k] == a.port_leases@[k]
    }) by {
        assert(b.port_leases@.dom().contains(k));
        if b.active_worktrees@.dom().contains(k) {
            assert(a.active_worktrees@.dom().contains(k));
        }
    }
}

impl StateV2 {
    /// The active key `gc` moves for a worktree at `path` on branch `hint`.
    pub fn gc_key_for(&self, hint: &Option<String>, path: &str, canon: &Vec<(String, Option<String>)>) -> (r: Option<String>)
        ensures
            gc_key_choice(opt_string_view(r), self.active_worktrees, opt_string_view(*hint), path@, canon@),
    {
        match hint {
            Some(b) => {
                if self.active_worktrees.contains_key(b.as_str()) {
                    return Some(b.clone());
                }
            },
            None => {},
        }
        let n = self.active_worktrees.len();
        let ghost ps = self.active_worktrees.pairs();
        let mut i: usize = 0;
        while i < n
            invariant
                n == ps.len(),
                ps == self.active_worktrees.pairs(),
                i <= n,
                !(opt_string_view(*hint) is Some && self.active_worktrees@.dom().contains(opt_string_view(*hint)->0)),
                forall|j: int| 0 <= j < i ==> !same_place((#[trigger] ps[j]).1.path@, path@, canon@),
            decreases n - i,
        {
            let (k, e) = self.active_worktrees.entry_at(i);
            if same_place_exec(e.path.as_str(), path, canon) {
                let r = k.clone();
                proof {
                    assert(ps[i as int].0 == r@);
                    assert(same_place(ps[i as int].1.path@, path@, canon@));
                }
                return Some(r);
            }
            i = i + 1;
        }
        None
    }

    /// Move to the stale records the active entry that `gc` finds for a
    /// worktree at `path` on branch `hint`, marking its lease `"stale"`.
    pub fn gc_move_to_stale(&mut self, hint: &Option<String>, path: &str, canon: &Vec<(String, Option<String>)>,
        reason: &str, now: i64, ttl_days: u32) -> (moved: Option<String>)
        requires
            now + ttl_days * micros_per_day() <= i64::MAX,
            gc_reason(reason@),
        ensures
            gc_key_choice(opt_string_view(moved), old(self).active_worktrees, opt_string_view(*hint), path@, canon@),
            match moved {
                Some(k) => old(self).active_worktrees@.dom().contains(k@)
                    && final(self).active_worktrees@ == old(self).active_worktrees@.remove(k@)
                    && final(self).stale_worktrees@.dom() == old(self).stale_worktrees@.dom().insert(k@)
                    && is_eviction(final(self).stale_worktrees@[k@], old(self).active_worktrees@[k@], now as int, reason@, ttl_days as int),
                None => final(self).active_worktrees@ == old(self).active_worktrees@
                    && final(self).stale_worktrees@ == old(self).stale_worktrees@
                    && final(self).port_leases@ == old(self).port_leases@,
            },
            gc_keeps_metadata(*old(self), *final(self), now as int, ttl_days as int),
            final(self).gc_history == old(self).gc_history,
            moved is Some ==> (hint is Some && hint->0@ == moved->0@) || same_place(
                old(self).active_worktrees@[moved->0@].path@, path@, canon@),
            moved is None && hint is None ==> forall|k: Seq<char>| #[trigger] old(self).active_worktrees@.dom().contains(k)
                ==> !same_place(old(self).active_worktrees@[k].path@, path@, canon@),
    {
        let _count = self.active_worktrees.len();
        let key = self.gc_key_for(hint, path, canon);
        match key {
            Some(k) => {
                proof {
                    let ps = self.active_worktrees.pairs();
                    if !(hint is Some && self.active_worktrees@.dom().contains(hint->0@)) {
                        let i = choose|i: int| 0 <= i < ps.len() && (#[trigger] ps[i]).0 == k@ && same_place(ps[i].1.path@, path@, canon@)
                            && forall|j: int| 0 <= j < i ==> !same_place((#[trigger] ps[j]).1.path@, path@, canon@);
                        assert(self.active_worktrees@.dom().contains(ps[i].0));
                        assert(self.active_worktrees@[ps[i].0] == ps[i].1);
                    }
                }
                let moved = self.evict(k.as_str(), now, reason, ttl_days, true);
                proof {
                    assert(moved);
                    assert(gc_evicted(self.stale_worktrees@[k@], old(self).active_worktrees@[k@], now as int, ttl_days as int));
                }
                Some(k)
            },
            None => {
                proof {
                    let ps = self.active_worktrees.pairs();
                    assert forall|k: Seq<char>| #[trigger] self.active_worktrees@.dom().contains(k) && hint is None
                        implies !same_place(self.active_worktrees@[k].path@, path@, canon@) by {
                        let j = choose|j: int| 0 <= j < ps.len() && (#[trigger] ps[j]).0 == k;
                        assert(self.active_worktrees@[ps[j].0] == ps[j].1);
                    }
                }
                None
            },
        }
    }

    /// Move every abandoned `Creating`/`Pending` entry (created before
    /// `cutoff` by a process not in `live_pids`) to the stale records, marking
    /// its lease `"stale"`.
    pub fn sweep_abandoned(&mut self, live_pids: &Vec<u32>, cutoff: i64, now: i64, ttl_days: u32)
        requires
            now + ttl_days * micros_per_day() <= i64::MAX,
        ensures
            final(self).active_worktrees@ == old(self).active_worktrees@.restrict(old(self).active_worktrees@.dom().filter(
                |k: Seq<char>| !abandoned(old(self).active_worktrees@[k], cutoff as int, live_pids@))),
            forall|k: Seq<char>| #[trigger] old(self).active_worktrees@.dom().contains(k) && abandoned(
                old(self).active_worktrees@[k], cutoff as int, live_pids@) ==> final(self).stale_worktrees@.dom().contains(k)
                && is_eviction(final(self).stale_worktrees@[k], old(self).active_worktrees@[k], now as int,
                "gc: abandoned Creating entry"@, ttl_days as int),
            gc_keeps_metadata(*old(self), *final(self), now as int, ttl_days as int),
            final(self).gc_history == old(self).gc_history,
    {
        let ghost old_state = *self;
        let ghost old_active = self.active_worktrees@;
        let ghost pred = |k: Seq<char>| !abandoned(old_active[k], cutoff as int, live_pids@);
        let n = self.active_worktrees.len();
        let ghost ps = self.active_worktrees.pairs();
        let mut keys: Vec<String> = Vec::new();
        let mut i: usize = 0;
        proof {
            assert forall|a: int| 0 <= a < n implies #[trigger] old_active.dom().contains(ps[a].0) && old_active[ps[a].0] == ps[a].1 by {
                assert(old_active.dom().contains(self.active_worktrees.pairs()[a].0));
            }
        }
        while i < n
            invariant
                n == ps.len(),
                ps == self.active_worktrees.pairs(),
                old_active == self.active_worktrees@,
                i <= n,
                forall|a: int, b: int| 0 <= a < n && 0 <= b < n && a != b ==> (#[trigger] ps[a]).0 != (#[trigger] ps[b]).0,
                forall|a: int| 0 <= a < n ==> #[trigger] old_active.dom().contains(ps[a].0) && old_active[ps[a].0] == ps[a].1,
                keys@.len() <= i,
                forall|a: int| 0 <= a < keys@.len() ==> exists|j: int| 0 <= j < i && (#[trigger] ps[j]).0 == (#[trigger] keys@[a])@
                    && abandoned(ps[j].1, cutoff as int, live_pids@),
                forall|j: int| 0 <= j < i && abandoned((#[trigger] ps[j]).1, cutoff as int, live_pids@) ==> in_prefix(keys@, keys@.len() as int, ps[j].0),
                forall|a: int, b: int| 0 <= a < b < keys@.len() ==> (#[trigger] keys@[a])@ != (#[trigger] keys@[b])@,
            decreases n - i,
        {
            let (k, e) = self.active_worktrees.entry_at(i);
            let st = e.state;
            if (st == WorktreeState::Creating || st == WorktreeState::Pending) && e.created_at < cutoff && e.creator_pid != 0
                && !contains_pid(live_pids, e.creator_pid) {
                let ghost before = keys@;
                keys.push(k.clone());
                proof {
                    assert forall|a: int| 0 <= a < keys@.len() implies exists|j: int| 0 <= j < i + 1 && (#[trigger] ps[j]).0 == (#[trigger] keys@[a])@
                        && abandoned(ps[j].1, cutoff as int, live_pids@) by {
                        if a < before.len() {
                            assert(keys@[a] == before[a]);
                            let j = choose|j: int| 0 <= j < i && (#[trigger] ps[j]).0 == (#[trigger] before[a])@
                                && abandoned(ps[j].1, cutoff as int, live_pids@);
                        } else {
                            assert(ps[i as int].0 == keys@[a]@);
                        }
                    }
                    assert forall|j: int| 0 <= j < i + 1 && abandoned((#[trigger] ps[j]).1, cutoff as int, live_pids@) implies in_prefix(keys@, keys@.len() as int, ps[j].0) by {
                        if j < i {
                            assert(in_prefix(before, before.len() as int, ps[j].0));
                            let a = choose|a: int| 0 <= a < before.len() && (#[trigger] before[a])@ == ps[j].0;
                            assert(keys@[a] == before[a]);
                        } else {
                            assert(keys@[before.len() as int]@ == ps[j].0);
                        }
                    }
                    assert forall|a: int, b: int| 0 <= a < b < keys@.len() implies (#[trigger] keys@[a])@ != (#[trigger] keys@[b])@ by {
                        if b < before.len() {
                            assert(before[a] == keys@[a] && before[b] == keys@[b]);
                        } else {
                            assert(before[a] == keys@[a]);
                            let j = choose|j: int| 0 <= j < i && (#[trigger] ps[j]).0 == (#[trigger] before[a])@
                                && abandoned(ps[j].1, cutoff as int, live_pids@);
                            assert(ps[j].0 != ps[i as int].0);
                        }
                    }
                }
            }
            i = i + 1;
        }
        let reason = "gc: abandoned Creating entry";
        proof {
            reveal_strlit("gc: abandoned Creating entry");
        }
        let ghost m = keys@.len() as int;
        let mut j: usize = 0;
        while j < keys.len()
            invariant
                j <= keys@.len(),
                m == keys@.len(),
                now + ttl_days * micros_per_day() <= i64::MAX,
                reason@ == "gc: abandoned Creating entry"@,
                forall|a: int| 0 <= a < keys@.len() ==> #[trigger] old_active.dom().contains(keys@[a]@),
                forall|a: int, b: int| 0 <= a < b < keys@.len() ==> (#[trigger] keys@[a])@ != (#[trigger] keys@[b])@,
                forall|k: Seq<char>| #[trigger] self.active_worktrees@.dom().contains(k) <==> (
                    old_active.dom().contains(k) && !in_prefix(keys@, j as int, k)),
                forall|k: Seq<char>| #[trigger] self.active_worktrees@.dom().contains(k) ==> self.active_worktrees@[k] == old_active[k],
                forall|k: Seq<char>| in_prefix(keys@, j as int, k) ==> #[trigger] self.stale_worktrees@.dom().contains(k)
                    && is_eviction(self.stale_worktrees@[k], old_active[k], now as int, reason@, ttl_days as int),
                gc_keeps_metadata(old_state, *self, now as int, ttl_days as int),
                self.gc_history == old_state.gc_history,
                old_active == old_state.active_worktrees@,
            decreases keys@.len() - j,
        {
            let ghost before = *self;
            let ghost kj = keys@[j as int]@;
            proof {
                assert(old_active.dom().contains(kj));
                assert(!in_prefix(keys@, j as int, kj)) by {
                    if in_prefix(keys@, j as int, kj) {
                        let a = choose|a: int| 0 <= a < j && (#[trigger] keys@[a])@ == kj;
                    }
                }
            }
            let moved = self.evict(keys[j].as_str(), now, reason, ttl_days, true);
            proof {
                assert(moved);
                assert(gc_keeps_metadata(before, *self, now as int, ttl_days as int)) by {
                    assert(gc_evicted(self.stale_worktrees@[kj], before.active_worktrees@[kj], now as int, ttl_days as int));
                }
                lemma_keeps_step(old_state, before, *self, now as int, ttl_days as int);
                assert forall|k: Seq<char>| in_prefix(keys@, j + 1, k) <==> (in_prefix(keys@, j as int, k) || k == kj) by {
                    if in_prefix(keys@, j + 1, k) {
                        let a = choose|a: int| 0 <= a < j + 1 && (#[trigger] keys@[a])@ == k;
                        if a < j {
                            assert(in_prefix(keys@, j as int, k));
                        }
                    }
                    if in_prefix(keys@, j as int, k) {
                        let a = choose|a: int| 0 <= a < j && (#[trigger] keys@[a])@ == k;
                        assert(0 <= a < j + 1);
                    }
                    if k == kj {
                        assert(keys@[j as int]@ == k);
                    }
                }
            }
            j = j + 1;
        }
        proof {
            assert forall|k: Seq<char>| old_active.dom().contains(k) implies (in_prefix(keys@, m, k) <==> abandoned(old_active[k], cutoff as int, live_pids@)) by {
                let jj = choose|jj: int| 0 <= jj < ps.len() && (#[trigger] ps[jj]).0 == k;
                if in_prefix(keys@, m, k) {
                    let a = choose|a: int| 0 <= a < m && (#[trigger] keys@[a])@ == k;
                    let j2 = choose|j2: int| 0 <= j2 < n && (#[trigger] ps[j2]).0 == (#[trigger] keys@[a])@
                        && abandoned(ps[j2].1, cutoff as int, live_pids@);
                    assert(old_active[ps[j2].0] == ps[j2].1);
                }
                if abandoned(old_active[k], cutoff as int, live_pids@) {
                    assert(old_active[ps[jj].0] == ps[jj].1);
                }
            }
            assert(self.active_worktrees@ =~= old_active.restrict(old_active.dom().filter(pred)));
        }
    }

    /// Append a record of a `gc` run at `now` that removed `removed` and
    /// evicted `evicted` worktrees, freeing `freed_bytes` (counts are kept as
    /// 32-bit values, bytes as whole MiB).
    pub fn record_gc_history(&mut self, removed: usize, evicted: usize, freed_bytes: u64, now: i64)
        ensures
            final(self).gc_history@.len() == old(self).gc_history@.len() + 1,
            final(self).gc_history@.take(old(self).gc_history@.len() as int) == old(self).gc_history@,
            final(self).gc_history@.last().timestamp == now,
            final(self).gc_history@.last().removed == removed as u32,
            final(self).gc_history@.last().evicted == evicted as u32,
            final(self).gc_history@.last().freed_mb == freed_bytes / 1048576u64,
            final(self).gc_history@.last().extra@.len() == 0,
            final(self).active_worktrees@ == old(self).active_worktrees@,
            final(self).stale_worktrees@ == old(self).stale_worktrees@,
            final(self).port_leases@ == old(self).port_leases@,
            gc_keeps_metadata(*old(self), *final(self), now as int, 0),
    {
        let entry = GcHistoryEntry {
            timestamp: now,
            removed: removed as u32,
            evicted: evicted as u32,
            freed_mb: freed_bytes / (1024 * 1024),
            extra: Vec::new(),
        };
        self.gc_history.push(entry);
        proof {
            assert(self.gc_history@.take(old(self).gc_history@.len() as int) =~= old(self).gc_history@);
        }
    }
}

/// Whether `path` is the path of one of `entries`.
pub open spec fn lists_path(entries: Seq<(String, Option<String>)>, path: Seq<char>) -> bool {
    exists|i: int| 0 <= i < entries.len() && (#[trigger] entries[i]).0@ == path
}

fn lists_path_exec(entries: &Vec<(String, Option<String>)>, path: &str) -> (b: bool)
    ensures
        b == lists_path(entries@, path@),
{
    let mut i: usize = 0;
    while i < entries.len()
        invariant
            i <= entries@.len(),
            forall|j: int| 0 <= j < i ==> (#[trigger] entries@[j]).0@ != path@,
        decreases entries@.len() - i,
    {
        if crate::text::str_is(entries[i].0.as_str(), path) {
            return true;
        }
        i = i + 1;
    }
    false
}

/// Whether an evicted worktree names active entry `k` (recorded as `e`) as
/// its branch or lies at its place.
pub open spec fn evicted_target(k: Seq<char>, e: ActiveWorktreeEntry, evicted: Seq<(String, Option<String>)>,
    canon: Seq<(String, Option<String>)>) -> bool {
    exists|i: int| 0 <= i < evicted.len() && (((#[trigger] evicted[i]).1 is Some && evicted[i].1->0@ == k) || same_place(
        e.path@, evicted[i].0@, canon))
}

/// Whether an orphan that was removed lies at the place of entry `e`.
pub open spec fn orphan_target(e: ActiveWorktreeEntry, orphans: Seq<String>, removed: Seq<(String, Option<String>)>,
    canon: Seq<(String, Option<String>)>) -> bool {
    exists|j: int| 0 <= j < orphans.len() && lists_path(removed, (#[trigger] orphans[j])@) && same_place(
        e.path@, orphans[j]@, canon)
}

/// Whether `gc`'s bookkeeping was asked to move active entry `k`
/// (recorded as `e`): an evicted worktree names it as its branch or lies at
/// its place, or an orphan that was removed lies at its place.
pub open spec fn gc_targets(k: Seq<char>, e: ActiveWorktreeEntry, evicted: Seq<(String, Option<String>)>,
    orphans: Seq<String>, removed: Seq<(String, Option<String>)>, canon: Seq<(String, Option<String>)>) -> bool {
    evicted_target(k, e, evicted, canon) || orphan_target(e, orphans, removed, canon)
}

/// The reason recorded for an evicted worktree.
pub open spec fn age_reason() -> Seq<char> {
    "gc: age exceeded"@
}

/// The reason recorded for a removed orphan.
pub open spec fn orphan_reason() -> Seq<char> {
    "gc: orphaned worktree"@
}

/// The reason recorded for an abandoned create.
pub open spec fn abandoned_reason() -> Seq<char> {
    "gc: abandoned Creating entry"@
}

/// Whether stale record `st` of active entry `k` (recorded as `e`) is a move
/// `gc` was asked for, with the reason that goes with it: an evicted
/// worktree's entry with "gc: age exceeded", a removed orphan's entry with
/// "gc: orphaned worktree", an abandoned create with "gc: abandoned Creating
/// entry".
pub open spec fn justified_move(k: Seq<char>, e: ActiveWorktreeEntry, st: StaleWorktreeEntry,
    evicted: Seq<(String, Option<String>)>, orphans: Seq<String>, removed: Seq<(String, Option<String>)>,
    canon: Seq<(String, Option<String>)>, live_pids: Seq<u32>, now: int, ttl_days: int) -> bool {
    ||| is_eviction(st, e, now, age_reason(), ttl_days) && evicted_target(k, e, evicted, canon)
    ||| is_eviction(st, e, now, orphan_reason(), ttl_days) && orphan_target(e, orphans, removed, canon)
    ||| is_eviction(st, e, now, abandoned_reason(), ttl_days) && abandoned(e, now - abandon_after(), live_pids)
}

/// Microseconds an unfinished create may stay recorded before `gc` treats
/// it as abandoned (ten minutes).
pub open spec fn abandon_after() -> int {
    600_000_000
}

impl StateV2 {
    /// `gc`'s bookkeeping at `now`: each evicted worktree `(path, branch)`
    /// moves to the stale records ("gc: age exceeded"), each orphan that was
    /// removed moves too ("gc: orphaned worktree"), abandoned creates are
    /// swept ("gc: abandoned Creating entry"), the lease of every moved entry
    /// turns `"stale"`, and a history record is appended. Paths are matched
    /// through `canon`; `live_pids` are the processes known to be running. A
    /// dry run changes nothing.
    pub fn record_gc(&mut self, evicted: &Vec<(String, Option<String>)>, orphans: &Vec<String>,
        removed: &Vec<(String, Option<String>)>, canon: &Vec<(String, Option<String>)>, live_pids: &Vec<u32>,
        now: i64, ttl_days: u32, dry_run: bool, freed_bytes: u64)
        requires
            now + ttl_days * micros_per_day() <= i64::MAX,
            i64::MIN + abandon_after() <= now,
        ensures
            dry_run ==> *final(self) == *old(self),
            !dry_run ==> gc_keeps_metadata(*old(self), *final(self), now as int, ttl_days as int),
            !dry_run ==> forall|k: Seq<char>| #[trigger] old(self).active_worktrees@.dom().contains(k)
                && !final(self).active_worktrees@.dom().contains(k) ==> final(self).stale_worktrees@.dom().contains(k)
                && justified_move(k, old(self).active_worktrees@[k], final(self).stale_worktrees@[k], evicted@, orphans@,
                removed@, canon@, live_pids@, now as int, ttl_days as int),
            !dry_run ==> forall|i: int| 0 <= i < evicted@.len() && (#[trigger] evicted@[i]).1 is Some
                && old(self).active_worktrees@.dom().contains(evicted@[i].1->0@)
                ==> !final(self).active_worktrees@.dom().contains(evicted@[i].1->0@)
                && final(self).stale_worktrees@.dom().contains(evicted@[i].1->0@) && is_eviction(
                final(self).stale_worktrees@[evicted@[i].1->0@], old(self).active_worktrees@[evicted@[i].1->0@],
                now as int, age_reason(), ttl_days as int),
            !dry_run ==> forall|j: int| 0 <= j < orphans@.len() && lists_path(removed@, (#[trigger] orphans@[j])@) && (exists|k: Seq<char>|
                #[trigger] old(self).active_worktrees@.dom().contains(k) && same_place(old(self).active_worktrees@[k].path@,
                orphans@[j]@, canon@)) ==> exists|k: Seq<char>| #[trigger] old(self).active_worktrees@.dom().contains(k)
                && same_place(old(self).active_worktrees@[k].path@, orphans@[j]@, canon@)
                && !final(self).active_worktrees@.dom().contains(k),
            !dry_run ==> forall|k: Seq<char>| #[trigger] old(self).active_worktrees@.dom().contains(k) && abandoned(
                old(self).active_worktrees@[k], now - abandon_after(), live_pids@) ==> !final(self).active_worktrees@.dom().contains(k),
            !dry_run ==> forall|k: Seq<char>| #[trigger] old(self).active_worktrees@.dom().contains(k) && abandoned(
                old(self).active_worktrees@[k], now - abandon_after(), live_pids@) && !gc_targets(k,
                old(self).active_worktrees@[k], evicted@, orphans@, removed@, canon@) ==> is_eviction(
                final(self).stale_worktrees@[k], old(self).active_worktrees@[k], now as int, abandoned_reason(), ttl_days as int),
            !dry_run ==> final(self).gc_history@.len() == old(self).gc_history@.len() + 1
                && final(self).gc_history@.take(old(self).gc_history@.len() as int) == old(self).gc_history@
                && final(self).gc_history@.last().timestamp == now
                && final(self).gc_history@.last().removed == removed@.len() as u32
                && final(self).gc_history@.last().evicted == evicted@.len() as u32
                && final(self).gc_history@.last().freed_mb == freed_bytes / 1048576u64,
    {
        if dry_run {
            return;
        }
        let ghost start = *self;
        let age = "gc: age exceeded";
        let orphan = "gc: orphaned worktree";
        proof {
            reveal_strlit("gc: age exceeded");
            reveal_strlit("gc: orphaned worktree");
        }
        let mut i: usize = 0;
        while i < evicted.len()
            invariant
                i <= evicted@.len(),
                now + ttl_days * micros_per_day() <= i64::MAX,
                age@ == age_reason(),
                gc_keeps_metadata(start, *self, now as int, ttl_days as int),
                self.gc_history == start.gc_history,
                forall|a: int| 0 <= a < i && (#[trigger] evicted@[a]).1 is Some
                    && start.active_worktrees@.dom().contains(evicted@[a].1->0@)
                    ==> !self.active_worktrees@.dom().contains(evicted@[a].1->0@),
                forall|k: Seq<char>| #[trigger] start.active_worktrees@.dom().contains(k)
                    && !self.active_worktrees@.dom().contains(k) ==> self.stale_worktrees@.dom().contains(k) && is_eviction(
                    self.stale_worktrees@[k], start.active_worktrees@[k], now as int, age_reason(), ttl_days as int)
                    && evicted_target(k, start.active_worktrees@[k], evicted@, canon@),
            decreases evicted@.len() - i,
        {
            let ghost before = *self;
            let moved = self.gc_move_to_stale(&evicted[i].1, evicted[i].0.as_str(), canon, age, now, ttl_days);
            proof {
                lemma_keeps_step(start, before, *self, now as int, ttl_days as int);
                if moved is Some {
                    let m = moved->0@;
                    assert(before.active_worktrees@[m] == start.active_worktrees@[m]);
                    assert(evicted_target(m, start.active_worktrees@[m], evicted@, canon@)) by {
                        assert(((evicted@[i as int].1 is Some && evicted@[i as int].1->0@ == m) || same_place(
                            start.active_worktrees@[m].path@, evicted@[i as int].0@, canon@)));
                    }
                }
                assert forall|k: Seq<char>| #[trigger] start.active_worktrees@.dom().contains(k)
                    && !self.active_worktrees@.dom().contains(k) implies self.stale_worktrees@.dom().contains(k) && is_eviction(
                    self.stale_worktrees@[k], start.active_worktrees@[k], now as int, age_reason(), ttl_days as int)
                    && evicted_target(k, start.active_worktrees@[k], evicted@, canon@) by {
                    if before.active_worktrees@.dom().contains(k) {
                        assert(before.active_worktrees@[k] == start.active_worktrees@[k]);
                    } else {
                        assert(before.stale_worktrees@.dom().contains(k));
                    }
                }
            }
            i = i + 1;
        }
        let ghost mid1 = *self;
        let mut j: usize = 0;
        while j < orphans.len()
            invariant
                j <= orphans@.len(),
                now + ttl_days * micros_per_day() <= i64::MAX,
                orphan@ == orphan_reason(),
                gc_keeps_metadata(start, *self, now as int, ttl_days as int),
                self.gc_history == start.gc_history,
                forall|a: int| 0 <= a < evicted@.len() && (#[trigger] evicted@[a]).1 is Some
                    && start.active_worktrees@.dom().contains(evicted@[a].1->0@)
                    ==> !self.active_worktrees@.dom().contains(evicted@[a].1->0@)
                    && self.stale_worktrees@.dom().contains(evicted@[a].1->0@) && is_eviction(
                    self.stale_worktrees@[evicted@[a].1->0@], start.active_worktrees@[evicted@[a].1->0@], now as int,
                    age_reason(), ttl_days as int),
                forall|k: Seq<char>| #[trigger] start.active_worktrees@.dom().contains(k)
                    && !self.active_worktrees@.dom().contains(k) ==> self.stale_worktrees@.dom().contains(k) && (
                    (is_eviction(self.stale_worktrees@[k], start.active_worktrees@[k], now as int, age_reason(), ttl_days as int)
                    && evicted_target(k, start.active_worktrees@[k], evicted@, canon@)) || (is_eviction(
                    self.stale_worktrees@[k], start.active_worktrees@[k], now as int, orphan_reason(), ttl_days as int)
                    && orphan_target(start.active_worktrees@[k], orphans@, removed@, canon@))),
                forall|b: int| 0 <= b < j && lists_path(removed@, (#[trigger] orphans@[b])@) && (exists|k: Seq<char>|
                    #[trigger] start.active_worktrees@.dom().contains(k) && same_place(start.active_worktrees@[k].path@,
                    orphans@[b]@, canon@)) ==> exists|k: Seq<char>| #[trigger] start.active_worktrees@.dom().contains(k)
                    && same_place(start.active_worktrees@[k].path@, orphans@[b]@, canon@)
                    && !self.active_worktrees@.dom().contains(k),
            decreases orphans@.len() - j,
        {
            let ghost before = *self;
            if lists_path_exec(removed, orphans[j].as_str()) {
                let moved = self.gc_move_to_stale(&None, orphans[j].as_str(), canon, orphan, now, ttl_days);
                proof {
                    lemma_keeps_step(start, before, *self, now as int, ttl_days as int);
                    if moved is Some {
                        let m = moved->0@;
                        assert(before.active_worktrees@[m] == start.active_worktrees@[m]);
                        assert(orphan_target(start.active_worktrees@[m], orphans@, removed@, canon@)) by {
                            assert(lists_path(removed@, orphans@[j as int]@));
                            assert(same_place(start.active_worktrees@[m].path@, orphans@[j as int]@, canon@));
                        }
                    }
                    assert forall|k: Seq<char>| #[trigger] start.active_worktrees@.dom().contains(k)
                        && !self.active_worktrees@.dom().contains(k) implies self.stale_worktrees@.dom().contains(k) && (
                        (is_eviction(self.stale_worktrees@[k], start.active_worktrees@[k], now as int, age_reason(), ttl_days as int)
                        && evicted_target(k, start.active_worktrees@[k], evicted@, canon@)) || (is_eviction(
                        self.stale_worktrees@[k], start.active_worktrees@[k], now as int, orphan_reason(), ttl_days as int)
                        && orphan_target(start.active_worktrees@[k], orphans@, removed@, canon@))) by {
                        if before.active_worktrees@.dom().contains(k) {
                            assert(before.active_worktrees@[k] == start.active_worktrees@[k]);
                        } else {
                            assert(before.stale_worktrees@.dom().contains(k));
                        }
                    }
                    assert forall|a: int| 0 <= a < evicted@.len() && (#[trigger] evicted@[a]).1 is Some
                        && start.active_worktrees@.dom().contains(evicted@[a].1->0@)
                        implies !self.active_worktrees@.dom().contains(evicted@[a].1->0@)
                        && self.stale_worktrees@.dom().contains(evicted@[a].1->0@) && is_eviction(
                        self.stale_worktrees@[evicted@[a].1->0@], start.active_worktrees@[evicted@[a].1->0@], now as int,
                        age_reason(), ttl_days as int) by {
                        let b = evicted@[a].1->0@;
                        assert(before.stale_worktrees@.dom().contains(b));
                    }
                    assert forall|b: int| 0 <= b < j + 1 && lists_path(removed@, (#[trigger] orphans@[b])@) && (exists|k: Seq<char>|
                        #[trigger] start.active_worktrees@.dom().contains(k) && same_place(start.active_worktrees@[k].path@,
                        orphans@[b]@, canon@)) implies exists|k: Seq<char>| #[trigger] start.active_worktrees@.dom().contains(k)
                        && same_place(start.active_worktrees@[k].path@, orphans@[b]@, canon@)
                        && !self.active_worktrees@.dom().contains(k) by {
                        if b < j {
                            let k = choose|k: Seq<char>| #[trigger] start.active_worktrees@.dom().contains(k)
                                && same_place(start.active_worktrees@[k].path@, orphans@[b]@, canon@)
                                && !before.active_worktrees@.dom().contains(k);
                            assert(!self.active_worktrees@.dom().contains(k));
                        } else {
                            let k = choose|k: Seq<char>| #[trigger] start.active_worktrees@.dom().contains(k) && same_place(
                                start.active_worktrees@[k].path@, orphans@[b]@, canon@);
                            if moved is Some {
                                let m = moved->0@;
                                assert(start.active_worktrees@.dom().contains(m));
                                assert(same_place(start.active_worktrees@[m].path@, orphans@[b]@, canon@));
                                assert(!self.active_worktrees@.dom().contains(m));
                            } else {
                                if before.active_worktrees@.dom().contains(k) {
                                    assert(before.active_worktrees@[k] == start.active_worktrees@[k]);
                                }
                                assert(!self.active_worktrees@.dom().contains(k));
                            }
                        }
                    }
                }
            } else {
                proof {
                    assert forall|b: int| 0 <= b < j + 1 && lists_path(removed@, (#[trigger] orphans@[b])@) && (exists|k: Seq<char>|
                        #[trigger] start.active_worktrees@.dom().contains(k) && same_place(start.active_worktrees@[k].path@,
                        orphans@[b]@, canon@)) implies exists|k: Seq<char>| #[trigger] start.active_worktrees@.dom().contains(k)
                        && same_place(start.active_worktrees@[k].path@, orphans@[b]@, canon@)
                        && !self.active_worktrees@.dom().contains(k) by {
                        assert(b < j);
                    }
                }
            }
            j = j + 1;
        }
        let ghost mid = *self;
        let cutoff = now - 600_000_000;
        self.sweep_abandoned(live_pids, cutoff, now, ttl_days);
        proof {
            reveal_strlit("gc: abandoned Creating entry");
            lemma_keeps_step(start, mid, *self, now as int, ttl_days as int);
            assert forall|k: Seq<char>| #[trigger] start.active_worktrees@.dom().contains(k) && abandoned(
                start.active_worktrees@[k], now - abandon_after(), live_pids@)
                implies !self.active_worktrees@.dom().contains(k) by {
                if mid.active_worktrees@.dom().contains(k) {
                    assert(mid.active_worktrees@[k] == start.active_worktrees@[k]);
                }
            }
            assert forall|k: Seq<char>| #[trigger] start.active_worktrees@.dom().contains(k)
                && !self.active_worktrees@.dom().contains(k) implies self.stale_worktrees@.dom().contains(k) && justified_move(
                k, start.active_worktrees@[k], self.stale_worktrees@[k], evicted@, orphans@, removed@, canon@, live_pids@,
                now as int, ttl_days as int) by {
                if mid.active_worktrees@.dom().contains(k) {
                    assert(mid.active_worktrees@[k] == start.active_worktrees@[k]);
                    assert(abandoned(mid.active_worktrees@[k], cutoff as int, live_pids@));
                } else {
                    assert(mid.stale_worktrees@.dom().contains(k));
                    assert(self.stale_worktrees@[k] == mid.stale_worktrees@[k]);
                }
            }
            assert forall|a: int| 0 <= a < evicted@.len() && (#[trigger] evicted@[a]).1 is Some
                && start.active_worktrees@.dom().contains(evicted@[a].1->0@)
                implies !self.active_worktrees@.dom().contains(evicted@[a].1->0@)
                && self.stale_worktrees@.dom().contains(evicted@[a].1->0@) && is_eviction(
                self.stale_worktrees@[evicted@[a].1->0@], start.active_worktrees@[evicted@[a].1->0@], now as int,
                age_reason(), ttl_days as int) by {
                let b = evicted@[a].1->0@;
                assert(mid.stale_worktrees@.dom().contains(b));
            }
            assert forall|k: Seq<char>| #[trigger] start.active_worktrees@.dom().contains(k) && abandoned(
                start.active_worktrees@[k], now - abandon_after(), live_pids@) && !gc_targets(k,
                start.active_worktrees@[k], evicted@, orphans@, removed@, canon@) implies is_eviction(
                self.stale_worktrees@[k], start.active_worktrees@[k], now as int, abandoned_reason(), ttl_days as int) by {
                assert(mid.active_worktrees@.dom().contains(k));
                assert(mid.active_worktrees@[k] == start.active_worktrees@[k]);
                assert(abandoned(mid.active_worktrees@[k], cutoff as int, live_pids@));
            }
        }
        let ghost before = *self;
        self.record_gc_history(removed.len(), evicted.len(), freed_bytes, now);
        proof {
            lemma_keeps_step(start, before, *self, now as int, ttl_days as int);
        }
    }
}

/// Whether the abandonment cutoff before `now` is a representable instant.
pub fn abandon_cutoff_fits(now: i64) -> (b: bool)
    ensures
        b == (i64::MIN + abandon_after() <= now),
{
    now >= i64::MIN + 600_000_000
}

} // verus!
