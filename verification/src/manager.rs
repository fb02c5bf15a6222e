//! The worktree manager's own state (repository root, configuration, git
//! capabilities and the circuit breaker over consecutive git failures) and
//! the decisions of its operations: which guards run and in what order,
//! how a create picks its base commit and final state, which worktrees a
//! garbage collection considers, and what identity an attached worktree
//! takes.
use vstd::prelude::*;

use crate::clock::micros_per_day;
use crate::error::WorktreeError;
use crate::text::{chars_of, push_str, string_from_chars};
use crate::types::{Config, DeleteOptions, GcOptions, GitCapabilities, GitCryptStatus, WorktreeHandle, WorktreeState};

verus! {

/// Core worktree lifecycle manager: the canonical repository root, the
/// configuration, the detected git capabilities and the count of
/// consecutive failed git commands.
pub struct Manager {
    repo_root: String,
    config: Config,
    capabilities: GitCapabilities,
    consecutive_git_failures: u32,
}

impl Manager {
    /// The repository root this manager works on.
    pub closed spec fn root(&self) -> Seq<char> {
        self.repo_root@
    }

    /// The configuration.
    pub closed spec fn conf(&self) -> Config {
        self.config
    }

    /// The detected git capabilities.
    pub closed spec fn caps(&self) -> GitCapabilities {
        self.capabilities
    }

    /// Consecutive git commands that failed since the last success.
    pub closed spec fn failures(&self) -> u32 {
        self.consecutive_git_failures
    }

    /// Whether the circuit breaker is open: the failures reached the threshold.
    pub open spec fn breaker_open(&self) -> bool {
        self.failures() >= self.conf().circuit_breaker_threshold
    }

    /// A manager for the canonical `repo_root` with `config` and the
    /// capabilities detected for the installed git; no failures yet.
    pub fn new(repo_root: String, config: Config, capabilities: GitCapabilities) -> (m: Self)
        ensures
            m.root() == repo_root@,
            m.conf() == config,
            m.caps() == capabilities,
            m.failures() == 0,
    {
        Manager { repo_root, config, capabilities, consecutive_git_failures: 0 }
    }

    /// Refuse git work while the circuit breaker is open.
    pub fn check_circuit_breaker(&self) -> (r: Result<(), WorktreeError>)
        ensures
            r is Ok <==> !self.breaker_open(),
            r is Err ==> r->Err_0 == (WorktreeError::CircuitBreakerOpen { consecutive_failures: self.failures() }),
    {
        let failures = self.consecutive_git_failures;
        if failures >= self.config.circuit_breaker_threshold {
            return Err(WorktreeError::CircuitBreakerOpen { consecutive_failures: failures });
        }
        Ok(())
    }

    /// A git command succeeded: the failure count starts over.
    pub fn record_git_success(&mut self)
        ensures
            final(self).failures() == 0,
            final(self).root() == old(self).root(),
            final(self).conf() == old(self).conf(),
            final(self).caps() == old(self).caps(),
    {
        self.consecutive_git_failures = 0;
    }

    /// A git command failed: one more consecutive failure.
    pub fn record_git_failure(&mut self)
        requires
            old(self).failures() < u32::MAX,
        ensures
            final(self).failures() == old(self).failures() + 1,
            final(self).root() == old(self).root(),
            final(self).conf() == old(self).conf(),
            final(self).caps() == old(self).caps(),
    {
        self.consecutive_git_failures = self.consecutive_git_failures + 1;
    }

    /// Book a git listing's outcome (success resets the count, failure adds
    /// one) and hand it back.
    pub fn record_git_outcome<T>(&mut self, r: Result<T, WorktreeError>) -> (out: Result<T, WorktreeError>)
        requires
            r is Err ==> old(self).failures() < u32::MAX,
        ensures
            out == r,
            r is Ok ==> final(self).failures() == 0,
            r is Err ==> final(self).failures() == old(self).failures() + 1,
            final(self).root() == old(self).root(),
            final(self).conf() == old(self).conf(),
            final(self).caps() == old(self).caps(),
    {
        match r {
            Ok(v) => {
                self.record_git_success();
                Ok(v)
            },
            Err(e) => {
                self.record_git_failure();
                Err(e)
            },
        }
    }

    /// Consecutive git failures so far.
    pub fn consecutive_git_failures(&self) -> (n: u32)
        ensures
            n == self.failures(),
    {
        self.consecutive_git_failures
    }

    /// Return the detected git capabilities.
    pub fn git_capabilities(&self) -> (c: &GitCapabilities)
        ensures
            *c == self.caps(),
    {
        &self.capabilities
    }

    /// Return the repository root path.
    pub fn repo_root(&self) -> (p: &str)
        ensures
            p@ == self.root(),
    {
        self.repo_root.as_str()
    }

    /// Return the current configuration.
    pub fn config(&self) -> (c: &Config)
        ensures
            *c == self.conf(),
    {
        &self.config
    }
}

// ── Guard order ─────────────────────────────────────────────────────────

/// The pre-create guards.
#[derive(Debug, Clone, Copy, PartialEq, Eq, Structural)]
pub enum PreCreateGuard {
    BranchNotCheckedOut,
    DiskSpace,
    WorktreeCount,
    PathNotExists,
    NotNested,
    NotNetworkFilesystem,
    NotWslCrossBoundary,
    BareRepo,
    NotSubmodule,
    TotalDiskUsage,
    NotNetworkJunction,
    GitCrypt,
}

/// The pre-create guards in the order they run: the cheap checks first,
/// the aggregate disk check only when not opted out, the junction check
/// only on Windows.
pub open spec fn pre_create_order(ignore_disk_limit: bool, windows: bool) -> Seq<PreCreateGuard> {
    seq![
        PreCreateGuard::BranchNotCheckedOut,
        PreCreateGuard::DiskSpace,
        PreCreateGuard::WorktreeCount,
        PreCreateGuard::PathNotExists,
        PreCreateGuard::NotNested,
        PreCreateGuard::NotNetworkFilesystem,
        PreCreateGuard::NotWslCrossBoundary,
        PreCreateGuard::BareRepo,
        PreCreateGuard::NotSubmodule,
    ] + (if ignore_disk_limit { Seq::empty() } else { seq![PreCreateGuard::TotalDiskUsage] }) + (if windows {
        seq![PreCreateGuard::NotNetworkJunction]
    } else {
        Seq::empty()
    }) + seq![PreCreateGuard::GitCrypt]
}

/// The pre-create guards to run, in order.
pub fn pre_create_guards(ignore_disk_limit: bool, windows: bool) -> (v: Vec<PreCreateGuard>)
    ensures
        v@ == pre_create_order(ignore_disk_limit, windows),
{
    let mut v: Vec<PreCreateGuard> = Vec::new();
    v.push(PreCreateGuard::BranchNotCheckedOut);
    v.push(PreCreateGuard::DiskSpace);
    v.push(PreCreateGuard::WorktreeCount);
    v.push(PreCreateGuard::PathNotExists);
    v.push(PreCreateGuard::NotNested);
    v.push(PreCreateGuard::NotNetworkFilesystem);
    v.push(PreCreateGuard::NotWslCrossBoundary);
    v.push(PreCreateGuard::BareRepo);
    v.push(PreCreateGuard::NotSubmodule);
    if !ignore_disk_limit {
        v.push(PreCreateGuard::TotalDiskUsage);
    }
    if windows {
        v.push(PreCreateGuard::NotNetworkJunction);
    }
    v.push(PreCreateGuard::GitCrypt);
    assert(v@ =~= pre_create_order(ignore_disk_limit, windows));
    v
}

/// Whether a failing guard stops the create (the network filesystem guard
/// only warns).
pub fn guard_is_fatal(g: PreCreateGuard) -> (b: bool)
    ensures
        b == (g != PreCreateGuard::NotNetworkFilesystem),
{
    g != PreCreateGuard::NotNetworkFilesystem
}

/// The pre-delete checks.
#[derive(Debug, Clone, Copy, PartialEq, Eq, Structural)]
pub enum PreDeleteCheck {
    NotCwd,
    NoUncommittedChanges,
    NoUnmergedCommits,
    NotLocked,
}

/// The pre-delete checks in order: never the working directory; no
/// uncommitted changes unless `force_dirty`; no unmerged commits unless
/// `force`; not locked unless `force_locked`.
pub open spec fn pre_delete_order(o: DeleteOptions) -> Seq<PreDeleteCheck> {
    seq![PreDeleteCheck::NotCwd] + (if o.force_dirty { Seq::empty() } else { seq![PreDeleteCheck::NoUncommittedChanges] })
        + (if o.force { Seq::empty() } else { seq![PreDeleteCheck::NoUnmergedCommits] }) + (if o.force_locked {
        Seq::empty()
    } else {
        seq![PreDeleteCheck::NotLocked]
    })
}

/// Where a check stands in the order the checks run: the working directory,
/// uncommitted changes, unmerged commits, the lock.
pub open spec fn check_rank(c: PreDeleteCheck) -> int {
    match c {
        PreDeleteCheck::NotCwd => 0,
        PreDeleteCheck::NoUncommittedChanges => 1,
        PreDeleteCheck::NoUnmergedCommits => 2,
        PreDeleteCheck::NotLocked => 3,
    }
}

/// Each flag of a delete waives its own check and no other: the unmerged
/// commit check runs exactly when `force` is off, the uncommitted-changes
/// check exactly when `force_dirty` is off, the lock check exactly when
/// `force_locked` is off; the working-directory check always runs, first;
/// the others keep their order; and no check runs twice.
pub proof fn lemma_each_flag_waives_its_own_check(o: DeleteOptions)
    ensures
        pre_delete_order(o).contains(PreDeleteCheck::NoUnmergedCommits) <==> !o.force,
        pre_delete_order(o).contains(PreDeleteCheck::NoUncommittedChanges) <==> !o.force_dirty,
        pre_delete_order(o).contains(PreDeleteCheck::NotLocked) <==> !o.force_locked,
        pre_delete_order(o).len() > 0 && pre_delete_order(o)[0] == PreDeleteCheck::NotCwd,
        forall|i: int, j: int|
            0 <= i < j < pre_delete_order(o).len() ==> pre_delete_order(o)[i] != pre_delete_order(o)[j],
        forall|i: int, j: int|
            0 <= i < j < pre_delete_order(o).len() ==> check_rank(#[trigger] pre_delete_order(o)[i]) < check_rank(
                #[trigger] pre_delete_order(o)[j],
            ),
{
    let s = pre_delete_order(o);
    assert(s[0] == PreDeleteCheck::NotCwd);
    if s.contains(PreDeleteCheck::NoUnmergedCommits) {
        let k = choose|k: int| 0 <= k < s.len() && s[k] == PreDeleteCheck::NoUnmergedCommits;
        assert(s[k] == PreDeleteCheck::NoUnmergedCommits);
    }
    if s.contains(PreDeleteCheck::NoUncommittedChanges) {
        let k = choose|k: int| 0 <= k < s.len() && s[k] == PreDeleteCheck::NoUncommittedChanges;
        assert(s[k] == PreDeleteCheck::NoUncommittedChanges);
    }
    if s.contains(PreDeleteCheck::NotLocked) {
        let k = choose|k: int| 0 <= k < s.len() && s[k] == PreDeleteCheck::NotLocked;
        assert(s[k] == PreDeleteCheck::NotLocked);
    }
    let a = if o.force_dirty { 0int } else { 1int };
    let b = if o.force { 0int } else { 1int };
    if !o.force_dirty {
        assert(s[1] == PreDeleteCheck::NoUncommittedChanges);
    }
    if !o.force {
        assert(s[1 + a] == PreDeleteCheck::NoUnmergedCommits);
    }
    if !o.force_locked {
        assert(s[1 + a + b] == PreDeleteCheck::NotLocked);
    }
}

/// The pre-delete checks to run, in order.
pub fn pre_delete_checks(options: &DeleteOptions) -> (v: Vec<PreDeleteCheck>)
    ensures
        v@ == pre_delete_order(*options),
{
    let mut v: Vec<PreDeleteCheck> = Vec::new();
    v.push(PreDeleteCheck::NotCwd);
    if !options.force_dirty {
        v.push(PreDeleteCheck::NoUncommittedChanges);
    }
    if !options.force {
        v.push(PreDeleteCheck::NoUnmergedCommits);
    }
    if !options.force_locked {
        v.push(PreDeleteCheck::NotLocked);
    }
    assert(v@ =~= pre_delete_order(*options));
    v
}

// ── Create ──────────────────────────────────────────────────────────────

/// A repository whose git-crypt is locked (with or without the key file)
/// cannot get a new worktree.
pub fn check_git_crypt_unlocked(status: GitCryptStatus) -> (r: Result<(), WorktreeError>)
    ensures
        r is Ok <==> !(status == GitCryptStatus::Locked || status == GitCryptStatus::LockedNoKey),
        r is Err ==> r->Err_0 == WorktreeError::GitCryptLocked,
{
    match status {
        GitCryptStatus::Locked | GitCryptStatus::LockedNoKey => Err(WorktreeError::GitCryptLocked),
        _ => Ok(()),
    }
}

/// The ref a new branch starts from: the requested base, else `HEAD`.
pub fn new_branch_base(base: Option<&str>) -> (r: String)
    ensures
        r@ == (match base {
            Some(b) => b@,
            None => "HEAD"@,
        }),
{
    match base {
        Some(b) => b.to_owned(),
        None => "HEAD".to_owned(),
    }
}

/// The full ref name of a local branch: `refs/heads/<branch>`.
pub fn branch_ref(branch: &str) -> (r: String)
    ensures
        r@ == "refs/heads/"@ + branch@,
{
    let mut out = chars_of("refs/heads/");
    push_str(&mut out, branch);
    string_from_chars(&out)
}

/// An existing branch is checked out at its tip; a requested base that
/// resolves elsewhere is refused.
pub fn check_requested_base(branch: &str, branch_commit: &str, requested_base: &str, requested_commit: &str) -> (r: Result<(), WorktreeError>)
    ensures
        r is Ok <==> requested_commit@ == branch_commit@,
        r is Err ==> r->Err_0 is BranchExistsWithDifferentBase && r->Err_0->BranchExistsWithDifferentBase_branch@ == branch@
            && r->Err_0->branch_commit@ == branch_commit@ && r->Err_0->requested_base@ == requested_base@
            && r->Err_0->requested_commit@ == requested_commit@,
{
    if !crate::text::str_is(requested_commit, branch_commit) {
        return Err(WorktreeError::BranchExistsWithDifferentBase {
            branch: branch.to_owned(),
            branch_commit: branch_commit.to_owned(),
            requested_base: requested_base.to_owned(),
            requested_commit: requested_commit.to_owned(),
        });
    }
    Ok(())
}

/// The state a created worktree ends in: `Locked` when locked at creation,
/// else `Active`.
pub fn final_create_state(lock: bool) -> (s: WorktreeState)
    ensures
        s == (if lock { WorktreeState::Locked } else { WorktreeState::Active }),
{
    if lock {
        WorktreeState::Locked
    } else {
        WorktreeState::Active
    }
}

/// Setup requested with no adapter registered is an error.
pub fn check_setup_possible(setup: bool, has_adapter: bool) -> (r: Result<(), WorktreeError>)
    ensures
        r is Ok <==> !(setup && !has_adapter),
        r is Err ==> r->Err_0 == WorktreeError::SetupRequestedWithoutAdapter,
{
    if setup && !has_adapter {
        return Err(WorktreeError::SetupRequestedWithoutAdapter);
    }
    Ok(())
}

// ── Garbage collection ──────────────────────────────────────────────────

/// What garbage collection does with a listed worktree.
#[derive(Debug, Clone, Copy, PartialEq, Eq, Structural)]
pub enum GcScreen {
    /// Leave it alone.
    Skip,
    /// Collect it if the unmerged-commit check finds it safe.
    CheckUnmerged,
    /// Collect it.
    Collect,
}

/// How garbage collection screens worktree `h`, created at `created_at` (as
/// recorded), against the age `cutoff`: locked and branchless (main or
/// bare) worktrees are never touched; one not older than the cutoff is
/// skipped unless orphaned; an active one whose creator still runs is
/// skipped; without `force`, one that is not orphaned must pass the
/// unmerged-commit check.
pub open spec fn gc_screen_of(h: WorktreeHandle, created_at: Option<i64>, cutoff: int, creator_alive: bool, force: bool) -> GcScreen {
    let old_enough = match created_at {
        Some(t) => t < cutoff,
        None => false,
    };
    if h.state == WorktreeState::Locked || h.branch@.len() == 0 {
        GcScreen::Skip
    } else if !old_enough && h.state != WorktreeState::Orphaned {
        GcScreen::Skip
    } else if h.state == WorktreeState::Active && h.creator_pid != 0 && creator_alive {
        GcScreen::Skip
    } else if !force && h.state != WorktreeState::Orphaned {
        GcScreen::CheckUnmerged
    } else {
        GcScreen::Collect
    }
}

/// Screen one worktree for garbage collection.
pub fn gc_screen(h: &WorktreeHandle, created_at: Option<i64>, cutoff: i64, creator_alive: bool, force: bool) -> (s: GcScreen)
    ensures
        s == gc_screen_of(*h, created_at, cutoff as int, creator_alive, force),
{
    let old_enough = match created_at {
        Some(t) => t < cutoff,
        None => false,
    };
    if h.state == WorktreeState::Locked || h.branch.as_str().is_empty() {
        GcScreen::Skip
    } else if !old_enough && h.state != WorktreeState::Orphaned {
        GcScreen::Skip
    } else if h.state == WorktreeState::Active && h.creator_pid != 0 && creator_alive {
        GcScreen::Skip
    } else if !force && h.state != WorktreeState::Orphaned {
        GcScreen::CheckUnmerged
    } else {
        GcScreen::Collect
    }
}

/// Locked worktrees are never collected, whatever the options say.
pub proof fn lemma_gc_spares_locked(h: WorktreeHandle, created_at: Option<i64>, cutoff: int, creator_alive: bool, force: bool)
    requires
        h.state == WorktreeState::Locked,
    ensures
        gc_screen_of(h, created_at, cutoff, creator_alive, force) == GcScreen::Skip,
{
}

/// Whether a collection run writes the state file: only a real run does; a
/// dry run reports what would happen and changes nothing.
pub fn gc_writes_state(dry_run: bool) -> (b: bool)
    ensures
        b == !dry_run,
{
    !dry_run
}

/// The age limit of a collection run: the option's, else the configured one.
pub fn gc_max_age_days(options: &GcOptions, config: &Config) -> (d: u32)
    ensures
        d == (match options.max_age_days {
            Some(d) => d,
            None => config.gc_max_age_days,
        }),
{
    match options.max_age_days {
        Some(d) => d,
        None => config.gc_max_age_days,
    }
}

/// The instant before which a worktree counts as old: `max_age_days` days
/// before `now`.
pub fn gc_age_cutoff(now: i64, max_age_days: u32) -> (c: i64)
    requires
        i64::MIN <= now - max_age_days * micros_per_day(),
    ensures
        c == now - max_age_days * micros_per_day(),
{
    let span: i128 = (max_age_days as i128) * 86_400_000_000;
    ((now as i128) - span) as i64
}

/// The paths of the orphaned worktrees, in listing order.
pub fn gc_orphans(worktrees: &Vec<WorktreeHandle>) -> (r: Vec<String>)
    ensures
        r@.map_values(|s: String| s@) == worktrees@.filter(|h: WorktreeHandle| h.state == WorktreeState::Orphaned).map_values(
            |h: WorktreeHandle| h.path@),
{
    let ghost pick = |h: WorktreeHandle| h.state == WorktreeState::Orphaned;
    let ghost view_path = |h: WorktreeHandle| h.path@;
    let mut r: Vec<String> = Vec::new();
    let mut i: usize = 0;
    while i < worktrees.len()
        invariant
            i <= worktrees@.len(),
            pick == (|h: WorktreeHandle| h.state == WorktreeState::Orphaned),
            view_path == (|h: WorktreeHandle| h.path@),
            r@.map_values(|s: String| s@) == worktrees@.take(i as int).filter(pick).map_values(view_path),
        decreases worktrees@.len() - i,
    {
        proof {
            let t = worktrees@.take(i as int + 1);
            assert(t.drop_last() =~= worktrees@.take(i as int));
            reveal(Seq::filter);
            assert(t.filter(pick) == (if pick(t.last()) { t.drop_last().filter(pick).push(t.last()) } else { t.drop_last().filter(pick) }));
            assert(t.last() == worktrees@[i as int]);
        }
        if worktrees[i].state == WorktreeState::Orphaned {
            let ghost before = r@;
            let p = worktrees[i].path.clone();
            r.push(p);
            proof {
                let f = worktrees@.take(i as int).filter(pick);
                let w = worktrees@[i as int];
                assert(f.push(w).map_values(view_path) =~= f.map_values(view_path).push(w.path@));
                assert(r@.map_values(|s: String| s@) =~= before.map_values(|s: String| s@).push(p@));
                assert(r@.map_values(|s: String| s@) =~= worktrees@.take(i as int + 1).filter(pick).map_values(view_path));
            }
        } else {
            proof {
                assert(r@.map_values(|s: String| s@) =~= worktrees@.take(i as int + 1).filter(pick).map_values(view_path));
            }
        }
        i = i + 1;
    }
    proof {
        assert(worktrees@.take(worktrees@.len() as int) =~= worktrees@);
        assert(pick == (|h: WorktreeHandle| h.state == WorktreeState::Orphaned));
    }
    r
}

// ── Attach ──────────────────────────────────────────────────────────────

/// The session id and port an attached worktree takes: those its stale
/// record kept, else a fresh id and no port.
pub fn attach_identity(recovered: Option<(String, Option<u16>)>) -> (r: (String, Option<u16>))
    ensures
        match recovered {
            Some(p) => r == p,
            None => crate::clock::is_v4_uuid_text(r.0@) && r.1 is None,
        },
{
    match recovered {
        Some(p) => p,
        None => (crate::clock::new_session_uuid(), None),
    }
}

/// The adapter name and setup flag an attach records: a failed setup still
/// names the adapter but leaves setup incomplete.
pub fn attach_setup_record(setup: bool, adapter_name: Option<&str>, setup_succeeded: bool) -> (r: (Option<String>, bool))
    requires
        setup ==> adapter_name is Some,
    ensures
        setup ==> (r.0 matches Some(n) && n@ == adapter_name->0@ && r.1 == setup_succeeded),
        !setup ==> r.0 is None && !r.1,
{
    if setup {
        match adapter_name {
            Some(n) => (Some(n.to_owned()), setup_succeeded),
            None => (None, false),
        }
    } else {
        (None, false)
    }
}

} // verus!
