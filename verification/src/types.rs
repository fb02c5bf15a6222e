//! Public data types: worktree handles and their lifecycle states, the
//! configuration and per-call option records, reports, git version and
//! capability records, and port leases.
//!
//! Paths are carried as `String`s and timestamps of leases and state
//! entries as microseconds since the Unix epoch.
use vstd::prelude::*;

use crate::text::str_is;

verus! {

// ── WorktreeHandle ──────────────────────────────────────────────────────

/// A handle to a managed git worktree with all metadata tracked for it.
#[derive(Debug, Clone)]
#[non_exhaustive]
pub struct WorktreeHandle {
    /// Absolute path to the worktree directory.
    pub path: String,
    /// Branch name exactly as given at creation; never transformed.
    pub branch: String,
    /// Commit the worktree was created from.
    pub base_commit: String,
    /// Current lifecycle state.
    pub state: WorktreeState,
    /// RFC 3339 creation timestamp (UTC).
    pub created_at: String,
    /// Process id of the creator.
    pub creator_pid: u32,
    /// Name of the tool that created the worktree.
    pub creator_name: String,
    /// Name of the ecosystem adapter used, if any.
    pub adapter: Option<String>,
    /// Whether the adapter's setup completed.
    pub setup_complete: bool,
    /// Leased port, if one was allocated.
    pub port: Option<u16>,
    /// Identifier stable for the worktree's lifetime.
    pub session_uuid: String,
}

impl WorktreeHandle {
    /// Builds a handle from its fields.
    #[allow(clippy::too_many_arguments)]
    pub fn new(
        path: String,
        branch: String,
        base_commit: String,
        state: WorktreeState,
        created_at: String,
        creator_pid: u32,
        creator_name: String,
        adapter: Option<String>,
        setup_complete: bool,
        port: Option<u16>,
        session_uuid: String,
    ) -> (h: Self)
        ensures
            h.path == path,
            h.branch == branch,
            h.base_commit == base_commit,
            h.state == state,
            h.created_at == created_at,
            h.creator_pid == creator_pid,
            h.creator_name == creator_name,
            h.adapter == adapter,
            h.setup_complete == setup_complete,
            h.port == port,
            h.session_uuid == session_uuid,
    {
        WorktreeHandle {
            path,
            branch,
            base_commit,
            state,
            created_at,
            creator_pid,
            creator_name,
            adapter,
            setup_complete,
            port,
            session_uuid,
        }
    }
}

// ── WorktreeState ───────────────────────────────────────────────────────

/// Lifecycle state of a managed worktree.
#[derive(Debug, Clone, Copy, PartialEq, Eq, Hash, Structural)]
#[non_exhaustive]
pub enum WorktreeState {
    /// Recorded but `git worktree add` not yet run.
    Pending,
    /// `git worktree add` is in progress.
    Creating,
    /// Ready for use.
    Active,
    /// A merge involving this worktree is in progress.
    Merging,
    /// `git worktree remove` is in progress.
    Deleting,
    /// Deleted; terminal.
    Deleted,
    /// On disk but unknown to git, or recorded but gone from disk and git.
    Orphaned,
    /// References broken, metadata corrupt, or post-create checks failed.
    Broken,
    /// Locked with `git worktree lock`.
    Locked,
}

/// The name under which a state is written and shown.
pub open spec fn state_name(s: WorktreeState) -> Seq<char> {
    match s {
        WorktreeState::Pending => "Pending"@,
        WorktreeState::Creating => "Creating"@,
        WorktreeState::Active => "Active"@,
        WorktreeState::Merging => "Merging"@,
        WorktreeState::Deleting => "Deleting"@,
        WorktreeState::Deleted => "Deleted"@,
        WorktreeState::Orphaned => "Orphaned"@,
        WorktreeState::Broken => "Broken"@,
        WorktreeState::Locked => "Locked"@,
    }
}

/// Lenient reading of a state name: an unknown name (as a newer writer may
/// produce) reads as `Broken`.
pub open spec fn state_from_name(n: Seq<char>) -> WorktreeState {
    if n == "Pending"@ {
        WorktreeState::Pending
    } else if n == "Creating"@ {
        WorktreeState::Creating
    } else if n == "Active"@ {
        WorktreeState::Active
    } else if n == "Merging"@ {
        WorktreeState::Merging
    } else if n == "Deleting"@ {
        WorktreeState::Deleting
    } else if n == "Deleted"@ {
        WorktreeState::Deleted
    } else if n == "Orphaned"@ {
        WorktreeState::Orphaned
    } else if n == "Broken"@ {
        WorktreeState::Broken
    } else if n == "Locked"@ {
        WorktreeState::Locked
    } else {
        WorktreeState::Broken
    }
}

impl WorktreeState {
    /// The name under which the state is written (its variant name).
    pub fn name(&self) -> (r: &'static str)
        ensures
            r@ == state_name(*self),
    {
        match self {
            WorktreeState::Pending => "Pending",
            WorktreeState::Creating => "Creating",
            WorktreeState::Active => "Active",
            WorktreeState::Merging => "Merging",
            WorktreeState::Deleting => "Deleting",
            WorktreeState::Deleted => "Deleted",
            WorktreeState::Orphaned => "Orphaned",
            WorktreeState::Broken => "Broken",
            WorktreeState::Locked => "Locked",
        }
    }

    /// Reads a state from its name; unknown names read as `Broken`.
    pub fn from_name(n: &str) -> (r: WorktreeState)
        ensures
            r == state_from_name(n@),
    {
        if str_is(n, "Pending") {
            WorktreeState::Pending
        } else if str_is(n, "Creating") {
            WorktreeState::Creating
        } else if str_is(n, "Active") {
            WorktreeState::Active
        } else if str_is(n, "Merging") {
            WorktreeState::Merging
        } else if str_is(n, "Deleting") {
            WorktreeState::Deleting
        } else if str_is(n, "Deleted") {
            WorktreeState::Deleted
        } else if str_is(n, "Orphaned") {
            WorktreeState::Orphaned
        } else if str_is(n, "Broken") {
            WorktreeState::Broken
        } else if str_is(n, "Locked") {
            WorktreeState::Locked
        } else {
            WorktreeState::Broken
        }
    }
}

// ── ReflinkMode & CopyOutcome ───────────────────────────────────────────

/// Copy-on-write behaviour when copying files into a new worktree.
#[derive(Debug, Clone, Copy, PartialEq, Eq, Structural)]
pub enum ReflinkMode {
    /// Fail if the filesystem cannot copy-on-write.
    Required,
    /// Try copy-on-write and fall back to a plain copy.
    Preferred,
    /// Always copy plainly.
    Disabled,
}

impl Default for ReflinkMode {
    fn default() -> (r: Self)
        ensures
            r == ReflinkMode::Preferred,
    {
        ReflinkMode::Preferred
    }
}

/// What a copy step actually did.
#[derive(Debug, Clone, Copy, PartialEq, Eq, Structural)]
pub enum CopyOutcome {
    Reflinked,
    StandardCopy { bytes_written: u64 },
    /// No file was copied.
    NoCopy,
}

// ── Config ──────────────────────────────────────────────────────────────

/// Configuration of a manager.
#[derive(Debug, Clone)]
#[non_exhaustive]
pub struct Config {
    /// Maximum managed worktrees per repository.
    pub max_worktrees: usize,
    /// Refuse creation when aggregate usage exceeds this percentage of the filesystem.
    pub disk_threshold_percent: u8,
    /// Worktrees older than this many days are collectable.
    pub gc_max_age_days: u32,
    /// First port of the lease range.
    pub port_range_start: u16,
    /// End of the lease range (exclusive).
    pub port_range_end: u16,
    /// Minimum free disk space for a new worktree, in MB.
    pub min_free_disk_mb: u64,
    /// Directory overriding all state file locations.
    pub home_override: Option<String>,
    /// Cap on aggregate worktree bytes; `None` is unlimited.
    pub max_total_disk_bytes: Option<u64>,
    /// Consecutive git failures after which the circuit breaker opens.
    pub circuit_breaker_threshold: u32,
    /// Days that evicted metadata is kept.
    pub stale_metadata_ttl_days: u32,
    /// Total timeout for acquiring the state lock, in ms.
    pub lock_timeout_ms: u64,
    /// Name recorded as creator of worktrees made by this manager.
    pub creator_name: String,
    /// Skip network operations such as `git fetch`.
    pub offline: bool,
}

impl Default for Config {
    fn default() -> (c: Self)
        ensures
            c.max_worktrees == 20,
            c.disk_threshold_percent == 90,
            c.gc_max_age_days == 7,
            c.port_range_start == 3100,
            c.port_range_end == 5100,
            c.min_free_disk_mb == 500,
            c.home_override is None,
            c.max_total_disk_bytes is None,
            c.circuit_breaker_threshold == 3,
            c.stale_metadata_ttl_days == 30,
            c.lock_timeout_ms == 30_000,
            c.creator_name@ == "iso-code"@,
            !c.offline,
    {
        Config {
            max_worktrees: 20,
            disk_threshold_percent: 90,
            gc_max_age_days: 7,
            port_range_start: 3100,
            port_range_end: 5100,
            min_free_disk_mb: 500,
            home_override: None,
            max_total_disk_bytes: None,
            circuit_breaker_threshold: 3,
            stale_metadata_ttl_days: 30,
            lock_timeout_ms: 30_000,
            creator_name: "iso-code".to_string(),
            offline: false,
        }
    }
}

// ── Options ─────────────────────────────────────────────────────────────

/// Options for creating a worktree.
#[derive(Debug, Clone)]
#[non_exhaustive]
pub struct CreateOptions {
    /// Base ref; `None` means HEAD.
    pub base: Option<String>,
    /// Run the registered adapter after creation.
    pub setup: bool,
    /// Skip the aggregate disk limit check.
    pub ignore_disk_limit: bool,
    /// Lock the worktree as part of creation.
    pub lock: bool,
    /// Reason given with the lock.
    pub lock_reason: Option<String>,
    /// Copy-on-write behaviour for file copies.
    pub reflink_mode: ReflinkMode,
    /// Allocate a port lease for the worktree.
    pub allocate_port: bool,
}

impl Default for CreateOptions {
    fn default() -> (o: Self)
        ensures
            o.base is None,
            !o.setup,
            !o.ignore_disk_limit,
            !o.lock,
            o.lock_reason is None,
            o.reflink_mode == ReflinkMode::Preferred,
            !o.allocate_port,
    {
        CreateOptions {
            base: None,
            setup: false,
            ignore_disk_limit: false,
            lock: false,
            lock_reason: None,
            reflink_mode: ReflinkMode::Preferred,
            allocate_port: false,
        }
    }
}

/// Options for attaching an existing worktree.
#[derive(Debug, Clone)]
#[non_exhaustive]
pub struct AttachOptions {
    /// Run the registered adapter after attaching.
    pub setup: bool,
    /// Allocate a port lease for the worktree.
    pub allocate_port: bool,
}

impl Default for AttachOptions {
    fn default() -> (o: Self)
        ensures
            !o.setup,
            !o.allocate_port,
    {
        AttachOptions { setup: false, allocate_port: false }
    }
}

/// Options for deleting a worktree.
#[derive(Debug, Clone)]
#[non_exhaustive]
pub struct DeleteOptions {
    /// Skip the unmerged-commits check.
    pub force: bool,
    /// Skip the uncommitted-changes check.
    pub force_dirty: bool,
    /// Delete even a locked worktree (removal is forced).
    pub force_locked: bool,
}

impl Default for DeleteOptions {
    fn default() -> (o: Self)
        ensures
            !o.force,
            !o.force_dirty,
            !o.force_locked,
    {
        DeleteOptions { force: false, force_dirty: false, force_locked: false }
    }
}

/// Options for garbage collection.
#[derive(Debug, Clone)]
#[non_exhaustive]
pub struct GcOptions {
    /// Report without changing anything.
    pub dry_run: bool,
    /// Overrides the configured maximum age for this run.
    pub max_age_days: Option<u32>,
    /// Skip the unmerged-commits check.
    pub force: bool,
}

impl Default for GcOptions {
    fn default() -> (o: Self)
        ensures
            o.dry_run,
            o.max_age_days is None,
            !o.force,
    {
        GcOptions { dry_run: true, max_age_days: None, force: false }
    }
}

/// Report of a garbage collection run.
#[derive(Debug, Clone)]
#[non_exhaustive]
pub struct GcReport {
    /// Worktrees identified as orphaned.
    pub orphans: Vec<String>,
    /// Worktrees actually removed (none on a dry run).
    pub removed: Vec<String>,
    /// Worktrees moved to the stale records.
    pub evicted: Vec<String>,
    /// Bytes freed (zero on a dry run).
    pub freed_bytes: u64,
    /// Whether this was a dry run.
    pub dry_run: bool,
}

impl GcReport {
    /// Builds a report from its fields.
    pub fn new(
        orphans: Vec<String>,
        removed: Vec<String>,
        evicted: Vec<String>,
        freed_bytes: u64,
        dry_run: bool,
    ) -> (r: Self)
        ensures
            r.orphans == orphans,
            r.removed == removed,
            r.evicted == evicted,
            r.freed_bytes == freed_bytes,
            r.dry_run == dry_run,
    {
        GcReport { orphans, removed, evicted, freed_bytes, dry_run }
    }
}

// ── GitCapabilities & GitVersion ────────────────────────────────────────

/// Feature flags derived from the git version.
#[derive(Debug, Clone, Copy)]
#[non_exhaustive]
pub struct GitCapabilities {
    pub version: GitVersion,
    /// `git worktree list --porcelain -z` (2.36+).
    pub has_list_nul: bool,
    /// `git worktree repair` (2.30+).
    pub has_repair: bool,
    /// `git worktree add --orphan` (2.42+).
    pub has_orphan: bool,
    /// `worktree.useRelativePaths` (2.48+).
    pub has_relative_paths: bool,
    /// `git merge-tree --write-tree` (2.38+).
    pub has_merge_tree_write: bool,
}

impl GitCapabilities {
    /// Builds a capability record from its fields.
    pub fn new(
        version: GitVersion,
        has_list_nul: bool,
        has_repair: bool,
        has_orphan: bool,
        has_relative_paths: bool,
        has_merge_tree_write: bool,
    ) -> (c: Self)
        ensures
            c.version == version,
            c.has_list_nul == has_list_nul,
            c.has_repair == has_repair,
            c.has_orphan == has_orphan,
            c.has_relative_paths == has_relative_paths,
            c.has_merge_tree_write == has_merge_tree_write,
    {
        GitCapabilities {
            version,
            has_list_nul,
            has_repair,
            has_orphan,
            has_relative_paths,
            has_merge_tree_write,
        }
    }
}

/// Semantic version of the git binary, ordered by (major, minor, patch).
#[derive(Debug, Clone, Copy, PartialEq, Eq, PartialOrd, Ord, Structural)]
pub struct GitVersion {
    pub major: u32,
    pub minor: u32,
    pub patch: u32,
}

/// Lexicographic order on (major, minor, patch): `a` is at least `b`.
pub open spec fn version_at_least(a: GitVersion, b: GitVersion) -> bool {
    a.major > b.major || (a.major == b.major && (a.minor > b.minor || (a.minor == b.minor
        && a.patch >= b.patch)))
}

impl GitVersion {
    /// Oldest supported git (2.20.0).
    #[allow(non_snake_case)]
    pub fn MINIMUM() -> (v: GitVersion)
        ensures
            v == (GitVersion { major: 2, minor: 20, patch: 0 }),
    {
        GitVersion { major: 2, minor: 20, patch: 0 }
    }

    /// First git with `worktree list -z` (2.36.0).
    #[allow(non_snake_case)]
    pub fn HAS_LIST_NUL() -> (v: GitVersion)
        ensures
            v == (GitVersion { major: 2, minor: 36, patch: 0 }),
    {
        GitVersion { major: 2, minor: 36, patch: 0 }
    }

    /// First git with `worktree repair` (2.30.0).
    #[allow(non_snake_case)]
    pub fn HAS_REPAIR() -> (v: GitVersion)
        ensures
            v == (GitVersion { major: 2, minor: 30, patch: 0 }),
    {
        GitVersion { major: 2, minor: 30, patch: 0 }
    }

    /// First git with `merge-tree --write-tree` (2.38.0).
    #[allow(non_snake_case)]
    pub fn HAS_MERGE_TREE_WRITE() -> (v: GitVersion)
        ensures
            v == (GitVersion { major: 2, minor: 38, patch: 0 }),
    {
        GitVersion { major: 2, minor: 38, patch: 0 }
    }

    /// Whether this version is at least `other` in (major, minor, patch) order.
    pub fn at_least(&self, other: &GitVersion) -> (r: bool)
        ensures
            r == version_at_least(*self, *other),
    {
        self.major > other.major || (self.major == other.major && (self.minor > other.minor || (
        self.minor == other.minor && self.patch >= other.patch)))
    }
}

// ── PortLease ───────────────────────────────────────────────────────────

/// A port leased to a worktree; timestamps are microseconds since the epoch.
#[derive(Debug, Clone)]
pub struct PortLease {
    pub port: u16,
    pub branch: String,
    pub session_uuid: String,
    pub pid: u32,
    pub created_at: i64,
    pub expires_at: i64,
    /// "active", or "stale" after its worktree was evicted.
    pub status: String,
}

// ── GitCryptStatus ──────────────────────────────────────────────────────

/// Status of git-crypt in a repository or worktree.
#[derive(Debug, Clone, Copy, PartialEq, Eq, Structural)]
pub enum GitCryptStatus {
    NotUsed,
    /// Key file absent.
    LockedNoKey,
    /// Key present but files still carry the encryption header.
    Locked,
    /// Key present and files decrypted.
    Unlocked,
}

} // verus!
