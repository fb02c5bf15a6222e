//! The library's error type and the text each error is reported with.
use vstd::prelude::*;

use crate::text::{chars_of, decimal, decimal_int, push_chars, push_decimal, push_decimal_i64, push_str, string_from_chars};
use crate::types::{state_name, WorktreeState};

verus! {

/// Errors returned by worktree operations.
#[derive(Debug)]
#[non_exhaustive]
pub enum WorktreeError {
    GitNotFound,
    GitVersionTooOld { required: String, found: String },
    BranchAlreadyCheckedOut { branch: String, worktree: String },
    WorktreePathExists(String),
    UncommittedChanges { files: Vec<String> },
    UnmergedCommits { branch: String, commit_count: usize },
    DiskSpaceLow { available_mb: u64, required_mb: u64 },
    AggregateDiskLimitExceeded,
    NetworkFilesystem { mount_point: String },
    NetworkJunctionTarget { path: String },
    WslCrossBoundary,
    SubmoduleContext,
    StateLockContention { timeout_ms: u64 },
    OrphanDetected { paths: Vec<String> },
    RateLimitExceeded { current: usize, max: usize },
    CannotDeleteCwd,
    WorktreeLocked { reason: Option<String> },
    NestedWorktree { parent: String },
    GitCryptLocked,
    ReflinkNotSupported,
    InvalidStateTransition { from: WorktreeState, to: WorktreeState },
    WorktreeNotInGitRegistry(String),
    BranchExistsWithDifferentBase {
        branch: String,
        branch_commit: String,
        requested_base: String,
        requested_commit: String,
    },
    SetupRequestedWithoutAdapter,
    AdapterSetupFailed { adapter: String, reason: String },
    AdapterTeardownFailed { adapter: String, reason: String },
    AdapterTimeout { adapter: String, phase: String, timeout_ms: u64 },
    AdapterMissingDependency { adapter: String, dependency: String, hint: String },
    ShellCommandFailed { exit_code: i32, stderr: String },
    GitCommandFailed { command: String, stderr: String, exit_code: i32 },
    StateCorrupted { reason: String },
    CircuitBreakerOpen { consecutive_failures: u32 },
    /// An I/O failure, carrying the operating system's message.
    Io(String),
}

/// Text of `{:?}` applied to a list of strings (std's `Debug` for `Vec<String>`).
pub uninterp spec fn debug_string_list(items: Seq<Seq<char>>) -> Seq<char>;

/// Renders a list of strings as `{:?}` does: brackets, quoted and escaped items.
#[verifier::external_body]
fn debug_list(items: &Vec<String>) -> (r: String)
    ensures
        r@ == debug_string_list(items@.map_values(|s: String| s@)),
{
    format!("{:?}", items)
}

/// The text an error is reported with.
pub open spec fn error_message(e: WorktreeError) -> Seq<char> {
    match e {
        WorktreeError::GitNotFound => "git not found in PATH — install git 2.20 or later"@,
        WorktreeError::GitVersionTooOld { required, found } => "git version too old: required "@
            + required@ + ", found "@ + found@,
        WorktreeError::BranchAlreadyCheckedOut { branch, worktree } => "branch '"@ + branch@
            + "' is already checked out at '"@ + worktree@ + "'"@,
        WorktreeError::WorktreePathExists(p) => "worktree path already exists: "@ + p@
            + " — pick a path that doesn't exist yet; iso-code will create it (e.g. a sibling like ../<name>-<branch>)"@,
        WorktreeError::UncommittedChanges { files } =>
            "uncommitted changes in worktree — use force_dirty to override: "@ + debug_string_list(
            files@.map_values(|s: String| s@)),
        WorktreeError::UnmergedCommits { branch, commit_count } => "unmerged commits on '"@
            + branch@ + "': "@ + decimal(commit_count as nat)
            + " commit(s) not in upstream — use force to override"@,
        WorktreeError::DiskSpaceLow { available_mb, required_mb } => "insufficient disk space: "@
            + decimal(available_mb as nat) + "MB available, "@ + decimal(required_mb as nat)
            + "MB required"@,
        WorktreeError::AggregateDiskLimitExceeded => "aggregate worktree disk usage exceeds limit"@,
        WorktreeError::NetworkFilesystem { mount_point } =>
            "target is on a network filesystem — performance not guaranteed: "@ + mount_point@,
        WorktreeError::NetworkJunctionTarget { path } =>
            "cannot create Windows junction targeting network path: "@ + path@,
        WorktreeError::WslCrossBoundary =>
            "cannot create worktree across WSL/Windows filesystem boundary"@,
        WorktreeError::SubmoduleContext =>
            "submodule context detected — run from superproject root"@,
        WorktreeError::StateLockContention { timeout_ms } =>
            "state lock contention — another process holds the lock after "@ + decimal(
            timeout_ms as nat) + "ms"@,
        WorktreeError::OrphanDetected { paths } => "orphaned worktrees detected: "@
            + debug_string_list(paths@.map_values(|s: String| s@)),
        WorktreeError::RateLimitExceeded { current, max } => "rate limit exceeded: "@ + decimal(
            current as nat) + " worktrees, maximum is "@ + decimal(max as nat),
        WorktreeError::CannotDeleteCwd => "cannot delete own working directory"@,
        WorktreeError::WorktreeLocked { reason } => match reason {
            Some(r) => "worktree is locked: "@ + r@,
            None => "worktree is locked"@,
        },
        WorktreeError::NestedWorktree { parent } =>
            "cannot create worktree inside existing worktree at '"@ + parent@ + "'"@,
        WorktreeError::GitCryptLocked =>
            "git-crypt encrypted files detected after checkout — unlock the repository first"@,
        WorktreeError::ReflinkNotSupported =>
            "CoW (reflink) required but filesystem does not support it"@,
        WorktreeError::InvalidStateTransition { from, to } => "invalid state transition from "@
            + state_name(from) + " to "@ + state_name(to),
        WorktreeError::WorktreeNotInGitRegistry(p) => "worktree path not found in git registry: "@
            + p@,
        WorktreeError::BranchExistsWithDifferentBase {
            branch,
            branch_commit,
            requested_base,
            requested_commit,
        } => "branch '"@ + branch@ + "' already exists at "@ + branch_commit@
            + " but base was explicitly set to '"@ + requested_base@ + "' ("@ + requested_commit@
            + ") — reset the branch or omit base"@,
        WorktreeError::SetupRequestedWithoutAdapter =>
            "setup = true was requested but no EcosystemAdapter is registered on this Manager — use Manager::with_adapter()"@,
        WorktreeError::AdapterSetupFailed { adapter, reason } => "adapter '"@ + adapter@
            + "' setup failed: "@ + reason@,
        WorktreeError::AdapterTeardownFailed { adapter, reason } => "adapter '"@ + adapter@
            + "' teardown failed: "@ + reason@,
        WorktreeError::AdapterTimeout { adapter, phase, timeout_ms } => "adapter '"@ + adapter@
            + "' timed out after "@ + decimal(timeout_ms as nat) + "ms during "@ + phase@,
        WorktreeError::AdapterMissingDependency { adapter, dependency, hint } => "adapter '"@
            + adapter@ + "' requires missing dependency '"@ + dependency@ + "': "@ + hint@,
        WorktreeError::ShellCommandFailed { exit_code, stderr } => "shell command failed (exit "@
            + decimal_int(exit_code as int) + "): "@ + stderr@,
        WorktreeError::GitCommandFailed { command, stderr, exit_code } =>
            "git command failed\n  command: "@ + command@ + "\n  stderr: "@ + stderr@
            + "\n  exit: "@ + decimal_int(exit_code as int),
        WorktreeError::StateCorrupted { reason } => "state file corrupted: "@ + reason@
            + " — rebuild from git worktree list"@,
        WorktreeError::CircuitBreakerOpen { consecutive_failures } => "circuit breaker open: "@
            + decimal(consecutive_failures as nat) + " consecutive git failures"@,
        WorktreeError::Io(m) => "IO error: "@ + m@,
    }
}

impl WorktreeError {
    /// The text this error is reported with.
    pub fn message(&self) -> (r: String)
        ensures
            r@ == error_message(*self),
    {
        let mut out: Vec<char>;
        match self {
            WorktreeError::GitNotFound => {
                out = chars_of("git not found in PATH — install git 2.20 or later");
            },
            WorktreeError::GitVersionTooOld { required, found } => {
                out = chars_of("git version too old: required ");
                push_str(&mut out, required.as_str());
                push_str(&mut out, ", found ");
                push_str(&mut out, found.as_str());
            },
            WorktreeError::BranchAlreadyCheckedOut { branch, worktree } => {
                out = chars_of("branch '");
                push_str(&mut out, branch.as_str());
                push_str(&mut out, "' is already checked out at '");
                push_str(&mut out, worktree.as_str());
                push_str(&mut out, "'");
            },
            WorktreeError::WorktreePathExists(p) => {
                out = chars_of("worktree path already exists: ");
                push_str(&mut out, p.as_str());
                push_str(
                    &mut out,
                    " — pick a path that doesn't exist yet; iso-code will create it (e.g. a sibling like ../<name>-<branch>)",
                );
            },
            WorktreeError::UncommittedChanges { files } => {
                out = chars_of("uncommitted changes in worktree — use force_dirty to override: ");
                let d = debug_list(files);
                push_str(&mut out, d.as_str());
            },
            WorktreeError::UnmergedCommits { branch, commit_count } => {
                out = chars_of("unmerged commits on '");
                push_str(&mut out, branch.as_str());
                push_str(&mut out, "': ");
                push_decimal(&mut out, *commit_count as u64);
                push_str(&mut out, " commit(s) not in upstream — use force to override");
            },
            WorktreeError::DiskSpaceLow { available_mb, required_mb } => {
                out = chars_of("insufficient disk space: ");
                push_decimal(&mut out, *available_mb);
                push_str(&mut out, "MB available, ");
                push_decimal(&mut out, *required_mb);
                push_str(&mut out, "MB required");
            },
            WorktreeError::AggregateDiskLimitExceeded => {
                out = chars_of("aggregate worktree disk usage exceeds limit");
            },
            WorktreeError::NetworkFilesystem { mount_point } => {
                out = chars_of("target is on a network filesystem — performance not guaranteed: ");
                push_str(&mut out, mount_point.as_str());
            },
            WorktreeError::NetworkJunctionTarget { path } => {
                out = chars_of("cannot create Windows junction targeting network path: ");
                push_str(&mut out, path.as_str());
            },
            WorktreeError::WslCrossBoundary => {
                out = chars_of("cannot create worktree across WSL/Windows filesystem boundary");
            },
            WorktreeError::SubmoduleContext => {
                out = chars_of("submodule context detected — run from superproject root");
            },
            WorktreeError::StateLockContention { timeout_ms } => {
                out = chars_of("state lock contention — another process holds the lock after ");
                push_decimal(&mut out, *timeout_ms);
                push_str(&mut out, "ms");
            },
            WorktreeError::OrphanDetected { paths } => {
                out = chars_of("orphaned worktrees detected: ");
                let d = debug_list(paths);
                push_str(&mut out, d.as_str());
            },
            WorktreeError::RateLimitExceeded { current, max } => {
                out = chars_of("rate limit exceeded: ");
                push_decimal(&mut out, *current as u64);
                push_str(&mut out, " worktrees, maximum is ");
                push_decimal(&mut out, *max as u64);
            },
            WorktreeError::CannotDeleteCwd => {
                out = chars_of("cannot delete own working directory");
            },
            WorktreeError::WorktreeLocked { reason } => {
                match reason {
                    Some(r) => {
                        out = chars_of("worktree is locked: ");
                        push_str(&mut out, r.as_str());
                    },
                    None => {
                        out = chars_of("worktree is locked");
                    },
                }
            },
            WorktreeError::NestedWorktree { parent } => {
                out = chars_of("cannot create worktree inside existing worktree at '");
                push_str(&mut out, parent.as_str());
                push_str(&mut out, "'");
            },
            WorktreeError::GitCryptLocked => {
                out = chars_of(
                    "git-crypt encrypted files detected after checkout — unlock the repository first",
                );
            },
            WorktreeError::ReflinkNotSupported => {
                out = chars_of("CoW (reflink) required but filesystem does not support it");
            },
            WorktreeError::InvalidStateTransition { from, to } => {
                out = chars_of("invalid state transition from ");
                push_str(&mut out, from.name());
                push_str(&mut out, " to ");
                push_str(&mut out, to.name());
            },
            WorktreeError::WorktreeNotInGitRegistry(p) => {
                out = chars_of("worktree path not found in git registry: ");
                push_str(&mut out, p.as_str());
            },
            WorktreeError::BranchExistsWithDifferentBase {
                branch,
                branch_commit,
                requested_base,
                requested_commit,
            } => {
                out = chars_of("branch '");
                push_str(&mut out, branch.as_str());
                push_str(&mut out, "' already exists at ");
                push_str(&mut out, branch_commit.as_str());
                push_str(&mut out, " but base was explicitly set to '");
                push_str(&mut out, requested_base.as_str());
                push_str(&mut out, "' (");
                push_str(&mut out, requested_commit.as_str());
                push_str(&mut out, ") — reset the branch or omit base");
            },
            WorktreeError::SetupRequestedWithoutAdapter => {
                out = chars_of(
                    "setup = true was requested but no EcosystemAdapter is registered on this Manager — use Manager::with_adapter()",
                );
            },
            WorktreeError::AdapterSetupFailed { adapter, reason } => {
                out = chars_of("adapter '");
                push_str(&mut out, adapter.as_str());
                push_str(&mut out, "' setup failed: ");
                push_str(&mut out, reason.as_str());
            },
            WorktreeError::AdapterTeardownFailed { adapter, reason } => {
                out = chars_of("adapter '");
                push_str(&mut out, adapter.as_str());
                push_str(&mut out, "' teardown failed: ");
                push_str(&mut out, reason.as_str());
            },
            WorktreeError::AdapterTimeout { adapter, phase, timeout_ms } => {
                out = chars_of("adapter '");
                push_str(&mut out, adapter.as_str());
                push_str(&mut out, "' timed out after ");
                push_decimal(&mut out, *timeout_ms);
                push_str(&mut out, "ms during ");
                push_str(&mut out, phase.as_str());
            },
            WorktreeError::AdapterMissingDependency { adapter, dependency, hint } => {
                out = chars_of("adapter '");
                push_str(&mut out, adapter.as_str());
                push_str(&mut out, "' requires missing dependency '");
                push_str(&mut out, dependency.as_str());
                push_str(&mut out, "': ");
                push_str(&mut out, hint.as_str());
            },
            WorktreeError::ShellCommandFailed { exit_code, stderr } => {
                out = chars_of("shell command failed (exit ");
                push_decimal_i64(&mut out, *exit_code as i64);
                push_str(&mut out, "): ");
                push_str(&mut out, stderr.as_str());
            },
            WorktreeError::GitCommandFailed { command, stderr, exit_code } => {
                out = chars_of("git command failed\n  command: ");
                push_str(&mut out, command.as_str());
                push_str(&mut out, "\n  stderr: ");
                push_str(&mut out, stderr.as_str());
                push_str(&mut out, "\n  exit: ");
                push_decimal_i64(&mut out, *exit_code as i64);
            },
            WorktreeError::StateCorrupted { reason } => {
                out = chars_of("state file corrupted: ");
                push_str(&mut out, reason.as_str());
                push_str(&mut out, " — rebuild from git worktree list");
            },
            WorktreeError::CircuitBreakerOpen { consecutive_failures } => {
                out = chars_of("circuit breaker open: ");
                push_decimal(&mut out, *consecutive_failures as u64);
                push_str(&mut out, " consecutive git failures");
            },
            WorktreeError::Io(m) => {
                out = chars_of("IO error: ");
                push_str(&mut out, m.as_str());
            },
        }
        string_from_chars(&out)
    }
}

/// Whether `e` is the git failure reported for `command` with `stderr` and `code`.
pub open spec fn is_git_failure(e: WorktreeError, command: Seq<char>, stderr: Seq<char>, code: int) -> bool {
    &&& e is GitCommandFailed
    &&& e->GitCommandFailed_command@ == command
    &&& e->GitCommandFailed_stderr@ == stderr
    &&& e->GitCommandFailed_exit_code == code
}

/// Builds a `GitCommandFailed` error from character sequences.
pub fn git_failure(command: &[char], stderr: &[char], exit_code: i32) -> (e: WorktreeError)
    ensures
        is_git_failure(e, command@, stderr@, exit_code as int),
{
    WorktreeError::GitCommandFailed {
        command: string_from_chars(command),
        stderr: string_from_chars(stderr),
        exit_code,
    }
}

} // verus!
