//! Ecosystem adapters: what is handed to an adapter when it sets up a new
//! worktree, the environment it sees, and the two adapters the library
//! ships (copying listed files; running shell commands).
//!
//! The environment given to an adapter holds six canonical variables and
//! five compatibility aliases that carry the same values:
//! `CCMANAGER_WORKTREE_PATH` and `WM_WORKTREE_PATH` mirror `ISO_CODE_PATH`,
//! `CCMANAGER_BRANCH_NAME` mirrors `ISO_CODE_BRANCH`, and
//! `CCMANAGER_GIT_ROOT` and `WM_PROJECT_ROOT` mirror `ISO_CODE_REPO`.
use vstd::prelude::*;

use crate::error::WorktreeError;
use crate::text::{chars_of, string_from_chars, trim, trim_chars};
use crate::types::ReflinkMode;

verus! {

/// Language- or framework-specific setup of new worktrees and teardown of
/// deleted ones, for users to implement (copying `.env` files, installing
/// dependencies). Before `setup` runs, the eleven variables of `EnvVars` are
/// set for the worktree. A failed teardown is reported, not propagated.
pub trait EcosystemAdapter: Send + Sync {
    /// The name recorded in the state file.
    fn name(&self) -> &str;

    /// Whether this adapter applies to the worktree.
    fn detect(&self, worktree_path: &str) -> bool;

    /// Set up the new worktree at `worktree_path`, spawned from the
    /// repository at `source_worktree`, honouring `ctx`.
    fn setup(&self, worktree_path: &str, source_worktree: &str, ctx: &SetupContext) -> Result<(), WorktreeError>;

    /// Clean up before the worktree is removed.
    fn teardown(&self, worktree_path: &str) -> Result<(), WorktreeError>;

    /// An adapter's own form of a branch name; the library never calls it.
    fn branch_name(&self, input: &str) -> String {
        input.to_owned()
    }
}

/// Per-call options an adapter's setup must honour.
#[derive(Debug, Clone, Copy)]
#[non_exhaustive]
pub struct SetupContext {
    /// Copy-on-write mode for any file copying the adapter performs.
    pub reflink_mode: ReflinkMode,
}

impl SetupContext {
    /// A context with the given reflink mode.
    pub fn new(reflink_mode: ReflinkMode) -> (c: Self)
        ensures
            c.reflink_mode == reflink_mode,
    {
        SetupContext { reflink_mode }
    }
}

impl Default for SetupContext {
    fn default() -> (c: Self)
        ensures
            c.reflink_mode == ReflinkMode::Preferred,
    {
        SetupContext { reflink_mode: ReflinkMode::Preferred }
    }
}

/// The values put into an adapter's environment.
#[derive(Debug, Clone)]
pub struct EnvVars {
    pub path: String,
    pub branch: String,
    pub repo: String,
    pub name: String,
    /// The leased port, or empty without one.
    pub port: String,
    pub uuid: String,
}

/// The eleven variables and their values: the six canonical ones, then the
/// five aliases.
pub open spec fn env_pairs(path: Seq<char>, branch: Seq<char>, repo: Seq<char>, name: Seq<char>, port: Seq<char>,
    uuid: Seq<char>) -> Seq<(Seq<char>, Seq<char>)> {
    seq![
        ("ISO_CODE_PATH"@, path),
        ("ISO_CODE_BRANCH"@, branch),
        ("ISO_CODE_REPO"@, repo),
        ("ISO_CODE_NAME"@, name),
        ("ISO_CODE_PORT"@, port),
        ("ISO_CODE_UUID"@, uuid),
        ("CCMANAGER_WORKTREE_PATH"@, path),
        ("CCMANAGER_BRANCH_NAME"@, branch),
        ("CCMANAGER_GIT_ROOT"@, repo),
        ("WM_WORKTREE_PATH"@, path),
        ("WM_PROJECT_ROOT"@, repo),
    ]
}

/// The views of a list of name/value pairs.
pub open spec fn pair_views(v: Seq<(&'static str, &str)>) -> Seq<(Seq<char>, Seq<char>)> {
    v.map_values(|p: (&'static str, &str)| (p.0@, p.1@))
}

impl EnvVars {
    /// The values for a worktree at `path` on `branch` of repository `repo`,
    /// made by tool `name`, with its leased port (empty without one) and
    /// session id.
    pub fn for_worktree(path: &str, branch: &str, repo: &str, name: &str, port: Option<u16>, uuid: &str) -> (e: Self)
        ensures
            e.path@ == path@,
            e.branch@ == branch@,
            e.repo@ == repo@,
            e.name@ == name@,
            e.port@ == (match port {
                Some(p) => crate::text::decimal(p as nat),
                None => Seq::<char>::empty(),
            }),
            e.uuid@ == uuid@,
    {
        let port_text = match port {
            Some(p) => {
                let mut out: Vec<char> = Vec::new();
                crate::text::push_decimal(&mut out, p as u64);
                crate::text::string_from_chars(&out)
            },
            None => String::new(),
        };
        EnvVars {
            path: path.to_owned(),
            branch: branch.to_owned(),
            repo: repo.to_owned(),
            name: name.to_owned(),
            port: port_text,
            uuid: uuid.to_owned(),
        }
    }

    /// The eleven `(name, value)` pairs.
    pub fn as_pairs(&self) -> (r: [(&'static str, &str); 11])
        ensures
            pair_views(r@) == env_pairs(self.path@, self.branch@, self.repo@, self.name@, self.port@, self.uuid@),
    {
        let r = [
            ("ISO_CODE_PATH", self.path.as_str()),
            ("ISO_CODE_BRANCH", self.branch.as_str()),
            ("ISO_CODE_REPO", self.repo.as_str()),
            ("ISO_CODE_NAME", self.name.as_str()),
            ("ISO_CODE_PORT", self.port.as_str()),
            ("ISO_CODE_UUID", self.uuid.as_str()),
            ("CCMANAGER_WORKTREE_PATH", self.path.as_str()),
            ("CCMANAGER_BRANCH_NAME", self.branch.as_str()),
            ("CCMANAGER_GIT_ROOT", self.repo.as_str()),
            ("WM_WORKTREE_PATH", self.path.as_str()),
            ("WM_PROJECT_ROOT", self.repo.as_str()),
        ];
        assert(pair_views(r@) =~= env_pairs(self.path@, self.branch@, self.repo@, self.name@, self.port@, self.uuid@));
        r
    }
}

/// Every alias carries the value of its canonical variable.
pub proof fn lemma_aliases_mirror(path: Seq<char>, branch: Seq<char>, repo: Seq<char>, name: Seq<char>, port: Seq<char>,
    uuid: Seq<char>)
    ensures
        env_pairs(path, branch, repo, name, port, uuid).len() == 11,
        env_pairs(path, branch, repo, name, port, uuid)[6].1 == env_pairs(path, branch, repo, name, port, uuid)[0].1,
        env_pairs(path, branch, repo, name, port, uuid)[9].1 == env_pairs(path, branch, repo, name, port, uuid)[0].1,
        env_pairs(path, branch, repo, name, port, uuid)[7].1 == env_pairs(path, branch, repo, name, port, uuid)[1].1,
        env_pairs(path, branch, repo, name, port, uuid)[8].1 == env_pairs(path, branch, repo, name, port, uuid)[2].1,
        env_pairs(path, branch, repo, name, port, uuid)[10].1 == env_pairs(path, branch, repo, name, port, uuid)[2].1,
{
}

// ── DefaultAdapter ──────────────────────────────────────────────────────

/// Copies listed files (paths relative to the worktree root) from the
/// source worktree into the new one; missing sources are skipped.
#[derive(Debug, Clone)]
pub struct DefaultAdapter {
    pub files_to_copy: Vec<String>,
}

impl DefaultAdapter {
    /// An adapter with the given copy list.
    pub fn new(files_to_copy: Vec<String>) -> (a: Self)
        ensures
            a.files_to_copy == files_to_copy,
    {
        DefaultAdapter { files_to_copy }
    }

    /// The name recorded for this adapter.
    pub fn name(&self) -> (n: &'static str)
        ensures
            n@ == "default"@,
    {
        "default"
    }
}

// ── ShellCommandAdapter ─────────────────────────────────────────────────

/// Runs shell commands when a worktree is created and deleted.
#[derive(Debug, Clone)]
pub struct ShellCommandAdapter {
    /// Run after a new worktree is created, in the worktree.
    pub post_create: Option<String>,
    /// Run before a worktree is deleted, in the worktree.
    pub pre_delete: Option<String>,
    /// Run last on delete, in the repository root.
    pub post_delete: Option<String>,
    /// Per-command wall-clock limit in milliseconds.
    pub timeout_ms: u64,
}

impl Default for ShellCommandAdapter {
    fn default() -> (a: Self)
        ensures
            a.post_create is None,
            a.pre_delete is None,
            a.post_delete is None,
            a.timeout_ms == 120_000,
    {
        ShellCommandAdapter { post_create: None, pre_delete: None, post_delete: None, timeout_ms: 120_000 }
    }
}

impl ShellCommandAdapter {
    /// An adapter with no commands and a two-minute limit per command.
    pub fn new() -> (a: Self)
        ensures
            a.post_create is None,
            a.pre_delete is None,
            a.post_delete is None,
            a.timeout_ms == 120_000,
    {
        ShellCommandAdapter { post_create: None, pre_delete: None, post_delete: None, timeout_ms: 120_000 }
    }

    /// This adapter with `cmd` run after creation.
    pub fn with_post_create(self, cmd: String) -> (a: Self)
        ensures
            a == (ShellCommandAdapter { post_create: Some(cmd), ..self }),
    {
        ShellCommandAdapter { post_create: Some(cmd), ..self }
    }

    /// This adapter with `cmd` run before deletion.
    pub fn with_pre_delete(self, cmd: String) -> (a: Self)
        ensures
            a == (ShellCommandAdapter { pre_delete: Some(cmd), ..self }),
    {
        ShellCommandAdapter { pre_delete: Some(cmd), ..self }
    }

    /// This adapter with `cmd` run after deletion.
    pub fn with_post_delete(self, cmd: String) -> (a: Self)
        ensures
            a == (ShellCommandAdapter { post_delete: Some(cmd), ..self }),
    {
        ShellCommandAdapter { post_delete: Some(cmd), ..self }
    }

    /// This adapter with a per-command limit of `ms` milliseconds.
    pub fn with_timeout_ms(self, ms: u64) -> (a: Self)
        ensures
            a == (ShellCommandAdapter { timeout_ms: ms, ..self }),
    {
        ShellCommandAdapter { timeout_ms: ms, ..self }
    }

    /// The name recorded for this adapter.
    pub fn name(&self) -> (n: &'static str)
        ensures
            n@ == "shell-command"@,
    {
        "shell-command"
    }
}

/// How a shell command of an adapter stood when it was last looked at.
#[derive(Debug, Clone)]
pub enum ShellPoll {
    /// It ended: whether it succeeded, its exit code (absent when a signal
    /// ended it) and what it wrote to standard error.
    Exited { success: bool, code: Option<i32>, stderr: String },
    /// It was still running when its time was up, and was killed.
    TimedOut,
}

/// What a shell command's run comes to: success, a failure carrying its
/// exit code (`-1` without one) and its trimmed standard error, or a timeout
/// naming the adapter, the phase and the limit.
pub fn shell_outcome(poll: ShellPoll, adapter: &str, phase: &str, timeout_ms: u64) -> (r: Result<(), WorktreeError>)
    ensures
        match poll {
            ShellPoll::Exited { success, code, stderr } => if success {
                r is Ok
            } else {
                r matches Err(WorktreeError::ShellCommandFailed { exit_code, stderr: e })
                    && exit_code == (match code {
                    Some(c) => c,
                    None => -1i32,
                }) && e@ == trim(stderr@)
            },
            ShellPoll::TimedOut => r matches Err(
                WorktreeError::AdapterTimeout { adapter: a, phase: p, timeout_ms: t },
            ) && a@ == adapter@ && p@ == phase@ && t == timeout_ms,
        },
{
    match poll {
        ShellPoll::Exited { success, code, stderr } => {
            if success {
                Ok(())
            } else {
                let exit_code: i32 = match code {
                    Some(c) => c,
                    None => -1,
                };
                let trimmed = string_from_chars(&trim_chars(&chars_of(stderr.as_str())));
                Err(WorktreeError::ShellCommandFailed { exit_code, stderr: trimmed })
            }
        },
        ShellPoll::TimedOut => Err(
            WorktreeError::AdapterTimeout {
                adapter: adapter.to_string(),
                phase: phase.to_string(),
                timeout_ms,
            },
        ),
    }
}

/// The values a shell adapter captured from its environment at setup, kept
/// for the commands run at teardown.
#[derive(Debug, Clone)]
pub struct CapturedEnv {
    pub branch: String,
    pub repo: String,
    pub name: String,
    pub port: String,
    pub uuid: String,
}

/// The environment of a shell command for the worktree at `path`: with
/// captured values, all eleven variables; without, only the three path
/// variables.
pub open spec fn shell_env(path: Seq<char>, captured: Option<CapturedEnv>) -> Seq<(Seq<char>, Seq<char>)> {
    match captured {
        Some(e) => env_pairs(path, e.branch@, e.repo@, e.name@, e.port@, e.uuid@),
        None => seq![("ISO_CODE_PATH"@, path), ("CCMANAGER_WORKTREE_PATH"@, path), ("WM_WORKTREE_PATH"@, path)],
    }
}

/// The views of a list of owned name/value pairs.
pub open spec fn string_pair_views(v: Seq<(String, String)>) -> Seq<(Seq<char>, Seq<char>)> {
    v.map_values(|p: (String, String)| (p.0@, p.1@))
}

fn pair(k: &str, v: &str) -> (p: (String, String))
    ensures
        p.0@ == k@,
        p.1@ == v@,
{
    (k.to_owned(), v.to_owned())
}

/// The environment pairs for a shell command run for `worktree_path`.
pub fn build_env_pairs(worktree_path: &str, captured: Option<&CapturedEnv>) -> (r: Vec<(String, String)>)
    ensures
        string_pair_views(r@) == shell_env(worktree_path@, match captured {
            Some(e) => Some(*e),
            None => None,
        }),
{
    let p = worktree_path;
    let mut v: Vec<(String, String)> = Vec::new();
    match captured {
        Some(e) => {
            v.push(pair("ISO_CODE_PATH", p));
            v.push(pair("ISO_CODE_BRANCH", e.branch.as_str()));
            v.push(pair("ISO_CODE_REPO", e.repo.as_str()));
            v.push(pair("ISO_CODE_NAME", e.name.as_str()));
            v.push(pair("ISO_CODE_PORT", e.port.as_str()));
            v.push(pair("ISO_CODE_UUID", e.uuid.as_str()));
            v.push(pair("CCMANAGER_WORKTREE_PATH", p));
            v.push(pair("CCMANAGER_BRANCH_NAME", e.branch.as_str()));
            v.push(pair("CCMANAGER_GIT_ROOT", e.repo.as_str()));
            v.push(pair("WM_WORKTREE_PATH", p));
            v.push(pair("WM_PROJECT_ROOT", e.repo.as_str()));
            assert(string_pair_views(v@) =~= env_pairs(p@, e.branch@, e.repo@, e.name@, e.port@, e.uuid@));
        },
        None => {
            v.push(pair("ISO_CODE_PATH", p));
            v.push(pair("CCMANAGER_WORKTREE_PATH", p));
            v.push(pair("WM_WORKTREE_PATH", p));
            assert(string_pair_views(v@) =~= seq![
                ("ISO_CODE_PATH"@, p@),
                ("CCMANAGER_WORKTREE_PATH"@, p@),
                ("WM_WORKTREE_PATH"@, p@),
            ]);
        },
    }
    v
}

} // verus!
