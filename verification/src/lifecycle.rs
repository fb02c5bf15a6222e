//! The lifecycle operations as plans and step functions: what a delete
//! does, what an attach returns or records, what a garbage collection
//! reports, and the order of a create's steps with the cleanup after each
//! failure. The caller performs each action (git, the disk, the adapter)
//! and reports what happened.
use vstd::prelude::*;

use crate::error::WorktreeError;
use crate::manager::{pre_delete_checks, pre_delete_order, GcScreen, PreDeleteCheck};
use crate::state::ActiveWorktreeEntry;
use crate::types::{DeleteOptions, GcReport, WorktreeHandle, WorktreeState};

verus! {

// ── Delete ──────────────────────────────────────────────────────────────

/// How a delete proceeds: run `checks` in order (any failure ends the
/// delete), mark the entry `Deleting`, call the adapter's teardown when
/// `teardown`, remove the worktree (with `--force` when `force_remove`),
/// then drop the entry and its port lease.
#[derive(Debug, Clone)]
pub struct DeletePlan {
    pub checks: Vec<PreDeleteCheck>,
    pub teardown: bool,
    pub force_remove: bool,
}

/// The plan for deleting `h` with options `o`: the pre-delete checks the
/// options leave in, teardown only when setup completed and an adapter is
/// registered, forced removal only when locked worktrees may go.
pub fn delete_plan(h: &WorktreeHandle, o: &DeleteOptions, has_adapter: bool) -> (p: DeletePlan)
    ensures
        p.checks@ == pre_delete_order(*o),
        p.teardown == (h.setup_complete && has_adapter),
        p.force_remove == o.force_locked,
{
    DeletePlan { checks: pre_delete_checks(o), teardown: h.setup_complete && has_adapter, force_remove: o.force_locked }
}

// ── Attach ──────────────────────────────────────────────────────────────

/// What an attach does: hand back the worktree as already recorded, or
/// register it under this session id and port.
#[derive(Debug, Clone)]
pub enum AttachPlan {
    Existing(WorktreeHandle),
    Register { session_uuid: String, port: Option<u16> },
}

/// The attach of the worktree at `path` on `branch`, which git reports in
/// state `git_state`: when the branch is already recorded, its recorded
/// metadata at `path` (attach is idempotent); otherwise registration with
/// the session id and port a stale record kept, else a fresh id and no port.
pub fn attach_plan(
    path: &str,
    branch: &str,
    git_state: WorktreeState,
    recorded: Option<&ActiveWorktreeEntry>,
    recovered: Option<(String, Option<u16>)>,
) -> (p: AttachPlan)
    ensures
        match recorded {
            Some(e) => p matches AttachPlan::Existing(h) && h.path@ == path@ && h.branch@ == branch@ && h.base_commit
                == e.base_commit && h.state == git_state && h.created_at@ == crate::clock::rfc3339_text(e.created_at as int)
                && h.creator_pid == e.creator_pid && h.creator_name == e.creator_name && h.adapter == e.adapter
                && h.setup_complete == e.setup_complete && h.port == e.port && h.session_uuid == e.session_uuid,
            None => p matches AttachPlan::Register { session_uuid, port } && match recovered {
                Some(r) => session_uuid == r.0 && port == r.1,
                None => crate::clock::is_v4_uuid_text(session_uuid@) && port is None,
            },
        },
{
    match recorded {
        Some(e) => AttachPlan::Existing(
            WorktreeHandle::new(
                path.to_owned(),
                branch.to_owned(),
                e.base_commit.clone(),
                git_state,
                crate::clock::rfc3339(e.created_at),
                e.creator_pid,
                e.creator_name.clone(),
                crate::state::copy_opt_string(&e.adapter),
                e.setup_complete,
                e.port,
                e.session_uuid.clone(),
            ),
        ),
        None => {
            let (session_uuid, port) = crate::manager::attach_identity(recovered);
            AttachPlan::Register { session_uuid, port }
        },
    }
}

// ── Garbage collection ──────────────────────────────────────────────────

/// Whether a screened worktree is collected: screened for collection, or
/// screened for the unmerged check and found safe.
pub open spec fn gc_candidate(s: GcScreen, unmerged_ok: bool) -> bool {
    s == GcScreen::Collect || (s == GcScreen::CheckUnmerged && unmerged_ok)
}

/// Whether some listed worktree is orphaned at path `p`.
pub open spec fn orphan_listed(ws: Seq<WorktreeHandle>, p: Seq<char>) -> bool {
    exists|j: int| 0 <= j < ws.len() && (#[trigger] ws[j]).state == WorktreeState::Orphaned && ws[j].path@ == p
}

/// The `(path, branch)` of each candidate among the first `n` worktrees
/// that is not an orphan's path: the worktrees evicted.
pub open spec fn gc_evicted_moves(ws: Seq<WorktreeHandle>, screens: Seq<GcScreen>, unmerged_ok: Seq<bool>, n: int) -> Seq<
    (Seq<char>, Seq<char>),
>
    decreases n,
{
    if n <= 0 {
        Seq::empty()
    } else {
        let prev = gc_evicted_moves(ws, screens, unmerged_ok, n - 1);
        if gc_candidate(screens[n - 1], unmerged_ok[n - 1]) && !orphan_listed(ws, ws[n - 1].path@) {
            prev.push((ws[n - 1].path@, ws[n - 1].branch@))
        } else {
            prev
        }
    }
}

/// Whether the `i`-th worktree was removed: a candidate, not a dry run, and
/// its removal succeeded.
pub open spec fn gc_removes(screen: GcScreen, unmerged_ok: bool, removed_ok: bool, dry_run: bool) -> bool {
    gc_candidate(screen, unmerged_ok) && !dry_run && removed_ok
}

/// The `(path, branch)` of each of the first `n` worktrees that was removed.
pub open spec fn gc_removed_moves(ws: Seq<WorktreeHandle>, screens: Seq<GcScreen>, unmerged_ok: Seq<bool>, removed_ok: Seq<
    bool,
>, dry_run: bool, n: int) -> Seq<(Seq<char>, Seq<char>)>
    decreases n,
{
    if n <= 0 {
        Seq::empty()
    } else {
        let prev = gc_removed_moves(ws, screens, unmerged_ok, removed_ok, dry_run, n - 1);
        if gc_removes(screens[n - 1], unmerged_ok[n - 1], removed_ok[n - 1], dry_run) {
            prev.push((ws[n - 1].path@, ws[n - 1].branch@))
        } else {
            prev
        }
    }
}

/// The bytes freed by the first `n` worktrees: the sizes of those removed.
pub open spec fn gc_freed(screens: Seq<GcScreen>, unmerged_ok: Seq<bool>, removed_ok: Seq<bool>, sizes: Seq<u64>,
    dry_run: bool, n: int) -> int
    decreases n,
{
    if n <= 0 {
        0
    } else {
        gc_freed(screens, unmerged_ok, removed_ok, sizes, dry_run, n - 1) + if gc_removes(
            screens[n - 1],
            unmerged_ok[n - 1],
            removed_ok[n - 1],
            dry_run,
        ) {
            sizes[n - 1] as int
        } else {
            0
        }
    }
}

/// The paths of a list of moves.
pub open spec fn move_paths(m: Seq<(Seq<char>, Seq<char>)>) -> Seq<Seq<char>> {
    m.map_values(|e: (Seq<char>, Seq<char>)| e.0)
}

/// The text view of recorded moves (`(path, Some(branch))`).
pub open spec fn move_views(v: Seq<(String, Option<String>)>) -> Seq<(Seq<char>, Seq<char>)> {
    v.map_values(|e: (String, Option<String>)| (e.0@, match e.1 {
        Some(b) => b@,
        None => Seq::empty(),
    }))
}

proof fn lemma_freed_mono(screens: Seq<GcScreen>, unmerged_ok: Seq<bool>, removed_ok: Seq<bool>, sizes: Seq<u64>,
    dry_run: bool, a: int, b: int)
    requires
        0 <= a <= b,
    ensures
        0 <= gc_freed(screens, unmerged_ok, removed_ok, sizes, dry_run, a) <= gc_freed(
            screens,
            unmerged_ok,
            removed_ok,
            sizes,
            dry_run,
            b,
        ),
    decreases b,
{
    if a < b {
        lemma_freed_mono(screens, unmerged_ok, removed_ok, sizes, dry_run, a, b - 1);
    } else if b > 0 {
        lemma_freed_mono(screens, unmerged_ok, removed_ok, sizes, dry_run, b - 1, b - 1);
    }
}

fn path_among_orphans(ws: &Vec<WorktreeHandle>, p: &str) -> (b: bool)
    ensures
        b == orphan_listed(ws@, p@),
{
    let mut j: usize = 0;
    while j < ws.len()
        invariant
            j <= ws@.len(),
            forall|a: int| 0 <= a < j ==> !((#[trigger] ws@[a]).state == WorktreeState::Orphaned && ws@[a].path@ == p@),
        decreases ws@.len() - j,
    {
        if ws[j].state == WorktreeState::Orphaned && crate::text::str_is(ws[j].path.as_str(), p) {
            return true;
        }
        j = j + 1;
    }
    false
}

/// What a collection amounts to, from the listed worktrees and, for each,
/// its screen, whether the unmerged check found it safe, whether its removal
/// succeeded and its size: the moves to record for the evicted and the
/// removed worktrees, and the bytes freed.
pub fn gc_moves_of(
    worktrees: &Vec<WorktreeHandle>,
    screens: &Vec<GcScreen>,
    unmerged_ok: &Vec<bool>,
    removed_ok: &Vec<bool>,
    sizes: &Vec<u64>,
    dry_run: bool,
) -> (r: (Vec<(String, Option<String>)>, Vec<(String, Option<String>)>, u64))
    requires
        screens@.len() == worktrees@.len(),
        unmerged_ok@.len() == worktrees@.len(),
        removed_ok@.len() == worktrees@.len(),
        sizes@.len() == worktrees@.len(),
        gc_freed(screens@, unmerged_ok@, removed_ok@, sizes@, dry_run, worktrees@.len() as int) <= u64::MAX,
    ensures
        move_views(r.0@) == gc_evicted_moves(worktrees@, screens@, unmerged_ok@, worktrees@.len() as int),
        forall|i: int| 0 <= i < r.0@.len() ==> (#[trigger] r.0@[i]).1 is Some,
        move_views(r.1@) == gc_removed_moves(worktrees@, screens@, unmerged_ok@, removed_ok@, dry_run, worktrees@.len() as int),
        forall|i: int| 0 <= i < r.1@.len() ==> (#[trigger] r.1@[i]).1 is Some,
        r.2 == gc_freed(screens@, unmerged_ok@, removed_ok@, sizes@, dry_run, worktrees@.len() as int),
{
    let n = worktrees.len();
    let mut evicted: Vec<(String, Option<String>)> = Vec::new();
    let mut removed: Vec<(String, Option<String>)> = Vec::new();
    let mut freed: u64 = 0;
    let mut i: usize = 0;
    while i < n
        invariant
            n == worktrees@.len(),
            i <= n,
            screens@.len() == n,
            unmerged_ok@.len() == n,
            removed_ok@.len() == n,
            sizes@.len() == n,
            gc_freed(screens@, unmerged_ok@, removed_ok@, sizes@, dry_run, n as int) <= u64::MAX,
            move_views(evicted@) == gc_evicted_moves(worktrees@, screens@, unmerged_ok@, i as int),
            forall|a: int| 0 <= a < evicted@.len() ==> (#[trigger] evicted@[a]).1 is Some,
            move_views(removed@) == gc_removed_moves(worktrees@, screens@, unmerged_ok@, removed_ok@, dry_run, i as int),
            forall|a: int| 0 <= a < removed@.len() ==> (#[trigger] removed@[a]).1 is Some,
            freed == gc_freed(screens@, unmerged_ok@, removed_ok@, sizes@, dry_run, i as int),
        decreases n - i,
    {
        let w = &worktrees[i];
        let candidate = screens[i] == GcScreen::Collect || (screens[i] == GcScreen::CheckUnmerged && unmerged_ok[i]);
        if candidate && !path_among_orphans(worktrees, w.path.as_str()) {
            let ghost before = evicted@;
            evicted.push((w.path.clone(), Some(w.branch.clone())));
            proof {
                assert(move_views(evicted@) =~= move_views(before).push((w.path@, w.branch@)));
            }
        }
        if candidate && !dry_run && removed_ok[i] {
            let ghost before = removed@;
            removed.push((w.path.clone(), Some(w.branch.clone())));
            proof {
                assert(move_views(removed@) =~= move_views(before).push((w.path@, w.branch@)));
                lemma_freed_mono(screens@, unmerged_ok@, removed_ok@, sizes@, dry_run, i as int + 1, n as int);
            }
            freed = freed + sizes[i];
        }
        i = i + 1;
    }
    (evicted, removed, freed)
}

fn paths_of(m: &Vec<(String, Option<String>)>) -> (r: Vec<String>)
    ensures
        r@.map_values(|s: String| s@) == move_paths(move_views(m@)),
{
    let mut r: Vec<String> = Vec::new();
    let mut i: usize = 0;
    while i < m.len()
        invariant
            i <= m@.len(),
            r@.map_values(|s: String| s@) == move_paths(move_views(m@.take(i as int))),
        decreases m@.len() - i,
    {
        let ghost before = r@;
        r.push(m[i].0.clone());
        proof {
            assert(m@.take(i as int + 1) =~= m@.take(i as int).push(m@[i as int]));
            assert(move_views(m@.take(i as int + 1)) =~= move_views(m@.take(i as int)).push(move_views(m@)[i as int]));
            assert(r@.map_values(|s: String| s@) =~= before.map_values(|s: String| s@).push(m@[i as int].0@));
            assert(move_paths(move_views(m@.take(i as int + 1))) =~= move_paths(move_views(m@.take(i as int))).push(
                m@[i as int].0@,
            ));
        }
        i = i + 1;
    }
    proof {
        assert(m@.take(m@.len() as int) =~= m@);
    }
    r
}

/// The report of a collection: the orphaned worktrees' paths; the evicted
/// candidates (those not at an orphan's path); the candidates whose
/// removal succeeded, none on a dry run; and the sum of their sizes.
pub fn gc_report_of(
    worktrees: &Vec<WorktreeHandle>,
    screens: &Vec<GcScreen>,
    unmerged_ok: &Vec<bool>,
    removed_ok: &Vec<bool>,
    sizes: &Vec<u64>,
    dry_run: bool,
) -> (r: GcReport)
    requires
        screens@.len() == worktrees@.len(),
        unmerged_ok@.len() == worktrees@.len(),
        removed_ok@.len() == worktrees@.len(),
        sizes@.len() == worktrees@.len(),
        gc_freed(screens@, unmerged_ok@, removed_ok@, sizes@, dry_run, worktrees@.len() as int) <= u64::MAX,
    ensures
        r.orphans@.map_values(|s: String| s@) == worktrees@.filter(|h: WorktreeHandle| h.state == WorktreeState::Orphaned).map_values(
            |h: WorktreeHandle| h.path@),
        r.evicted@.map_values(|s: String| s@) == move_paths(gc_evicted_moves(worktrees@, screens@, unmerged_ok@, worktrees@.len() as int)),
        r.removed@.map_values(|s: String| s@) == move_paths(
            gc_removed_moves(worktrees@, screens@, unmerged_ok@, removed_ok@, dry_run, worktrees@.len() as int),
        ),
        dry_run ==> r.removed@.len() == 0,
        r.freed_bytes == gc_freed(screens@, unmerged_ok@, removed_ok@, sizes@, dry_run, worktrees@.len() as int),
        r.dry_run == dry_run,
{
    let orphans = crate::manager::gc_orphans(worktrees);
    let (evicted, removed, freed) = gc_moves_of(worktrees, screens, unmerged_ok, removed_ok, sizes, dry_run);
    proof {
        if dry_run {
            lemma_dry_run_removes_nothing(worktrees@, screens@, unmerged_ok@, removed_ok@, worktrees@.len() as int);
        }
    }
    let r = GcReport::new(orphans, paths_of(&removed), paths_of(&evicted), freed, dry_run);
    proof {
        assert(r.removed@.map_values(|s: String| s@).len() == r.removed@.len());
    }
    r
}

proof fn lemma_dry_run_removes_nothing(ws: Seq<WorktreeHandle>, screens: Seq<GcScreen>, unmerged_ok: Seq<bool>,
    removed_ok: Seq<bool>, n: int)
    ensures
        gc_removed_moves(ws, screens, unmerged_ok, removed_ok, true, n).len() == 0,
    decreases n,
{
    if n > 0 {
        lemma_dry_run_removes_nothing(ws, screens, unmerged_ok, removed_ok, n - 1);
    }
}

// ── Create ──────────────────────────────────────────────────────────────

/// The steps of a create after its `Creating` entry is recorded, in order:
/// add the worktree, check that git-crypt files came out decrypted, lease a
/// port (when asked), run the adapter's setup (when asked), record the final
/// state; then it is done, or it failed.
#[derive(Debug, Clone, Copy, PartialEq, Eq, Structural)]
pub enum CreateStep {
    AddWorktree,
    CheckCrypt,
    AllocatePort,
    RunSetup,
    Record,
    Done,
    Failed,
}

/// A create in progress: the step it is at, what was asked, and the port
/// leased so far.
#[derive(Debug, Clone, Copy)]
pub struct CreateRun {
    pub step: CreateStep,
    pub allocate_port: bool,
    pub setup: bool,
    pub has_adapter: bool,
    pub port: Option<u16>,
}

/// What performing a step gave. A failed setup names the adapter.
#[derive(Debug)]
pub enum CreateEvent {
    Succeeded,
    Leased(u16),
    Failed(WorktreeError),
    SetupFailed { adapter: String, error: WorktreeError },
}

/// How a failed create cleans up the disk: remove the half-made directory
/// (git never registered it) or `git worktree remove --force`.
#[derive(Debug, Clone, Copy, PartialEq, Eq, Structural)]
pub enum Cleanup {
    RemoveDirectory,
    ForceRemove,
}

/// What the caller does next.
#[derive(Debug)]
pub enum CreateAction {
    /// Perform this step.
    Perform(CreateStep),
    /// Clean up, drop the `Creating` entry (and the leased port when
    /// `forget_lease`), and fail with `error`.
    RollBack { cleanup: Cleanup, forget_lease: bool, error: WorktreeError },
    /// Hand back the created worktree.
    Finish,
}

/// The step after the git-crypt check passed: setup without an adapter is
/// refused; then a port lease, setup, and recording, as asked.
pub open spec fn after_crypt(run: CreateRun) -> (CreateRun, CreateAction) {
    if run.setup && !run.has_adapter {
        (
            CreateRun { step: CreateStep::Failed, ..run },
            CreateAction::RollBack {
                cleanup: Cleanup::ForceRemove,
                forget_lease: false,
                error: WorktreeError::SetupRequestedWithoutAdapter,
            },
        )
    } else if run.allocate_port {
        (CreateRun { step: CreateStep::AllocatePort, ..run }, CreateAction::Perform(CreateStep::AllocatePort))
    } else if run.setup {
        (CreateRun { step: CreateStep::RunSetup, ..run }, CreateAction::Perform(CreateStep::RunSetup))
    } else {
        (CreateRun { step: CreateStep::Record, ..run }, CreateAction::Perform(CreateStep::Record))
    }
}

/// Whether `event` can be what performing `run.step` gave: only a port
/// lease reports a port, only setup reports a setup failure (and fails no
/// other way), recording always succeeds, and a finished create takes no
/// more events.
pub open spec fn event_fits(run: CreateRun, event: CreateEvent) -> bool {
    match run.step {
        CreateStep::AllocatePort => event is Leased || event is Failed,
        CreateStep::RunSetup => event is Succeeded || event is SetupFailed,
        CreateStep::Record => event is Succeeded,
        CreateStep::Done | CreateStep::Failed => false,
        _ => event is Succeeded || event is Failed,
    }
}

/// The error a failed setup fails the create with: `AdapterSetupFailed`
/// naming the adapter, with the message of the adapter's error.
pub open spec fn setup_failure(adapter: String, error: WorktreeError) -> WorktreeError {
    WorktreeError::AdapterSetupFailed {
        adapter,
        reason: choose|r: String| r@ == crate::error::error_message(error),
    }
}

/// Whether `e` is the setup failure of `adapter` with `error`.
pub open spec fn is_setup_failure(e: WorktreeError, adapter: String, error: WorktreeError) -> bool {
    &&& e is AdapterSetupFailed
    &&& e->AdapterSetupFailed_adapter == adapter
    &&& e->AdapterSetupFailed_reason@ == crate::error::error_message(error)
}

/// The next state and action of a create at `run` after `event`. A failed
/// `git worktree add` removes the directory; any later failure force-removes
/// the worktree; a failed port lease fails the create; a failed setup fails
/// it with `AdapterSetupFailed` and also drops the port it leased.
pub open spec fn create_next(run: CreateRun, event: CreateEvent) -> (CreateRun, CreateAction) {
    let failed = CreateRun { step: CreateStep::Failed, ..run };
    match event {
        CreateEvent::Failed(e) => match run.step {
            CreateStep::AddWorktree => (
                failed,
                CreateAction::RollBack { cleanup: Cleanup::RemoveDirectory, forget_lease: false, error: e },
            ),
            _ => (failed, CreateAction::RollBack { cleanup: Cleanup::ForceRemove, forget_lease: false, error: e }),
        },
        CreateEvent::SetupFailed { adapter, error } => (
            failed,
            CreateAction::RollBack {
                cleanup: Cleanup::ForceRemove,
                forget_lease: run.port is Some,
                error: setup_failure(adapter, error),
            },
        ),
        CreateEvent::Leased(p) => {
            let leased = CreateRun { port: Some(p), ..run };
            if run.setup {
                (CreateRun { step: CreateStep::RunSetup, ..leased }, CreateAction::Perform(CreateStep::RunSetup))
            } else {
                (CreateRun { step: CreateStep::Record, ..leased }, CreateAction::Perform(CreateStep::Record))
            }
        },
        CreateEvent::Succeeded => match run.step {
            CreateStep::AddWorktree => (
                CreateRun { step: CreateStep::CheckCrypt, ..run },
                CreateAction::Perform(CreateStep::CheckCrypt),
            ),
            CreateStep::CheckCrypt => after_crypt(run),
            CreateStep::RunSetup => (CreateRun { step: CreateStep::Record, ..run }, CreateAction::Perform(CreateStep::Record)),
            _ => (CreateRun { step: CreateStep::Done, ..run }, CreateAction::Finish),
        },
    }
}

/// A create asked to set up, with an adapter registered, records its
/// worktree only straight after the adapter's setup ran, whether or not it
/// leased a port; a create not asked to set up never runs setup; and a
/// create finishes only after recording.
pub proof fn lemma_setup_runs_before_record(run: CreateRun, event: CreateEvent)
    requires
        event_fits(run, event),
    ensures
        run.setup && run.has_adapter && (create_next(run, event).1 matches CreateAction::Perform(
            CreateStep::Record,
        )) ==> run.step == CreateStep::RunSetup,
        (create_next(run, event).1 matches CreateAction::Perform(CreateStep::RunSetup)) ==> run.setup,
        (create_next(run, event).1 is Finish) ==> run.step == CreateStep::Record,
{
}

/// What holds of a create at every step it reaches: no port before the
/// lease; past the lease, a port whenever one was asked for; a lease only
/// when asked for, and not for a setup that has no adapter; setup only when
/// asked for, with an adapter.
pub open spec fn create_consistent(run: CreateRun) -> bool {
    &&& (run.step == CreateStep::AddWorktree || run.step == CreateStep::CheckCrypt || run.step
        == CreateStep::AllocatePort) ==> run.port is None
    &&& (run.step == CreateStep::RunSetup || run.step == CreateStep::Record || run.step == CreateStep::Done)
        && run.allocate_port ==> run.port is Some
    &&& run.step == CreateStep::AllocatePort ==> run.allocate_port && (run.setup ==> run.has_adapter)
    &&& run.step == CreateStep::RunSetup ==> run.setup && run.has_adapter
}

/// A create starts consistent and every step keeps it so; so a create asked
/// for a port records its worktree and finishes holding one, and one asked
/// to set up runs the adapter's setup only when an adapter is registered.
pub proof fn lemma_create_stays_consistent(run: CreateRun, event: CreateEvent)
    requires
        create_consistent(run),
        event_fits(run, event),
    ensures
        create_consistent(create_next(run, event).0),
        run.allocate_port && (create_next(run, event).1 matches CreateAction::Perform(CreateStep::Record))
            ==> create_next(run, event).0.port is Some,
        run.allocate_port && (create_next(run, event).1 is Finish) ==> create_next(run, event).0.port is Some,
        (create_next(run, event).1 matches CreateAction::Perform(CreateStep::RunSetup)) ==> run.has_adapter,
{
}

/// The run a create starts with is consistent.
pub proof fn lemma_create_starts_consistent(allocate_port: bool, setup: bool, has_adapter: bool)
    ensures
        create_consistent(CreateRun { step: CreateStep::AddWorktree, allocate_port, setup, has_adapter, port: None }),
{
}

/// A create asked to set up, with an adapter registered, that passes the
/// git-crypt check goes on to lease its port when asked for one, and
/// otherwise straight to the adapter's setup; a lease then leads to setup.
pub proof fn lemma_crypt_check_leads_to_setup(run: CreateRun, p: u16)
    requires
        run.setup,
        run.has_adapter,
    ensures
        run.step == CreateStep::CheckCrypt ==> create_next(run, CreateEvent::Succeeded).1 == (if run.allocate_port {
            CreateAction::Perform(CreateStep::AllocatePort)
        } else {
            CreateAction::Perform(CreateStep::RunSetup)
        }),
        create_next(run, CreateEvent::Leased(p)).1 == CreateAction::Perform(CreateStep::RunSetup),
{
}

/// A create starts, once its `Creating` entry is recorded, by adding the
/// worktree.
pub fn create_start(allocate_port: bool, setup: bool, has_adapter: bool) -> (r: (CreateRun, CreateAction))
    ensures
        r.0 == (CreateRun { step: CreateStep::AddWorktree, allocate_port, setup, has_adapter, port: None }),
        r.1 == CreateAction::Perform(CreateStep::AddWorktree),
{
    (
        CreateRun { step: CreateStep::AddWorktree, allocate_port, setup, has_adapter, port: None },
        CreateAction::Perform(CreateStep::AddWorktree),
    )
}

/// The next state and action of a create after performing its step. A
/// setup failure is reported as `AdapterSetupFailed` with the adapter's
/// name and the message of its error.
pub fn create_step(run: &CreateRun, event: CreateEvent) -> (next: (CreateRun, CreateAction))
    requires
        event_fits(*run, event),
    ensures
        !(event is SetupFailed) ==> next == create_next(*run, event),
        event is SetupFailed ==> next.0 == create_next(*run, event).0 && (next.1 matches CreateAction::RollBack {
            cleanup,
            forget_lease,
            error,
        } && cleanup == Cleanup::ForceRemove && forget_lease == run.port is Some && is_setup_failure(
            error,
            event->SetupFailed_adapter,
            event->SetupFailed_error,
        )),
{
    let failed = CreateRun { step: CreateStep::Failed, ..*run };
    match event {
        CreateEvent::Failed(e) => match run.step {
            CreateStep::AddWorktree => (
                failed,
                CreateAction::RollBack { cleanup: Cleanup::RemoveDirectory, forget_lease: false, error: e },
            ),
            _ => (failed, CreateAction::RollBack { cleanup: Cleanup::ForceRemove, forget_lease: false, error: e }),
        },
        CreateEvent::SetupFailed { adapter, error } => {
            let reason = error.message();
            (
                failed,
                CreateAction::RollBack {
                    cleanup: Cleanup::ForceRemove,
                    forget_lease: run.port.is_some(),
                    error: WorktreeError::AdapterSetupFailed { adapter, reason },
                },
            )
        },
        CreateEvent::Leased(p) => {
            let leased = CreateRun { port: Some(p), ..*run };
            if run.setup {
                (CreateRun { step: CreateStep::RunSetup, ..leased }, CreateAction::Perform(CreateStep::RunSetup))
            } else {
                (CreateRun { step: CreateStep::Record, ..leased }, CreateAction::Perform(CreateStep::Record))
            }
        },
        CreateEvent::Succeeded => match run.step {
            CreateStep::AddWorktree => (
                CreateRun { step: CreateStep::CheckCrypt, ..*run },
                CreateAction::Perform(CreateStep::CheckCrypt),
            ),
            CreateStep::CheckCrypt => {
                if run.setup && !run.has_adapter {
                    (
                        failed,
                        CreateAction::RollBack {
                            cleanup: Cleanup::ForceRemove,
                            forget_lease: false,
                            error: WorktreeError::SetupRequestedWithoutAdapter,
                        },
                    )
                } else if run.allocate_port {
                    (CreateRun { step: CreateStep::AllocatePort, ..*run }, CreateAction::Perform(CreateStep::AllocatePort))
                } else if run.setup {
                    (CreateRun { step: CreateStep::RunSetup, ..*run }, CreateAction::Perform(CreateStep::RunSetup))
                } else {
                    (CreateRun { step: CreateStep::Record, ..*run }, CreateAction::Perform(CreateStep::Record))
                }
            },
            CreateStep::RunSetup => (CreateRun { step: CreateStep::Record, ..*run }, CreateAction::Perform(CreateStep::Record)),
            _ => (CreateRun { step: CreateStep::Done, ..*run }, CreateAction::Finish),
        },
    }
}

} // verus!
