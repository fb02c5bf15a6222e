//! The five-step check that a branch holds no work that deleting its
//! worktree would lose.
//!
//! The check is a sequence of git probes, each chosen by what the previous
//! one reported: `first_unmerged_step` names the first probe,
//! `next_unmerged_step` the step after a probe's outcome, until the check
//! ends as safe or as unmerged with a commit count. The caller runs each
//! probe (`git` with `unmerged_probe_args`) and reports its outcome.
use vstd::prelude::*;

use crate::error::WorktreeError;
use crate::git::{arg_views, lossy_string, push_arg, strip_prefix_seq, utf8_lossy};
use crate::guards::{nonempty_lines, nonempty_lines_of};
use crate::text::{chars_of, has_prefix, lines, lines_of, starts_with_chars, string_from_chars, sub_chars, trim, trim_chars};

verus! {

/// The git probes of the check, in the order they may run.
#[derive(Debug, Clone, Copy, PartialEq, Eq, Structural)]
pub enum UnmergedProbe {
    /// `git fetch --prune origin` (skipped offline).
    Fetch,
    /// `git merge-base --is-ancestor <branch> <primary>`.
    LocalAncestor,
    /// `git merge-base --is-ancestor <branch> origin/<primary>`.
    RemoteAncestor,
    /// `git cherry -v origin/<primary> <branch>`.
    Cherry,
    /// `git log <branch> --not --remotes --oneline`.
    LocalOnlyCommits,
}

/// Where the check stands.
#[derive(Debug, Clone, Copy, PartialEq, Eq, Structural)]
pub enum UnmergedStep {
    /// Run this probe next.
    Run(UnmergedProbe),
    /// Deleting loses nothing.
    Safe,
    /// This many commits exist only on the branch.
    Unmerged(usize),
}

/// What running a probe gave.
#[derive(Debug, Clone)]
pub struct ProbeOutcome {
    /// Whether the command could be started at all.
    pub ran: bool,
    /// Its exit code, when it exited normally.
    pub exit_code: Option<i32>,
    /// What it printed on standard output.
    pub stdout: Vec<u8>,
}

/// Whether a probe ran and exited with status 0.
pub open spec fn succeeded(o: ProbeOutcome) -> bool {
    o.ran && o.exit_code == Some(0i32)
}

/// The first step: fetch unless offline; then, in a shallow clone, straight
/// to the local-only commit count, else the local ancestry test.
pub open spec fn first_step(offline: bool, shallow: bool) -> UnmergedStep {
    if !offline {
        UnmergedStep::Run(UnmergedProbe::Fetch)
    } else if shallow {
        UnmergedStep::Run(UnmergedProbe::LocalOnlyCommits)
    } else {
        UnmergedStep::Run(UnmergedProbe::LocalAncestor)
    }
}

/// Whether some line of `text` starts with `+` (a patch not yet upstream).
pub open spec fn has_plus_line(text: Seq<char>) -> bool {
    exists|i: int| 0 <= i < lines(text).len() && has_prefix(#[trigger] lines(text)[i], seq!['+'])
}

/// The step after probe `p` reported `o`.
pub open spec fn next_step(p: UnmergedProbe, shallow: bool, o: ProbeOutcome) -> UnmergedStep {
    match p {
        UnmergedProbe::Fetch => if shallow {
            UnmergedStep::Run(UnmergedProbe::LocalOnlyCommits)
        } else {
            UnmergedStep::Run(UnmergedProbe::LocalAncestor)
        },
        UnmergedProbe::LocalAncestor => if succeeded(o) {
            UnmergedStep::Safe
        } else {
            UnmergedStep::Run(UnmergedProbe::RemoteAncestor)
        },
        UnmergedProbe::RemoteAncestor => if succeeded(o) {
            UnmergedStep::Safe
        } else {
            UnmergedStep::Run(UnmergedProbe::Cherry)
        },
        UnmergedProbe::Cherry => if succeeded(o) && !has_plus_line(utf8_lossy(o.stdout@)) {
            UnmergedStep::Safe
        } else {
            UnmergedStep::Run(UnmergedProbe::LocalOnlyCommits)
        },
        UnmergedProbe::LocalOnlyCommits => if succeeded(o) {
            let n = nonempty_lines(lines(utf8_lossy(o.stdout@))).len();
            if n == 0 {
                UnmergedStep::Safe
            } else {
                UnmergedStep::Unmerged(n as usize)
            }
        } else {
            UnmergedStep::Safe
        },
    }
}

/// How far along the check a step is; every probe moves it strictly on.
pub open spec fn step_rank(s: UnmergedStep) -> int {
    match s {
        UnmergedStep::Run(UnmergedProbe::Fetch) => 0,
        UnmergedStep::Run(UnmergedProbe::LocalAncestor) => 1,
        UnmergedStep::Run(UnmergedProbe::RemoteAncestor) => 2,
        UnmergedStep::Run(UnmergedProbe::Cherry) => 3,
        UnmergedStep::Run(UnmergedProbe::LocalOnlyCommits) => 4,
        _ => 5,
    }
}

/// After `git cherry`, a line of its output starting with `+` (a commit whose
/// patch is not upstream), wherever it stands in the output, sends the check
/// on to count the local-only commits; the check ends safe after `git
/// cherry` only when the probe succeeded and none of its lines starts with
/// `+`.
pub proof fn lemma_cherry_plus_line_is_not_safe(shallow: bool, o: ProbeOutcome)
    ensures
        (exists|i: int|
            0 <= i < lines(utf8_lossy(o.stdout@)).len() && has_prefix(
                #[trigger] lines(utf8_lossy(o.stdout@))[i],
                seq!['+'],
            )) ==> next_step(UnmergedProbe::Cherry, shallow, o) == UnmergedStep::Run(
            UnmergedProbe::LocalOnlyCommits,
        ),
        next_step(UnmergedProbe::Cherry, shallow, o) == UnmergedStep::Safe <==> (o.ran && o.exit_code
            == Some(0i32) && forall|i: int|
            0 <= i < lines(utf8_lossy(o.stdout@)).len() ==> !has_prefix(
                #[trigger] lines(utf8_lossy(o.stdout@))[i],
                seq!['+'],
            )),
        next_step(UnmergedProbe::Cherry, shallow, o) == UnmergedStep::Safe || next_step(
            UnmergedProbe::Cherry,
            shallow,
            o,
        ) == UnmergedStep::Run(UnmergedProbe::LocalOnlyCommits),
{
}

/// The first step of the check.
pub fn first_unmerged_step(offline: bool, shallow: bool) -> (s: UnmergedStep)
    ensures
        s == first_step(offline, shallow),
{
    if !offline {
        UnmergedStep::Run(UnmergedProbe::Fetch)
    } else if shallow {
        UnmergedStep::Run(UnmergedProbe::LocalOnlyCommits)
    } else {
        UnmergedStep::Run(UnmergedProbe::LocalAncestor)
    }
}

fn succeeded_exec(o: &ProbeOutcome) -> (b: bool)
    ensures
        b == succeeded(*o),
{
    o.ran && match o.exit_code {
        Some(c) => c == 0,
        None => false,
    }
}

fn any_plus_line(text: &str) -> (b: bool)
    ensures
        b == has_plus_line(text@),
{
    let c = chars_of(text);
    let ls = lines_of(&c);
    let plus: Vec<char> = vec!['+'];
    let mut i: usize = 0;
    while i < ls.len()
        invariant
            i <= ls@.len(),
            ls@.len() == lines(text@).len(),
            forall|j: int| 0 <= j < ls@.len() ==> (#[trigger] ls@[j])@ == lines(text@)[j],
            plus@ == seq!['+'],
            forall|j: int| 0 <= j < i ==> !has_prefix(#[trigger] lines(text@)[j], seq!['+']),
        decreases ls@.len() - i,
    {
        if starts_with_chars(&ls[i], &plus) {
            return true;
        }
        i = i + 1;
    }
    false
}

/// The step after probe `probe` reported `outcome`.
pub fn next_unmerged_step(probe: UnmergedProbe, shallow: bool, outcome: &ProbeOutcome) -> (s: UnmergedStep)
    ensures
        s == next_step(probe, shallow, *outcome),
        step_rank(s) > step_rank(UnmergedStep::Run(probe)),
{
    let ok = succeeded_exec(outcome);
    match probe {
        UnmergedProbe::Fetch => if shallow {
            UnmergedStep::Run(UnmergedProbe::LocalOnlyCommits)
        } else {
            UnmergedStep::Run(UnmergedProbe::LocalAncestor)
        },
        UnmergedProbe::LocalAncestor => if ok {
            UnmergedStep::Safe
        } else {
            UnmergedStep::Run(UnmergedProbe::RemoteAncestor)
        },
        UnmergedProbe::RemoteAncestor => if ok {
            UnmergedStep::Safe
        } else {
            UnmergedStep::Run(UnmergedProbe::Cherry)
        },
        UnmergedProbe::Cherry => {
            if ok {
                let text = lossy_string(outcome.stdout.as_slice());
                if !any_plus_line(text.as_str()) {
                    return UnmergedStep::Safe;
                }
            }
            UnmergedStep::Run(UnmergedProbe::LocalOnlyCommits)
        },
        UnmergedProbe::LocalOnlyCommits => {
            if ok {
                let text = lossy_string(outcome.stdout.as_slice());
                let commits = nonempty_lines_of(text.as_str());
                proof {
                    assert(commits@.len() == commits@.map_values(|s: String| s@).len());
                }
                if commits.len() == 0 {
                    UnmergedStep::Safe
                } else {
                    UnmergedStep::Unmerged(commits.len())
                }
            } else {
                UnmergedStep::Safe
            }
        },
    }
}

/// The arguments (after `git`) of a probe, for `branch` against the
/// primary branch `primary`.
pub open spec fn probe_arg_seq(p: UnmergedProbe, branch: Seq<char>, primary: Seq<char>) -> Seq<Seq<char>> {
    match p {
        UnmergedProbe::Fetch => seq!["fetch"@, "--prune"@, "origin"@],
        UnmergedProbe::LocalAncestor => seq!["merge-base"@, "--is-ancestor"@, branch, primary],
        UnmergedProbe::RemoteAncestor => seq!["merge-base"@, "--is-ancestor"@, branch, "origin/"@ + primary],
        UnmergedProbe::Cherry => seq!["cherry"@, "-v"@, "origin/"@ + primary, branch],
        UnmergedProbe::LocalOnlyCommits => seq!["log"@, branch, "--not"@, "--remotes"@, "--oneline"@],
    }
}

fn remote_name(primary: &str) -> (s: String)
    ensures
        s@ == "origin/"@ + primary@,
{
    let mut out = chars_of("origin/");
    crate::text::push_str(&mut out, primary);
    string_from_chars(&out)
}

/// The arguments (after `git`) of a probe.
pub fn unmerged_probe_args(probe: UnmergedProbe, branch: &str, primary: &str) -> (r: Vec<String>)
    ensures
        arg_views(r@) == probe_arg_seq(probe, branch@, primary@),
{
    let mut args: Vec<String> = Vec::new();
    match probe {
        UnmergedProbe::Fetch => {
            push_arg(&mut args, "fetch");
            push_arg(&mut args, "--prune");
            push_arg(&mut args, "origin");
        },
        UnmergedProbe::LocalAncestor => {
            push_arg(&mut args, "merge-base");
            push_arg(&mut args, "--is-ancestor");
            push_arg(&mut args, branch);
            push_arg(&mut args, primary);
        },
        UnmergedProbe::RemoteAncestor => {
            push_arg(&mut args, "merge-base");
            push_arg(&mut args, "--is-ancestor");
            push_arg(&mut args, branch);
            let remote = remote_name(primary);
            push_arg(&mut args, remote.as_str());
        },
        UnmergedProbe::Cherry => {
            push_arg(&mut args, "cherry");
            push_arg(&mut args, "-v");
            let remote = remote_name(primary);
            push_arg(&mut args, remote.as_str());
            push_arg(&mut args, branch);
        },
        UnmergedProbe::LocalOnlyCommits => {
            push_arg(&mut args, "log");
            push_arg(&mut args, branch);
            push_arg(&mut args, "--not");
            push_arg(&mut args, "--remotes");
            push_arg(&mut args, "--oneline");
        },
    }
    assert(arg_views(args@) =~= probe_arg_seq(probe, branch@, primary@));
    args
}

/// The result of a finished check on `branch`.
pub fn unmerged_result(step: UnmergedStep, branch: &str) -> (r: Result<(), WorktreeError>)
    requires
        !(step is Run),
    ensures
        match step {
            UnmergedStep::Unmerged(n) => r is Err && r->Err_0 is UnmergedCommits && r->Err_0->UnmergedCommits_branch@ == branch@
                && r->Err_0->UnmergedCommits_commit_count == n,
            _ => r is Ok,
        },
{
    match step {
        UnmergedStep::Unmerged(n) => Err(WorktreeError::UnmergedCommits { branch: branch.to_owned(), commit_count: n }),
        _ => Ok(()),
    }
}

/// The primary branch: what `git symbolic-ref refs/remotes/origin/HEAD`
/// printed (trimmed) without `refs/remotes/origin/`, when it succeeded and
/// had that prefix; else `main` when `refs/heads/main` verifies; else `master`.
pub open spec fn primary_branch_of(symbolic_ref: ProbeOutcome, main_exists: bool) -> Seq<char> {
    let t = trim(utf8_lossy(symbolic_ref.stdout@));
    if succeeded(symbolic_ref) && has_prefix(t, "refs/remotes/origin/"@) {
        strip_prefix_seq(t, "refs/remotes/origin/"@)
    } else if main_exists {
        "main"@
    } else {
        "master"@
    }
}

/// Name the primary branch from the symbolic-ref probe and whether
/// `refs/heads/main` exists.
pub fn primary_branch(symbolic_ref: &ProbeOutcome, main_exists: bool) -> (s: String)
    ensures
        s@ == primary_branch_of(*symbolic_ref, main_exists),
{
    if succeeded_exec(symbolic_ref) {
        let text = lossy_string(symbolic_ref.stdout.as_slice());
        let t = trim_chars(&chars_of(text.as_str()));
        let prefix = chars_of("refs/remotes/origin/");
        if starts_with_chars(&t, &prefix) {
            let rest = sub_chars(&t, prefix.len(), t.len());
            return string_from_chars(&rest);
        }
    }
    if main_exists {
        "main".to_owned()
    } else {
        "master".to_owned()
    }
}

/// Whether `git rev-parse --is-shallow-repository` reported a shallow clone.
pub fn is_shallow_output(outcome: &ProbeOutcome) -> (b: bool)
    ensures
        b == (succeeded(*outcome) && trim(utf8_lossy(outcome.stdout@)) == "true"@),
{
    let ok = succeeded_exec(outcome);
    crate::guards::is_bare_repo_output(ok, outcome.stdout.as_slice())
}

} // verus!
