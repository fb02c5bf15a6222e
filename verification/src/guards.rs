//! Pre-create and pre-delete safety guards.
//!
//! Each guard decides from what was observed of the repository, the disks
//! and the process (a listing, a probe's output, whether a path exists);
//! the caller gathers those observations and runs the guards in the order
//! `create` and `delete` require.
use vstd::prelude::*;

use vstd::string::StringSliceAdditionalSpecFns;

use crate::error::WorktreeError;
use crate::git::{lossy_string, utf8_lossy};
use crate::text::{chars_of, contains_chars, contains_seq, has_prefix, lines, lines_of, starts_with_chars, string_from_chars, trim, trim_chars, words, words_of};
use crate::types::{GitCryptStatus, WorktreeHandle, WorktreeState};

verus! {

// ── Path operations of std ───────────────────────────────────────────────

/// Whether `base` is a prefix of `path` by whole components (`Path::starts_with`).
pub uninterp spec fn path_starts_with(path: Seq<char>, base: Seq<char>) -> bool;

/// Calls `std::path::Path::starts_with`, which compares whole path
/// components; the result is claimed to depend on the two texts alone.
#[verifier::external_body]
pub(crate) fn path_starts_with_exec(path: &str, base: &str) -> (b: bool)
    ensures
        b == path_starts_with(path@, base@),
{
    std::path::Path::new(path).starts_with(base)
}

/// Whether two paths have the same components (`Path`'s `==`).
pub uninterp spec fn paths_equal(a: Seq<char>, b: Seq<char>) -> bool;

/// Compares two paths with `Path`'s `==`, which compares components; the
/// result is claimed to depend on the two texts alone.
#[verifier::external_body]
pub(crate) fn paths_equal_exec(a: &str, b: &str) -> (r: bool)
    ensures
        r == paths_equal(a@, b@),
{
    std::path::Path::new(a) == std::path::Path::new(b)
}

/// The parent of a path (`Path::parent`).
pub uninterp spec fn path_parent(p: Seq<char>) -> Option<Seq<char>>;

/// Calls `std::path::Path::parent` and renders the result as text (lossless
/// for a path that came from a `&str`); claimed to depend on `p` alone.
#[verifier::external_body]
pub(crate) fn path_parent_exec(p: &str) -> (r: Option<String>)
    ensures
        match r {
            Some(s) => path_parent(p@) == Some(s@),
            None => path_parent(p@) is None,
        },
{
    match std::path::Path::new(p).parent() {
        Some(q) => Some(q.to_string_lossy().into_owned()),
        None => None,
    }
}

// ── Guard 1: branch not already checked out ─────────────────────────────

/// Whether `r` is guard 1's outcome: the first listed worktree on `branch`
/// refuses it.
pub open spec fn branch_check(r: Result<(), WorktreeError>, worktrees: Seq<WorktreeHandle>, branch: Seq<char>) -> bool {
    match r {
        Ok(()) => forall|i: int| 0 <= i < worktrees.len() ==> (#[trigger] worktrees[i]).branch@ != branch,
        Err(e) => exists|i: int|
            0 <= i < worktrees.len() && (#[trigger] worktrees[i]).branch@ == branch && (forall|j: int|
                0 <= j < i ==> (#[trigger] worktrees[j]).branch@ != branch) && e is BranchAlreadyCheckedOut
                && e->BranchAlreadyCheckedOut_branch@ == branch && e->worktree == worktrees[i].path,
    }
}

/// Guard 1: the branch is not checked out in any listed worktree.
pub fn check_branch_not_checked_out(worktrees: &Vec<WorktreeHandle>, branch: &str) -> (r: Result<(), WorktreeError>)
    ensures
        branch_check(r, worktrees@, branch@),
{
    let mut i: usize = 0;
    while i < worktrees.len()
        invariant
            i <= worktrees@.len(),
            forall|j: int| 0 <= j < i ==> (#[trigger] worktrees@[j]).branch@ != branch@,
        decreases worktrees@.len() - i,
    {
        if crate::text::str_is(worktrees[i].branch.as_str(), branch) {
            let e = WorktreeError::BranchAlreadyCheckedOut {
                branch: branch.to_owned(),
                worktree: worktrees[i].path.clone(),
            };
            proof {
                assert(worktrees@[i as int].branch@ == branch@);
            }
            return Err(e);
        }
        i = i + 1;
    }
    Ok(())
}

// ── Guard 2: free disk space ────────────────────────────────────────────

/// A mounted filesystem as the system reports it.
#[derive(Debug, Clone)]
pub struct DiskInfo {
    pub mount_point: String,
    pub available_space: u64,
    pub total_space: u64,
}

/// Byte length of a mount point's text.
pub open spec fn mount_len(d: DiskInfo) -> int {
    (vstd::utf8::encode_utf8(d.mount_point@).len() as usize) as int
}

/// Whether disk `i` holds `path` and no other holding disk has a longer
/// mount point, none before it one as long: the first longest match.
pub open spec fn longest_mount(disks: Seq<DiskInfo>, path: Seq<char>, i: int) -> bool {
    &&& 0 <= i < disks.len()
    &&& path_starts_with(path, disks[i].mount_point@)
    &&& forall|j: int| 0 <= j < disks.len() && path_starts_with(path, (#[trigger] disks[j]).mount_point@) ==> (
        if j < i { mount_len(disks[j]) < mount_len(disks[i]) } else { mount_len(disks[j]) <= mount_len(disks[i]) })
}

/// Whether no disk holds `path`.
pub open spec fn no_mount(disks: Seq<DiskInfo>, path: Seq<char>) -> bool {
    forall|j: int| 0 <= j < disks.len() ==> !path_starts_with(path, (#[trigger] disks[j]).mount_point@)
}

/// The disk holding `path` with the longest mount point (the first of
/// equally long ones), if any holds it.
pub fn longest_mount_for(disks: &Vec<DiskInfo>, path: &str) -> (r: Option<usize>)
    ensures
        match r {
            Some(i) => longest_mount(disks@, path@, i as int),
            None => no_mount(disks@, path@),
        },
{
    let mut best: Option<usize> = None;
    let mut best_len: usize = 0;
    let mut i: usize = 0;
    while i < disks.len()
        invariant
            i <= disks@.len(),
            match best {
                Some(b) => b < i && best_len == mount_len(disks@[b as int]) && path_starts_with(path@, disks@[b as int].mount_point@)
                    && forall|j: int| 0 <= j < i && path_starts_with(path@, (#[trigger] disks@[j]).mount_point@) ==> (
                    if j < b { mount_len(disks@[j]) < mount_len(disks@[b as int]) } else { mount_len(disks@[j]) <= mount_len(disks@[b as int]) }),
                None => forall|j: int| 0 <= j < i ==> !path_starts_with(path@, (#[trigger] disks@[j]).mount_point@),
            },
        decreases disks@.len() - i,
    {
        let m = disks[i].mount_point.as_str();
        if path_starts_with_exec(path, m) {
            let len = m.len();
            match best {
                Some(_) => {
                    if len > best_len {
                        best = Some(i);
                        best_len = len;
                    }
                },
                None => {
                    best = Some(i);
                    best_len = len;
                },
            }
        }
        i = i + 1;
    }
    best
}

/// The path whose filesystem is probed for a target: the target when it
/// exists, else its parent, else `/`.
pub open spec fn probe_path(target: Seq<char>, exists: bool) -> Seq<char> {
    if exists {
        target
    } else {
        match path_parent(target) {
            Some(p) => p,
            None => "/"@,
        }
    }
}

/// The path whose filesystem is probed for `target`.
pub fn disk_probe_path(target: &str, target_exists: bool) -> (p: String)
    ensures
        p@ == probe_path(target@, target_exists),
{
    if target_exists {
        target.to_owned()
    } else {
        match path_parent_exec(target) {
            Some(p) => p,
            None => {
                proof {
                    reveal_strlit("/");
                }
                "/".to_owned()
            },
        }
    }
}

/// Whether `r` is guard 2's outcome for `path`: the disk chosen is the first
/// longest non-empty mount point holding it, and too little space on it
/// (in whole MiB) refuses; an unknown disk does not.
pub open spec fn disk_space_check(r: Result<(), WorktreeError>, disks: Seq<DiskInfo>, path: Seq<char>, required_mb: u64) -> bool {
    let low = exists|i: int| longest_mount(disks, path, i) && mount_len(disks[i]) > 0
        && disks[i].available_space / 1048576u64 < required_mb;
    match r {
        Ok(()) => !low,
        Err(e) => exists|i: int|
            longest_mount(disks, path, i) && mount_len(disks[i]) > 0 && e == (WorktreeError::DiskSpaceLow {
                available_mb: (disks[i].available_space / 1048576u64) as u64,
                required_mb,
            }) && disks[i].available_space / 1048576u64 < required_mb,
    }
}

proof fn lemma_longest_unique(disks: Seq<DiskInfo>, path: Seq<char>, a: int, b: int)
    requires
        longest_mount(disks, path, a),
        longest_mount(disks, path, b),
    ensures
        a == b,
{
    if a < b {
        assert(mount_len(disks[a]) < mount_len(disks[b]));
        assert(mount_len(disks[b]) <= mount_len(disks[a]));
    } else if b < a {
        assert(mount_len(disks[b]) < mount_len(disks[a]));
        assert(mount_len(disks[a]) <= mount_len(disks[b]));
    }
}

/// Guard 2: the filesystem holding `path` has at least `required_mb` MiB free.
pub fn check_disk_space(path: &str, disks: &Vec<DiskInfo>, required_mb: u64) -> (r: Result<(), WorktreeError>)
    ensures
        disk_space_check(r, disks@, path@, required_mb),
{
    match longest_mount_for(disks, path) {
        Some(i) => {
            let available_mb = disks[i].available_space / 1048576;
            if disks[i].mount_point.as_str().len() > 0 && available_mb < required_mb {
                return Err(WorktreeError::DiskSpaceLow { available_mb, required_mb });
            }
            proof {
                assert forall|k: int| longest_mount(disks@, path@, k) implies !(mount_len(disks@[k]) > 0
                    && disks@[k].available_space / 1048576u64 < required_mb) by {
                    lemma_longest_unique(disks@, path@, i as int, k);
                }
            }
            Ok(())
        },
        None => Ok(()),
    }
}

/// Capacity of the filesystem holding `path`: the disk with the first
/// longest mount point holding it, if any.
pub fn filesystem_capacity_bytes(path: &str, disks: &Vec<DiskInfo>) -> (r: Option<u64>)
    ensures
        match r {
            Some(c) => exists|i: int| longest_mount(disks@, path@, i) && c == disks@[i].total_space,
            None => no_mount(disks@, path@),
        },
{
    match longest_mount_for(disks, path) {
        Some(i) => Some(disks[i].total_space),
        None => None,
    }
}

// ── Guard 3: worktree count ─────────────────────────────────────────────

/// Whether a worktree still takes a slot: all but orphaned, broken and deleted ones.
pub open spec fn takes_slot(h: WorktreeHandle) -> bool {
    h.state != WorktreeState::Orphaned && h.state != WorktreeState::Broken && h.state != WorktreeState::Deleted
}

/// Number of the worktrees in `ws` that take a slot.
pub open spec fn slots_taken(ws: Seq<WorktreeHandle>) -> nat
    decreases ws.len(),
{
    if ws.len() == 0 {
        0
    } else {
        slots_taken(ws.drop_last()) + if takes_slot(ws.last()) { 1nat } else { 0nat }
    }
}

proof fn lemma_slots_bound(ws: Seq<WorktreeHandle>)
    ensures
        slots_taken(ws) <= ws.len(),
    decreases ws.len(),
{
    if ws.len() > 0 {
        lemma_slots_bound(ws.drop_last());
    }
}

/// How many listed worktrees count against the limit.
pub fn active_worktree_count(worktrees: &Vec<WorktreeHandle>) -> (n: usize)
    ensures
        n == slots_taken(worktrees@),
{
    let mut n: usize = 0;
    let mut i: usize = 0;
    while i < worktrees.len()
        invariant
            i <= worktrees@.len(),
            n == slots_taken(worktrees@.take(i as int)),
        decreases worktrees@.len() - i,
    {
        proof {
            assert(worktrees@.take(i as int + 1).drop_last() =~= worktrees@.take(i as int));
            lemma_slots_bound(worktrees@.take(i as int));
        }
        let st = worktrees[i].state;
        if st != WorktreeState::Orphaned && st != WorktreeState::Broken && st != WorktreeState::Deleted {
            n = n + 1;
        }
        i = i + 1;
    }
    proof {
        assert(worktrees@.take(worktrees@.len() as int) =~= worktrees@);
    }
    n
}

/// Guard 3: fewer than `max` worktrees take a slot.
pub fn check_worktree_count(current: usize, max: usize) -> (r: Result<(), WorktreeError>)
    ensures
        match r {
            Ok(()) => current < max,
            Err(e) => current >= max && e == (WorktreeError::RateLimitExceeded { current, max }),
        },
{
    if current >= max {
        return Err(WorktreeError::RateLimitExceeded { current, max });
    }
    Ok(())
}

// ── Guard 4: target path free ───────────────────────────────────────────

/// Guard 4: the target path does not exist yet (`exists` is what the
/// filesystem reported for it).
pub fn check_path_not_exists(path: &str, exists: bool) -> (r: Result<(), WorktreeError>)
    ensures
        match r {
            Ok(()) => !exists,
            Err(e) => exists && e is WorktreePathExists && e->WorktreePathExists_0@ == path@,
        },
{
    if exists {
        return Err(WorktreeError::WorktreePathExists(path.to_owned()));
    }
    Ok(())
}

// ── Guard 5: no nesting ─────────────────────────────────────────────────

/// A listed worktree with its path as listed and as canonicalized.
#[derive(Debug, Clone)]
pub struct PlacedWorktree {
    pub path: String,
    pub canonical: String,
}

/// Whether worktree `w` conflicts with the candidate: it is not the
/// repository root, and one of the two lies inside the other.
pub open spec fn nests(w: PlacedWorktree, candidate: Seq<char>, repo_root: Seq<char>) -> bool {
    !paths_equal(w.canonical@, repo_root)
        && (path_starts_with(candidate, w.canonical@) || path_starts_with(w.canonical@, candidate))
}

/// Whether `r` is guard 5's outcome: the first conflicting worktree refuses
/// the candidate, naming itself when the candidate would lie inside it and
/// the candidate when it would lie inside the candidate.
pub open spec fn nesting_check(r: Result<(), WorktreeError>, candidate: Seq<char>, repo_root: Seq<char>, existing: Seq<PlacedWorktree>) -> bool {
    match r {
        Ok(()) => forall|i: int| 0 <= i < existing.len() ==> !nests(#[trigger] existing[i], candidate, repo_root),
        Err(e) => exists|i: int|
            0 <= i < existing.len() && nests(#[trigger] existing[i], candidate, repo_root) && (forall|j: int|
                0 <= j < i ==> !nests(#[trigger] existing[j], candidate, repo_root)) && e is NestedWorktree && (
            if path_starts_with(candidate, existing[i].canonical@) {
                e->NestedWorktree_parent@ == existing[i].path@
            } else {
                e->NestedWorktree_parent@ == candidate
            }),
    }
}

/// Guard 5: the candidate (canonicalized) neither lies inside a listed
/// worktree nor contains one; the repository root itself is exempt.
pub fn check_not_nested_worktree(candidate: &str, repo_root: &str, existing: &Vec<PlacedWorktree>) -> (r: Result<(), WorktreeError>)
    ensures
        nesting_check(r, candidate@, repo_root@, existing@),
{
    let mut i: usize = 0;
    while i < existing.len()
        invariant
            i <= existing@.len(),
            forall|j: int| 0 <= j < i ==> !nests(#[trigger] existing@[j], candidate@, repo_root@),
        decreases existing@.len() - i,
    {
        let w = &existing[i];
        if !paths_equal_exec(w.canonical.as_str(), repo_root) {
            if path_starts_with_exec(candidate, w.canonical.as_str()) {
                let e = WorktreeError::NestedWorktree { parent: w.path.clone() };
                proof {
                    assert(nests(existing@[i as int], candidate@, repo_root@));
                }
                return Err(e);
            }
            if path_starts_with_exec(w.canonical.as_str(), candidate) {
                let e = WorktreeError::NestedWorktree { parent: candidate.to_owned() };
                proof {
                    assert(nests(existing@[i as int], candidate@, repo_root@));
                }
                return Err(e);
            }
        }
        i = i + 1;
    }
    Ok(())
}

// ── Guard 6: network filesystems ────────────────────────────────────────

/// Filesystem types served over a network.
pub open spec fn network_fs_type(t: Seq<char>) -> bool {
    t == "nfs"@ || t == "nfs4"@ || t == "cifs"@ || t == "smbfs"@ || t == "fuse.sshfs"@ || t == "9p"@
}

fn is_network_fs_type(t: &[char]) -> (b: bool)
    ensures
        b == network_fs_type(t@),
{
    let nfs = chars_of("nfs");
    let nfs4 = chars_of("nfs4");
    let cifs = chars_of("cifs");
    let smbfs = chars_of("smbfs");
    let sshfs = chars_of("fuse.sshfs");
    let p9 = chars_of("9p");
    crate::text::chars_eq(t, &nfs) || crate::text::chars_eq(t, &nfs4) || crate::text::chars_eq(t, &cifs)
        || crate::text::chars_eq(t, &smbfs) || crate::text::chars_eq(t, &sshfs) || crate::text::chars_eq(t, &p9)
}

/// Whether line `l` of a mount table (device, mount point, type, ...) is a
/// network mount whose mount point is a text prefix of `path`.
pub open spec fn network_mount_line(l: Seq<char>, path: Seq<char>) -> bool {
    let w = words(l);
    w.len() >= 3 && has_prefix(path, w[1]) && network_fs_type(w[2])
}

/// Whether `r` is guard 6's outcome from the mount table text `mounts`:
/// the first network mount whose mount point prefixes `path` refuses it.
pub open spec fn network_fs_check(r: Result<(), WorktreeError>, path: Seq<char>, mounts: Seq<char>) -> bool {
    let ls = lines(mounts);
    match r {
        Ok(()) => forall|i: int| 0 <= i < ls.len() ==> !network_mount_line(#[trigger] ls[i], path),
        Err(e) => exists|i: int|
            0 <= i < ls.len() && network_mount_line(#[trigger] ls[i], path) && (forall|j: int|
                0 <= j < i ==> !network_mount_line(#[trigger] ls[j], path)) && e is NetworkFilesystem
                && e->NetworkFilesystem_mount_point@ == words(ls[i])[1],
    }
}

/// Guard 6: `path` is not on a network filesystem, judged from the mount
/// table text (`/proc/mounts`).
pub fn check_not_network_filesystem(path: &str, mounts: &str) -> (r: Result<(), WorktreeError>)
    ensures
        network_fs_check(r, path@, mounts@),
{
    let text = chars_of(mounts);
    let p = chars_of(path);
    let ls = lines_of(&text);
    let mut i: usize = 0;
    while i < ls.len()
        invariant
            i <= ls@.len(),
            ls@.len() == lines(mounts@).len(),
            forall|j: int| 0 <= j < ls@.len() ==> (#[trigger] ls@[j])@ == lines(mounts@)[j],
            p@ == path@,
            forall|j: int| 0 <= j < i ==> !network_mount_line(#[trigger] lines(mounts@)[j], path@),
        decreases ls@.len() - i,
    {
        let w = words_of(&ls[i]);
        if w.len() >= 3 && starts_with_chars(&p, &w[1]) && is_network_fs_type(&w[2]) {
            proof {
                assert(network_mount_line(lines(mounts@)[i as int], path@));
            }
            return Err(WorktreeError::NetworkFilesystem { mount_point: string_from_chars(&w[1]) });
        }
        i = i + 1;
    }
    Ok(())
}

/// Whether mount table line `l` has a mount point that is a text prefix of `path`.
pub open spec fn mount_holds(l: Seq<char>, path: Seq<char>) -> bool {
    words(l).len() >= 3 && has_prefix(path, words(l)[1])
}

/// Whether line `i` of the mount table holds `path` with the first longest
/// mount point: the line that decides `path`'s filesystem.
pub open spec fn deciding_mount_line(ls: Seq<Seq<char>>, path: Seq<char>, i: int) -> bool {
    &&& 0 <= i < ls.len()
    &&& mount_holds(ls[i], path)
    &&& forall|j: int| 0 <= j < ls.len() && mount_holds(#[trigger] ls[j], path) ==> (
        if j < i { words(ls[j])[1].len() < words(ls[i])[1].len() } else { words(ls[j])[1].len() <= words(ls[i])[1].len() })
}

/// Whether the directory `path` is on a network filesystem: the type of the
/// mount with the longest mount point that prefixes it, from the mount
/// table text.
pub fn is_network_filesystem(path: &str, mounts: &str) -> (b: bool)
    ensures
        b == exists|i: int| #[trigger] deciding_mount_line(lines(mounts@), path@, i) && network_fs_type(words(lines(mounts@)[i])[2]),
{
    let text = chars_of(mounts);
    let p = chars_of(path);
    let ls = lines_of(&text);
    let ghost gl = lines(mounts@);
    let mut best: Option<usize> = None;
    let mut best_network = false;
    let mut best_len: usize = 0;
    let mut i: usize = 0;
    while i < ls.len()
        invariant
            i <= ls@.len(),
            ls@.len() == gl.len(),
            gl == lines(mounts@),
            forall|j: int| 0 <= j < ls@.len() ==> (#[trigger] ls@[j])@ == gl[j],
            p@ == path@,
            match best {
                Some(b) => b < i && mount_holds(gl[b as int], path@) && best_len == words(gl[b as int])[1].len()
                    && best_network == network_fs_type(words(gl[b as int])[2])
                    && forall|j: int| 0 <= j < i && mount_holds(#[trigger] gl[j], path@) ==> (
                    if j < b { words(gl[j])[1].len() < words(gl[b as int])[1].len() } else { words(gl[j])[1].len() <= words(gl[b as int])[1].len() }),
                None => !best_network && forall|j: int| 0 <= j < i ==> !mount_holds(#[trigger] gl[j], path@),
            },
        decreases ls@.len() - i,
    {
        let w = words_of(&ls[i]);
        proof {
            assert(w@.len() == words(gl[i as int]).len());
        }
        if w.len() >= 3 && starts_with_chars(&p, &w[1]) {
            let len = w[1].len();
            let better = match best {
                Some(_) => len > best_len,
                None => true,
            };
            if better {
                best = Some(i);
                best_len = len;
                best_network = is_network_fs_type(&w[2]);
            }
        }
        i = i + 1;
    }
    proof {
        match best {
            Some(b) => {
                assert(deciding_mount_line(gl, path@, b as int));
                assert forall|k: int| deciding_mount_line(gl, path@, k) implies k == b by {
                    if k < b {
                        assert(mount_holds(gl[k], path@));
                    } else if b < k {
                        assert(mount_holds(gl[k], path@));
                    }
                }
                if best_network {
                    assert(deciding_mount_line(lines(mounts@), path@, b as int) && network_fs_type(words(lines(mounts@)[b as int])[2]));
                } else {
                    assert forall|k: int| !(deciding_mount_line(gl, path@, k) && network_fs_type(words(gl[k])[2])) by {
                        if deciding_mount_line(gl, path@, k) {
                            assert(k == b);
                        }
                    }
                }
            },
            None => {
                assert forall|k: int| !deciding_mount_line(gl, path@, k) by {
                    if 0 <= k < gl.len() {
                        assert(!mount_holds(gl[k], path@));
                    }
                }
            },
        }
    }
    best_network
}

// ── Guard 7: WSL boundary ───────────────────────────────────────────────

/// Whether the kernel version text names Microsoft's (WSL) kernel.
pub open spec fn is_wsl(proc_version: Seq<char>) -> bool {
    contains_seq(proc_version, "Microsoft"@) || contains_seq(proc_version, "microsoft"@)
}

/// Whether, on WSL, exactly one of the repository and the worktree lies under `/mnt/`.
pub open spec fn crosses_wsl_boundary(repo: Seq<char>, worktree: Seq<char>, proc_version: Option<Seq<char>>) -> bool {
    match proc_version {
        Some(v) => is_wsl(v) && path_starts_with(repo, "/mnt/"@) != path_starts_with(worktree, "/mnt/"@),
        None => false,
    }
}

/// Guard 7: on WSL (judged from `/proc/version` when it could be read),
/// the repository and the worktree are both under `/mnt/` or both outside.
pub fn check_not_wsl_cross_boundary(repo: &str, worktree: &str, proc_version: Option<&str>) -> (r: Result<(), WorktreeError>)
    ensures
        match r {
            Ok(()) => !crosses_wsl_boundary(repo@, worktree@, opt_str_view(proc_version)),
            Err(e) => e == WorktreeError::WslCrossBoundary && crosses_wsl_boundary(repo@, worktree@, opt_str_view(proc_version)),
        },
{
    match proc_version {
        Some(v) => {
            let text = chars_of(v);
            let upper = chars_of("Microsoft");
            let lower = chars_of("microsoft");
            proof {
                reveal_strlit("Microsoft");
                reveal_strlit("microsoft");
                reveal_strlit("/mnt/");
            }
            if contains_chars(&text, &upper) || contains_chars(&text, &lower) {
                let repo_on_mnt = path_starts_with_exec(repo, "/mnt/");
                let wt_on_mnt = path_starts_with_exec(worktree, "/mnt/");
                if repo_on_mnt != wt_on_mnt {
                    return Err(WorktreeError::WslCrossBoundary);
                }
            }
            Ok(())
        },
        None => Ok(()),
    }
}

// ── Guards 8 and 9: bare repository, submodule ──────────────────────────

/// Whether `git rev-parse --is-bare-repository` reported a bare repository:
/// it succeeded and printed `true` (surrounding whitespace aside).
pub fn is_bare_repo_output(success: bool, stdout: &[u8]) -> (b: bool)
    ensures
        b == (success && trim(utf8_lossy(stdout@)) == "true"@),
{
    if !success {
        return false;
    }
    let s = lossy_string(stdout);
    let t = trim_chars(&chars_of(s.as_str()));
    let want = chars_of("true");
    crate::text::chars_eq(&t, &want)
}

/// Whether `git rev-parse --show-superproject-working-tree` reported a
/// superproject: it succeeded and printed something besides whitespace.
pub fn is_submodule_output(success: bool, stdout: &[u8]) -> (b: bool)
    ensures
        b == (success && trim(utf8_lossy(stdout@)).len() > 0),
{
    if !success {
        return false;
    }
    let s = lossy_string(stdout);
    let t = trim_chars(&chars_of(s.as_str()));
    t.len() > 0
}

/// Guard 9: the repository is not a submodule.
pub fn check_not_submodule(in_submodule: bool) -> (r: Result<(), WorktreeError>)
    ensures
        r is Ok <==> !in_submodule,
        r is Err ==> r->Err_0 == WorktreeError::SubmoduleContext,
{
    if in_submodule {
        return Err(WorktreeError::SubmoduleContext);
    }
    Ok(())
}

// ── Guard 10: aggregate disk usage ──────────────────────────────────────

/// The byte limit a percentage of a filesystem's capacity allows
/// (saturating at `u64::MAX` before dividing by 100).
pub open spec fn percent_limit(capacity: u64, pct: u8) -> int {
    (if capacity * pct > u64::MAX { u64::MAX as int } else { capacity * pct }) / 100
}

/// Whether aggregate usage `total` breaks a configured limit: the byte cap,
/// or the percentage of a known, non-zero capacity.
pub open spec fn over_disk_limits(total: u64, max_bytes: Option<u64>, threshold_percent: Option<u8>, capacity: Option<u64>) -> bool {
    (max_bytes matches Some(m) && total > m) || (threshold_percent matches Some(pct) && capacity matches Some(c)
        && c > 0 && total > percent_limit(c, pct))
}

/// Guard 10: aggregate worktree usage `total_bytes` stays within the byte
/// cap and within the percentage of the hosting filesystem's `capacity`.
pub fn check_total_disk_usage(total_bytes: u64, max_bytes: Option<u64>, threshold_percent: Option<u8>,
    capacity: Option<u64>) -> (r: Result<(), WorktreeError>)
    ensures
        match r {
            Ok(()) => !over_disk_limits(total_bytes, max_bytes, threshold_percent, capacity),
            Err(e) => over_disk_limits(total_bytes, max_bytes, threshold_percent, capacity)
                && e == WorktreeError::AggregateDiskLimitExceeded,
        },
{
    if max_bytes.is_none() && threshold_percent.is_none() {
        return Ok(());
    }
    match max_bytes {
        Some(limit) => {
            if total_bytes > limit {
                return Err(WorktreeError::AggregateDiskLimitExceeded);
            }
        },
        None => {},
    }
    match threshold_percent {
        Some(pct) => match capacity {
            Some(c) => {
                if c > 0 {
                    let product: u64 = match c.checked_mul(pct as u64) {
                        Some(v) => v,
                        None => u64::MAX,
                    };
                    let limit = product / 100;
                    if total_bytes > limit {
                        return Err(WorktreeError::AggregateDiskLimitExceeded);
                    }
                }
            },
            None => {},
        },
        None => {},
    }
    Ok(())
}

// ── Guard 11: network junction target ───────────────────────────────────

/// Guard 11: the path is not a network path (`\\server\...`); verbatim
/// paths (`\\?\...`) are local.
pub fn check_not_network_junction_target(path: &str) -> (r: Result<(), WorktreeError>)
    ensures
        match r {
            Ok(()) => !(has_prefix(path@, "\\\\"@) && !has_prefix(path@, "\\\\?\\"@)),
            Err(e) => has_prefix(path@, "\\\\"@) && !has_prefix(path@, "\\\\?\\"@) && e is NetworkJunctionTarget
                && e->NetworkJunctionTarget_path@ == path@,
        },
{
    let p = chars_of(path);
    let unc = chars_of("\\\\");
    let verbatim = chars_of("\\\\?\\");
    if starts_with_chars(&p, &unc) && !starts_with_chars(&p, &verbatim) {
        return Err(WorktreeError::NetworkJunctionTarget { path: path.to_owned() });
    }
    Ok(())
}

// ── Guard 12: git-crypt ─────────────────────────────────────────────────

/// The git-crypt status of a repository: no `.gitattributes` or no
/// git-crypt filter in it means not used; then a missing key means locked
/// without key; then a tracked file still carrying the encryption header
/// means locked; else unlocked.
pub open spec fn crypt_status(gitattributes: Option<Seq<char>>, key_exists: bool, encrypted_found: bool) -> GitCryptStatus {
    match gitattributes {
        None => GitCryptStatus::NotUsed,
        Some(text) => if !crate::git::uses_git_crypt(text) {
            GitCryptStatus::NotUsed
        } else if !key_exists {
            GitCryptStatus::LockedNoKey
        } else if encrypted_found {
            GitCryptStatus::Locked
        } else {
            GitCryptStatus::Unlocked
        },
    }
}

/// Guard 12: the git-crypt status from the `.gitattributes` text (if the
/// file exists), whether the key file exists, and whether a file under a
/// git-crypt pattern still starts with the encryption header.
pub fn check_git_crypt(gitattributes: Option<&str>, key_exists: bool, encrypted_found: bool) -> (s: GitCryptStatus)
    ensures
        s == crypt_status(opt_str_view(gitattributes), key_exists, encrypted_found),
{
    match gitattributes {
        None => GitCryptStatus::NotUsed,
        Some(text) => if !crate::git::gitattributes_use_git_crypt(text) {
            GitCryptStatus::NotUsed
        } else if !key_exists {
            GitCryptStatus::LockedNoKey
        } else if encrypted_found {
            GitCryptStatus::Locked
        } else {
            GitCryptStatus::Unlocked
        },
    }
}

/// The view of an optional string slice.
pub open spec fn opt_str_view(o: Option<&str>) -> Option<Seq<char>> {
    match o {
        Some(s) => Some(s@),
        None => None,
    }
}

/// `name` joined onto `base` as `Path::join` does: an absolute name
/// replaces the base.
pub open spec fn join_any(base: Seq<char>, name: Seq<char>) -> Seq<char> {
    if name.len() > 0 && name[0] == '/' {
        name
    } else {
        crate::state::join_path(base, name)
    }
}

fn join_any_exec(base: &str, name: &str) -> (r: String)
    ensures
        r@ == join_any(base@, name@),
{
    let n = chars_of(name);
    if n.len() > 0 && n[0] == '/' {
        return name.to_owned();
    }
    let mut out = chars_of(base);
    let k = out.len();
    if k != 0 && out[k - 1] != '/' {
        out.push('/');
    }
    push_str_chars(&mut out, &n);
    proof {
        assert(out@ =~= crate::state::join_path(base@, name@));
    }
    string_from_chars(&out)
}

fn push_str_chars(out: &mut Vec<char>, v: &Vec<char>)
    ensures
        final(out)@ == old(out)@ + v@,
{
    crate::text::push_chars(out, v.as_slice());
}

/// Where git-crypt keeps the default key: `<git dir>/git-crypt/keys/default`,
/// the git dir being what `git rev-parse --git-dir` printed (trimmed),
/// joined onto the repository root.
pub open spec fn crypt_key_path_of(repo: Seq<char>, git_dir_output: Seq<u8>) -> Seq<char> {
    let git_dir = join_any(repo, trim(utf8_lossy(git_dir_output)));
    crate::state::join_path(crate::state::join_path(crate::state::join_path(git_dir, "git-crypt"@), "keys"@), "default"@)
}

/// The path of git-crypt's default key for `repo`.
pub fn crypt_key_path(repo: &str, git_dir_output: &[u8]) -> (p: String)
    ensures
        p@ == crypt_key_path_of(repo@, git_dir_output@),
{
    let out = lossy_string(git_dir_output);
    let t = string_from_chars(&trim_chars(&chars_of(out.as_str())));
    let git_dir = join_any_exec(repo, t.as_str());
    let a = join_path_str(git_dir.as_str(), "git-crypt");
    let b = join_path_str(a.as_str(), "keys");
    proof {
        reveal_strlit("git-crypt");
        reveal_strlit("keys");
        reveal_strlit("default");
    }
    join_path_str(b.as_str(), "default")
}

fn join_path_str(base: &str, name: &str) -> (r: String)
    ensures
        r@ == crate::state::join_path(base@, name@),
{
    let mut out = chars_of(base);
    let k = out.len();
    if k != 0 && out[k - 1] != '/' {
        out.push('/');
    }
    crate::text::push_str(&mut out, name);
    proof {
        assert(out@ =~= crate::state::join_path(base@, name@));
    }
    string_from_chars(&out)
}

// ── Pre-delete guards ───────────────────────────────────────────────────

/// Whether the working directory `cwd` is `path` or lies inside it.
pub open spec fn holds_cwd(path: Seq<char>, cwd: Option<Seq<char>>) -> bool {
    match cwd {
        Some(c) => path_starts_with(c, path),
        None => false,
    }
}

/// Pre-delete guard 1: the worktree (canonicalized) is not the caller's
/// working directory nor one of its ancestors (`cwd`, canonicalized, when
/// it could be read).
pub fn check_not_cwd(path: &str, cwd: Option<&str>) -> (r: Result<(), WorktreeError>)
    ensures
        match r {
            Ok(()) => !holds_cwd(path@, opt_str_view(cwd)),
            Err(e) => e == WorktreeError::CannotDeleteCwd && holds_cwd(path@, opt_str_view(cwd)),
        },
{
    match cwd {
        Some(c) => {
            if path_starts_with_exec(c, path) {
                return Err(WorktreeError::CannotDeleteCwd);
            }
            Ok(())
        },
        None => Ok(()),
    }
}

/// The non-empty lines of `text`.
pub open spec fn nonempty_lines(ls: Seq<Seq<char>>) -> Seq<Seq<char>>
    decreases ls.len(),
{
    if ls.len() == 0 {
        Seq::empty()
    } else if ls.last().len() == 0 {
        nonempty_lines(ls.drop_last())
    } else {
        nonempty_lines(ls.drop_last()).push(ls.last())
    }
}

/// The non-empty lines of `text`, as strings.
pub fn nonempty_lines_of(text: &str) -> (r: Vec<String>)
    ensures
        r@.map_values(|s: String| s@) == nonempty_lines(lines(text@)),
{
    let c = chars_of(text);
    let ls = lines_of(&c);
    let ghost gl = lines(text@);
    let mut out: Vec<String> = Vec::new();
    let mut i: usize = 0;
    while i < ls.len()
        invariant
            i <= ls@.len(),
            ls@.len() == gl.len(),
            gl == lines(text@),
            forall|j: int| 0 <= j < ls@.len() ==> (#[trigger] ls@[j])@ == gl[j],
            out@.map_values(|s: String| s@) == nonempty_lines(gl.take(i as int)),
        decreases ls@.len() - i,
    {
        proof {
            assert(gl.take(i as int + 1).drop_last() =~= gl.take(i as int));
        }
        if ls[i].len() > 0 {
            let s = string_from_chars(&ls[i]);
            out.push(s);
            proof {
                assert(out@.map_values(|s: String| s@) =~= nonempty_lines(gl.take(i as int)).push(gl[i as int]));
            }
        }
        i = i + 1;
    }
    proof {
        assert(gl.take(ls@.len() as int) =~= gl);
    }
    out
}

/// Pre-delete guard 2: `git status --porcelain` reported no changes; a
/// status that failed does not block.
pub fn check_no_uncommitted_changes(success: bool, stdout: &[u8]) -> (r: Result<(), WorktreeError>)
    ensures
        match r {
            Ok(()) => !success || nonempty_lines(lines(utf8_lossy(stdout@))).len() == 0,
            Err(e) => success && e is UncommittedChanges && e->UncommittedChanges_files@.map_values(|s: String| s@)
                == nonempty_lines(lines(utf8_lossy(stdout@))) && nonempty_lines(lines(utf8_lossy(stdout@))).len() > 0,
        },
{
    if !success {
        return Ok(());
    }
    let s = lossy_string(stdout);
    let files = nonempty_lines_of(s.as_str());
    if files.len() > 0 {
        return Err(WorktreeError::UncommittedChanges { files });
    }
    Ok(())
}

/// Pre-delete guard 4: the worktree is not locked.
pub fn check_not_locked(handle: &WorktreeHandle) -> (r: Result<(), WorktreeError>)
    ensures
        match r {
            Ok(()) => handle.state != WorktreeState::Locked,
            Err(e) => handle.state == WorktreeState::Locked && e is WorktreeLocked && e->WorktreeLocked_reason is None,
        },
{
    if handle.state == WorktreeState::Locked {
        return Err(WorktreeError::WorktreeLocked { reason: None });
    }
    Ok(())
}

} // verus!
