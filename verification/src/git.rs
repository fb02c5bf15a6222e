//! Git output parsing and command construction: `git --version`, the
//! capability table, the porcelain `git worktree list` format, the argument
//! lists of the worktree commands, and git-crypt markers.
use vstd::prelude::*;
use vstd::string::StringSliceAdditionalSpecFns;

use crate::error::{git_failure, is_git_failure, WorktreeError};
use crate::seqs::{
    block_pad, field_pad, split_bytes, split_chars, split_seq, trim_block, trim_by, trim_field, trim_start_by,
};
use crate::text::{
    chars_of, contains_chars, contains_seq, decimal, has_prefix, lines, lines_of, push_chars,
    push_decimal, push_str, starts_with_chars, string_from_chars, sub_chars, trim,
    trim_bounds, words, words_of,
};
use crate::types::{
    version_at_least, GitCapabilities, GitVersion, WorktreeHandle, WorktreeState,
};

verus! {

// ── Unsigned integer parsing ────────────────────────────────────────────

/// Whether `c` is an ASCII decimal digit.
pub open spec fn is_digit(c: char) -> bool {
    48 <= (c as u32) <= 57
}

/// The value of a string of decimal digits.
pub open spec fn digits_value(s: Seq<char>) -> nat
    decreases s.len(),
{
    if s.len() == 0 {
        0
    } else {
        digits_value(s.drop_last()) * 10 + ((s.last() as u32) - 48) as nat
    }
}

/// The digits part of unsigned integer text: without one leading `+`.
pub open spec fn unsigned_body(s: Seq<char>) -> Seq<char> {
    if s.len() > 0 && s[0] == '+' {
        s.drop_first()
    } else {
        s
    }
}

/// Whether every character is a decimal digit.
pub open spec fn all_digits(s: Seq<char>) -> bool {
    forall|i: int| 0 <= i < s.len() ==> is_digit(#[trigger] s[i])
}

/// `str::parse::<u32>`: an optional `+`, then at least one digit, and a value
/// that fits in 32 bits.
pub open spec fn parse_u32(s: Seq<char>) -> Option<u32> {
    let body = unsigned_body(s);
    if body.len() == 0 || !all_digits(body) {
        None
    } else if digits_value(body) > u32::MAX {
        None
    } else {
        Some(digits_value(body) as u32)
    }
}

pub proof fn lemma_digits_value_mono(s: Seq<char>, k: int)
    requires
        0 <= k <= s.len(),
        forall|i: int| 0 <= i < s.len() ==> is_digit(#[trigger] s[i]),
    ensures
        digits_value(s) >= digits_value(s.take(k)),
    decreases s.len() - k,
{
    if k < s.len() {
        let d = s.drop_last();
        assert forall|i: int| 0 <= i < d.len() implies is_digit(#[trigger] d[i]) by {
            assert(d[i] == s[i]);
        }
        lemma_digits_value_mono(d, k);
        assert(d.take(k) =~= s.take(k));
    } else {
        assert(s.take(k) =~= s);
    }
}

/// Parses decimal text as `str::parse::<u32>` does.
pub fn parse_u32_chars(v: &[char]) -> (r: Option<u32>)
    ensures
        r == parse_u32(v@),
{
    let n = v.len();
    let start: usize = if n > 0 && v[0] == '+' { 1 } else { 0 };
    let ghost body = unsigned_body(v@);
    assert(body =~= v@.skip(start as int));
    if start == n {
        return None;
    }
    let mut val: u64 = 0;
    let mut i = start;
    assert(body.take(0) =~= Seq::<char>::empty());
    while i < n
        invariant
            start <= i <= n == v@.len(),
            body == v@.skip(start as int),
            body == unsigned_body(v@),
            body.len() > 0,
            forall|j: int| 0 <= j < i - start ==> is_digit(#[trigger] body[j]),
            val as nat == digits_value(body.take(i - start)),
            val <= u32::MAX,
        decreases n - i,
    {
        let c = v[i];
        let u = c as u32;
        assert(body[i - start] == c);
        if u < 48 || u > 57 {
            proof {
                let k = i - start;
                assert(!is_digit(body[k]));
                assert(0 <= k < body.len());
                assert(!all_digits(body));
            }
            return None;
        }
        let ghost prev = body.take(i - start);
        val = val * 10 + (u - 48) as u64;
        i = i + 1;
        proof {
            assert(body.take(i - start).drop_last() =~= prev);
            assert(body.take(i - start).last() == c);
            assert(digits_value(body.take(i - start)) == digits_value(prev) * 10 + ((c as u32)
                - 48) as nat);
        }
        if val > 4294967295 {
            proof {
                if all_digits(body) {
                    lemma_digits_value_mono(body, i - start);
                }
            }
            return None;
        }
    }
    assert(body.take(n - start) =~= body);
    Some(val as u32)
}

/// `str::parse::<u64>`: an optional `+`, then at least one digit, and a value
/// that fits in 64 bits.
pub open spec fn parse_u64(s: Seq<char>) -> Option<u64> {
    let body = unsigned_body(s);
    if body.len() == 0 || !all_digits(body) {
        None
    } else if digits_value(body) > u64::MAX {
        None
    } else {
        Some(digits_value(body) as u64)
    }
}

/// Parses decimal text as `str::parse::<u64>` does.
pub fn parse_u64_chars(v: &[char]) -> (r: Option<u64>)
    ensures
        r == parse_u64(v@),
{
    let n = v.len();
    let start: usize = if n > 0 && v[0] == '+' { 1 } else { 0 };
    let ghost body = unsigned_body(v@);
    assert(body =~= v@.skip(start as int));
    if start == n {
        return None;
    }
    let mut val: u128 = 0;
    let mut i = start;
    assert(body.take(0) =~= Seq::<char>::empty());
    while i < n
        invariant
            start <= i <= n == v@.len(),
            body == v@.skip(start as int),
            body == unsigned_body(v@),
            body.len() > 0,
            forall|j: int| 0 <= j < i - start ==> is_digit(#[trigger] body[j]),
            val as nat == digits_value(body.take(i - start)),
            val <= u64::MAX,
        decreases n - i,
    {
        let c = v[i];
        let u = c as u32;
        assert(body[i - start] == c);
        if u < 48 || u > 57 {
            proof {
                let k = i - start;
                assert(!is_digit(body[k]));
                assert(0 <= k < body.len());
                assert(!all_digits(body));
            }
            return None;
        }
        let ghost prev = body.take(i - start);
        val = val * 10 + (u - 48) as u128;
        i = i + 1;
        proof {
            assert(body.take(i - start).drop_last() =~= prev);
            assert(body.take(i - start).last() == c);
            assert(digits_value(body.take(i - start)) == digits_value(prev) * 10 + ((c as u32)
                - 48) as nat);
        }
        if val > 18446744073709551615 {
            proof {
                if all_digits(body) {
                    lemma_digits_value_mono(body, i - start);
                }
            }
            return None;
        }
    }
    assert(body.take(n - start) =~= body);
    Some(val as u64)
}

// ── git --version ───────────────────────────────────────────────────────

/// The version token of the text after "git version ": its first
/// whitespace-separated word, or the whole text when it has none.
pub open spec fn version_token(vs: Seq<char>) -> Seq<char> {
    if words(vs).len() > 0 {
        words(vs)[0]
    } else {
        vs
    }
}

/// What reading `git --version` output yields: the version, or the text of
/// the failure.
pub open spec fn git_version_outcome(output: Seq<char>) -> Result<GitVersion, Seq<char>> {
    let t = trim(output);
    let p = "git version "@;
    if !has_prefix(t, p) {
        Err("unexpected output format: "@ + output)
    } else {
        let tok = version_token(t.skip(p.len() as int));
        let parts = split_seq(tok, seq!['.']);
        if parts.len() < 3 {
            Err("cannot parse version: "@ + tok)
        } else if parse_u32(parts[0]) is None {
            Err("cannot parse major version: "@ + parts[0])
        } else if parse_u32(parts[1]) is None {
            Err("cannot parse minor version: "@ + parts[1])
        } else if parse_u32(parts[2]) is None {
            Err("cannot parse patch version: "@ + parts[2])
        } else {
            Ok(
                GitVersion {
                    major: parse_u32(parts[0])->0,
                    minor: parse_u32(parts[1])->0,
                    patch: parse_u32(parts[2])->0,
                },
            )
        }
    }
}

/// Whether `r` is the result that `git_version_outcome(output)` describes.
pub open spec fn version_result_matches(
    r: Result<GitVersion, WorktreeError>,
    output: Seq<char>,
) -> bool {
    match git_version_outcome(output) {
        Ok(v) => r == Ok::<GitVersion, WorktreeError>(v),
        Err(msg) => match r {
            Ok(_) => false,
            Err(e) => is_git_failure(e, "git --version"@, msg, 0),
        },
    }
}

fn version_failure(prefix: &str, detail: &[char]) -> (e: WorktreeError)
    ensures
        is_git_failure(e, "git --version"@, prefix@ + detail@, 0),
{
    let mut msg = chars_of(prefix);
    push_chars(&mut msg, detail);
    let cmd = chars_of("git --version");
    git_failure(&cmd, &msg, 0)
}

/// Parses the output of `git --version`, e.g. "git version 2.43.0",
/// "git version 2.39.3 (Apple Git-146)" or "git version 2.43.0.windows.1".
pub fn parse_git_version(output: &str) -> (r: Result<GitVersion, WorktreeError>)
    ensures
        version_result_matches(r, output@),
{
    let v = chars_of(output);
    let (s, e) = trim_bounds(&v);
    let t = sub_chars(&v, s, e);
    let prefix = chars_of("git version ");
    if !starts_with_chars(&t, &prefix) {
        return Err(version_failure("unexpected output format: ", &v));
    }
    let vs = sub_chars(&t, prefix.len(), t.len());
    assert(vs@ =~= t@.skip(prefix@.len() as int));
    let ws = words_of(&vs);
    let tok: Vec<char> = if ws.len() > 0 {
        sub_chars(&ws[0], 0, ws[0].len())
    } else {
        vs
    };
    proof {
        if ws@.len() > 0 {
            assert(tok@ =~= ws@[0]@);
        }
    }
    let parts = split_chars(&tok, '.');
    proof {
        assert(parts@.len() == split_seq(tok@, seq!['.']).len());
        assert forall|i: int| 0 <= i < parts@.len() implies #[trigger] parts@[i]@ == split_seq(
            tok@,
            seq!['.'],
        )[i] by {
            assert(parts@.map_values(|p: Vec<char>| p@)[i] == parts@[i]@);
        }
    }
    if parts.len() < 3 {
        return Err(version_failure("cannot parse version: ", &tok));
    }
    let major = match parse_u32_chars(&parts[0]) {
        Some(x) => x,
        None => {
            return Err(version_failure("cannot parse major version: ", &parts[0]));
        },
    };
    let minor = match parse_u32_chars(&parts[1]) {
        Some(x) => x,
        None => {
            return Err(version_failure("cannot parse minor version: ", &parts[1]));
        },
    };
    let patch = match parse_u32_chars(&parts[2]) {
        Some(x) => x,
        None => {
            return Err(version_failure("cannot parse patch version: ", &parts[2]));
        },
    };
    Ok(GitVersion { major, minor, patch })
}

/// The capabilities that a git version provides.
pub open spec fn capabilities_of(v: GitVersion) -> GitCapabilities {
    GitCapabilities {
        version: v,
        has_list_nul: version_at_least(v, GitVersion { major: 2, minor: 36, patch: 0 }),
        has_repair: version_at_least(v, GitVersion { major: 2, minor: 30, patch: 0 }),
        has_orphan: version_at_least(v, GitVersion { major: 2, minor: 42, patch: 0 }),
        has_relative_paths: version_at_least(v, GitVersion { major: 2, minor: 48, patch: 0 }),
        has_merge_tree_write: version_at_least(v, GitVersion { major: 2, minor: 38, patch: 0 }),
    }
}

/// Derives the capability flags from a git version.
pub fn detect_capabilities(version: &GitVersion) -> (c: GitCapabilities)
    ensures
        c == capabilities_of(*version),
{
    let has_repair = version.at_least(&GitVersion::HAS_REPAIR());
    let has_list_nul = version.at_least(&GitVersion::HAS_LIST_NUL());
    let has_merge_tree_write = version.at_least(&GitVersion::HAS_MERGE_TREE_WRITE());
    let has_orphan = version.at_least(&GitVersion { major: 2, minor: 42, patch: 0 });
    let has_relative_paths = version.at_least(&GitVersion { major: 2, minor: 48, patch: 0 });
    GitCapabilities::new(
        *version,
        has_list_nul,
        has_repair,
        has_orphan,
        has_relative_paths,
        has_merge_tree_write,
    )
}

/// "major.minor.patch" in decimal.
pub open spec fn version_text(v: GitVersion) -> Seq<char> {
    decimal(v.major as nat) + "."@ + decimal(v.minor as nat) + "."@ + decimal(v.patch as nat)
}

fn version_string(v: &GitVersion) -> (s: String)
    ensures
        s@ == version_text(*v),
{
    let mut out: Vec<char> = Vec::new();
    push_decimal(&mut out, v.major as u64);
    push_str(&mut out, ".");
    push_decimal(&mut out, v.minor as u64);
    push_str(&mut out, ".");
    push_decimal(&mut out, v.patch as u64);
    assert(out@ =~= version_text(*v));
    string_from_chars(&out)
}

/// Reads `git --version` output and checks it against the minimum supported
/// version (2.20.0), yielding the capabilities of the installed git.
pub fn capabilities_from_version_output(output: &str) -> (r: Result<GitCapabilities, WorktreeError>)
    ensures
        match git_version_outcome(output@) {
            Err(msg) => r matches Err(e) && is_git_failure(e, "git --version"@, msg, 0),
            Ok(v) => if version_at_least(v, GitVersion { major: 2, minor: 20, patch: 0 }) {
                r == Ok::<GitCapabilities, WorktreeError>(capabilities_of(v))
            } else {
                r matches Err(e) && e is GitVersionTooOld && e->GitVersionTooOld_required@
                    == version_text(GitVersion { major: 2, minor: 20, patch: 0 })
                    && e->GitVersionTooOld_found@ == version_text(v)
            },
        },
{
    let version = parse_git_version(output)?;
    let minimum = GitVersion::MINIMUM();
    if !version.at_least(&minimum) {
        return Err(
            WorktreeError::GitVersionTooOld {
                required: version_string(&minimum),
                found: version_string(&version),
            },
        );
    }
    Ok(detect_capabilities(&version))
}

// ── Porcelain worktree list ─────────────────────────────────────────────

/// Text of bytes decoded as UTF-8 with invalid sequences replaced by U+FFFD
/// (std's `String::from_utf8_lossy`).
pub uninterp spec fn utf8_lossy(bytes: Seq<u8>) -> Seq<char>;

/// Calls `String::from_utf8_lossy`, which decodes bytes as UTF-8 and
/// replaces invalid sequences with U+FFFD; bytes that are the UTF-8 encoding
/// of some text decode to exactly that text, as std documents, and since each
/// invalid sequence becomes a replacement character, bytes that are not empty
/// never decode to empty text.
#[verifier::external_body]
pub(crate) fn lossy_string(bytes: &[u8]) -> (s: String)
    ensures
        s@ == utf8_lossy(bytes@),
        forall|cs: Seq<char>| vstd::utf8::encode_utf8(cs) == bytes@ ==> s@ == cs,
        bytes@.len() > 0 ==> s@.len() > 0,
{
    String::from_utf8_lossy(bytes).into_owned()
}

/// `s` without `p` when it starts with `p`.
pub open spec fn strip_prefix_seq<T>(s: Seq<T>, p: Seq<T>) -> Seq<T> {
    if has_prefix(s, p) {
        s.skip(p.len() as int)
    } else {
        s
    }
}

/// What the fields of one porcelain block have recorded so far.
pub struct FieldScan {
    pub path: Option<Seq<u8>>,
    pub head: Option<Seq<u8>>,
    pub branch: Option<Seq<char>>,
    pub bare: bool,
    pub detached: bool,
    pub locked: bool,
    pub prunable: bool,
}

pub open spec fn empty_scan() -> FieldScan {
    FieldScan {
        path: None,
        head: None,
        branch: None,
        bare: false,
        detached: false,
        locked: false,
        prunable: false,
    }
}

/// UTF-8 bytes of a string literal.
pub open spec fn lit(s: &str) -> Seq<u8> {
    s.spec_bytes()
}

/// The effect of one non-empty field on the scan.
pub open spec fn apply_field(s: FieldScan, f: Seq<u8>) -> FieldScan {
    if has_prefix(f, lit("worktree ")) {
        FieldScan { path: Some(f.skip(lit("worktree ").len() as int)), ..s }
    } else if has_prefix(f, lit("HEAD ")) {
        FieldScan { head: Some(f.skip(lit("HEAD ").len() as int)), ..s }
    } else if has_prefix(f, lit("branch ")) {
        FieldScan {
            branch: Some(
                strip_prefix_seq(
                    utf8_lossy(f.skip(lit("branch ").len() as int)),
                    "refs/heads/"@,
                ),
            ),
            ..s
        }
    } else if f == lit("detached") {
        FieldScan { detached: true, ..s }
    } else if f == lit("bare") {
        FieldScan { bare: true, ..s }
    } else if f == lit("locked") || has_prefix(f, lit("locked ")) {
        FieldScan { locked: true, ..s }
    } else if f == lit("prunable") || has_prefix(f, lit("prunable ")) {
        FieldScan { prunable: true, ..s }
    } else {
        s
    }
}

/// The scan of a block's raw fields, in order; fields empty after trimming
/// are skipped.
pub open spec fn scan_fields(fields: Seq<Seq<u8>>) -> FieldScan
    decreases fields.len(),
{
    if fields.len() == 0 {
        empty_scan()
    } else {
        let f = trim_by(fields.last(), field_pad());
        let s = scan_fields(fields.drop_last());
        if f.len() == 0 {
            s
        } else {
            apply_field(s, f)
        }
    }
}

/// The lifecycle state a block reports: locked over prunable over active.
pub open spec fn scan_state(s: FieldScan) -> WorktreeState {
    if s.locked {
        WorktreeState::Locked
    } else if s.prunable {
        WorktreeState::Orphaned
    } else {
        WorktreeState::Active
    }
}

/// The branch a block reports: none for bare or detached worktrees.
pub open spec fn scan_branch(s: FieldScan) -> Seq<char> {
    if s.bare || s.detached {
        Seq::empty()
    } else {
        match s.branch {
            Some(b) => b,
            None => Seq::empty(),
        }
    }
}

pub open spec fn scan_head(s: FieldScan) -> Seq<char> {
    match s.head {
        Some(h) => utf8_lossy(h),
        None => Seq::empty(),
    }
}

/// Block separator and field separator of the two porcelain layouts.
pub open spec fn block_sep(nul: bool) -> Seq<u8> {
    if nul {
        seq![0u8, 0u8]
    } else {
        seq![10u8, 10u8]
    }
}

pub open spec fn field_sep(nul: bool) -> u8 {
    if nul {
        0u8
    } else {
        10u8
    }
}

/// The scan of one raw block, or `None` when the trimmed block is empty.
pub open spec fn block_scan(block: Seq<u8>, nul: bool) -> Option<FieldScan> {
    let b = trim_by(block, block_pad());
    if b.len() == 0 {
        None
    } else {
        Some(scan_fields(split_seq(b, seq![field_sep(nul)])))
    }
}

/// The scans of the blocks that name a worktree path, in order.
pub open spec fn porcelain_scans(blocks: Seq<Seq<u8>>, nul: bool) -> Seq<FieldScan>
    decreases blocks.len(),
{
    if blocks.len() == 0 {
        Seq::empty()
    } else {
        let rest = porcelain_scans(blocks.drop_last(), nul);
        match block_scan(blocks.last(), nul) {
            Some(s) => if s.path is Some {
                rest.push(s)
            } else {
                rest
            },
            None => rest,
        }
    }
}

/// The worktree records of a porcelain listing.
pub open spec fn porcelain_records(output: Seq<u8>, nul: bool) -> Seq<FieldScan> {
    porcelain_scans(split_seq(output, block_sep(nul)), nul)
}

proof fn lemma_scan_path_nonempty(fields: Seq<Seq<u8>>)
    ensures
        scan_fields(fields).path is Some ==> scan_fields(fields).path->0.len() > 0,
    decreases fields.len(),
{
    if fields.len() > 0 {
        lemma_scan_path_nonempty(fields.drop_last());
        let f = trim_by(fields.last(), field_pad());
        crate::seqs::lemma_trim_end_last(trim_start_by(fields.last(), field_pad()), field_pad());
        if f.len() > 0 && has_prefix(f, lit("worktree ")) {
            let w = lit("worktree ");
            assert(w == seq![119u8, 111u8, 114u8, 107u8, 116u8, 114u8, 101u8, 101u8, 32u8]) by {
                reveal_strlit("worktree ");
                assert(vstd::string::is_ascii("worktree "));
                vstd::string::is_ascii_spec_bytes("worktree ");
            }
            if f.len() == w.len() {
                assert(f.last() == w[8]);
            }
        }
    }
}

/// Every worktree a porcelain listing yields names a non-empty path and is
/// active, locked or orphaned, locked winning over prunable, whatever the
/// bytes of the listing.
pub proof fn lemma_listing_records(output: Seq<u8>, nul: bool, i: int)
    requires
        0 <= i < porcelain_records(output, nul).len(),
    ensures
        porcelain_records(output, nul)[i].path is Some,
        porcelain_records(output, nul)[i].path->0.len() > 0,
        scan_state(porcelain_records(output, nul)[i]) == WorktreeState::Active || scan_state(
            porcelain_records(output, nul)[i]) == WorktreeState::Locked || scan_state(porcelain_records(output, nul)[i])
            == WorktreeState::Orphaned,
        porcelain_records(output, nul)[i].locked ==> scan_state(porcelain_records(output, nul)[i])
            == WorktreeState::Locked,
{
    lemma_scans_named(split_seq(output, block_sep(nul)), nul, i);
}

proof fn lemma_scans_named(blocks: Seq<Seq<u8>>, nul: bool, i: int)
    requires
        0 <= i < porcelain_scans(blocks, nul).len(),
    ensures
        porcelain_scans(blocks, nul)[i].path is Some,
        porcelain_scans(blocks, nul)[i].path->0.len() > 0,
    decreases blocks.len(),
{
    if blocks.len() > 0 {
        let rest = porcelain_scans(blocks.drop_last(), nul);
        match block_scan(blocks.last(), nul) {
            Some(s) => {
                if s.path is Some && i == rest.len() {
                    let b = trim_by(blocks.last(), block_pad());
                    lemma_scan_path_nonempty(split_seq(b, seq![field_sep(nul)]));
                } else {
                    lemma_scans_named(blocks.drop_last(), nul, i);
                }
            },
            None => {
                lemma_scans_named(blocks.drop_last(), nul, i);
            },
        }
    }
}

/// A branch named with or without the `refs/heads/` prefix reads the same.
pub proof fn lemma_branch_ref_prefix(name: Seq<char>)
    requires
        !has_prefix(name, "refs/heads/"@),
    ensures
        strip_prefix_seq("refs/heads/"@ + name, "refs/heads/"@) == name,
        strip_prefix_seq(name, "refs/heads/"@) == name,
{
    let p = "refs/heads/"@;
    assert(has_prefix(p + name, p)) by {
        assert((p + name).take(p.len() as int) =~= p);
    }
    assert((p + name).skip(p.len() as int) =~= name);
}

/// Whether `h` is the handle a porcelain record describes; the metadata git
/// does not report is left empty.
pub open spec fn handle_from_scan(h: WorktreeHandle, s: FieldScan) -> bool {
    &&& s.path is Some
    &&& h.path@ == utf8_lossy(s.path->0)
    &&& h.branch@ == scan_branch(s)
    &&& h.base_commit@ == scan_head(s)
    &&& h.state == scan_state(s)
    &&& h.created_at@ == Seq::<char>::empty()
    &&& h.creator_pid == 0
    &&& h.creator_name@ == Seq::<char>::empty()
    &&& h.adapter is None
    &&& !h.setup_complete
    &&& h.port is None
    &&& h.session_uuid@ == Seq::<char>::empty()
}

fn byte_lit_matches(f: &[u8], text: &str) -> (r: bool)
    ensures
        r == (f@ == lit(text)),
{
    let p = text.as_bytes();
    if f.len() != p.len() {
        return false;
    }
    let r = crate::text::matches_at_bytes(f, p, 0);
    assert(f@.subrange(0, p@.len() as int) =~= f@);
    r
}

fn byte_prefix_matches(f: &[u8], text: &str) -> (r: bool)
    ensures
        r == has_prefix(f@, lit(text)),
{
    let p = text.as_bytes();
    let r = crate::text::matches_at_bytes(f, p, 0);
    proof {
        if p@.len() <= f@.len() {
            assert(f@.subrange(0, p@.len() as int) =~= f@.take(p@.len() as int));
        }
    }
    r
}

/// Reads one porcelain block into a handle, or `None` when it names no path.
fn parse_block(raw: &[u8], nul: bool) -> (r: Option<WorktreeHandle>)
    ensures
        match block_scan(raw@, nul) {
            Some(s) => if s.path is Some {
                r matches Some(h) && handle_from_scan(h, s)
            } else {
                r is None
            },
            None => r is None,
        },
        r matches Some(h) ==> h.path@.len() > 0,
{
    let block = trim_block(raw);
    if block.len() == 0 {
        return None;
    }
    let sep: Vec<u8> = if nul { vec![0u8] } else { vec![10u8] };
    assert(sep@ =~= seq![field_sep(nul)]);
    let fields = split_bytes(&block, &sep);
    let ghost fs = split_seq(block@, seq![field_sep(nul)]);
    proof {
        assert(fields@.len() == fs.len());
        assert forall|i: int| 0 <= i < fields@.len() implies #[trigger] fields@[i]@ == fs[i] by {
            assert(fields@.map_values(|p: Vec<u8>| p@)[i] == fields@[i]@);
        }
    }
    let mut path: Option<Vec<u8>> = None;
    let mut head_sha = String::new();
    let mut branch = String::new();
    let mut is_bare = false;
    let mut is_detached = false;
    let mut is_locked = false;
    let mut is_prunable = false;
    let mut i: usize = 0;
    let ghost mut scan = empty_scan();
    assert(fs.take(0) =~= Seq::<Seq<u8>>::empty());
    while i < fields.len()
        invariant
            i <= fields@.len() == fs.len(),
            forall|j: int| 0 <= j < fields@.len() ==> #[trigger] fields@[j]@ == fs[j],
            scan == scan_fields(fs.take(i as int)),
            path matches Some(p) ==> scan.path == Some(p@),
            path is None ==> scan.path is None,
            head_sha@ == scan_head(scan),
            branch@ == (match scan.branch {
                Some(b) => b,
                None => Seq::<char>::empty(),
            }),
            is_bare == scan.bare,
            is_detached == scan.detached,
            is_locked == scan.locked,
            is_prunable == scan.prunable,
        decreases fields@.len() - i,
    {
        let field = trim_field(&fields[i]);
        proof {
            assert(fs.take(i + 1).drop_last() =~= fs.take(i as int));
            assert(fs.take(i + 1).last() == fs[i as int]);
        }
        if field.len() > 0 {
            proof {
                scan = apply_field(scan, field@);
            }
            if byte_prefix_matches(&field, "worktree ") {
                let n = "worktree ".as_bytes().len();
                let p = vstd::slice::slice_to_vec(vstd::slice::slice_subrange(&field, n, field.len()));
                assert(p@ =~= field@.skip(n as int));
                path = Some(p);
            } else if byte_prefix_matches(&field, "HEAD ") {
                let n = "HEAD ".as_bytes().len();
                let h = vstd::slice::slice_subrange(&field, n, field.len());
                assert(h@ =~= field@.skip(n as int));
                head_sha = lossy_string(h);
            } else if byte_prefix_matches(&field, "branch ") {
                let n = "branch ".as_bytes().len();
                let b = vstd::slice::slice_subrange(&field, n, field.len());
                assert(b@ =~= field@.skip(n as int));
                let decoded = chars_of(lossy_string(b).as_str());
                let refs = chars_of("refs/heads/");
                if starts_with_chars(&decoded, &refs) {
                    let rest = sub_chars(&decoded, refs.len(), decoded.len());
                    assert(rest@ =~= decoded@.skip(refs@.len() as int));
                    branch = string_from_chars(&rest);
                } else {
                    branch = string_from_chars(&decoded);
                }
            } else if byte_lit_matches(&field, "detached") {
                is_detached = true;
            } else if byte_lit_matches(&field, "bare") {
                is_bare = true;
            } else if byte_lit_matches(&field, "locked") || byte_prefix_matches(&field, "locked ") {
                is_locked = true;
            } else if byte_lit_matches(&field, "prunable") || byte_prefix_matches(
                &field,
                "prunable ",
            ) {
                is_prunable = true;
            }
        }
        i = i + 1;
    }
    assert(fs.take(fs.len() as int) =~= fs);
    proof {
        lemma_scan_path_nonempty(fs);
    }
    let wt_path = match path {
        Some(p) => p,
        None => {
            return None;
        },
    };
    let state = if is_locked {
        WorktreeState::Locked
    } else if is_prunable {
        WorktreeState::Orphaned
    } else {
        WorktreeState::Active
    };
    if is_bare || is_detached {
        branch = String::new();
    }
    Some(
        WorktreeHandle::new(
            lossy_string(&wt_path),
            branch,
            head_sha,
            state,
            String::new(),
            0,
            String::new(),
            None,
            false,
            None,
            String::new(),
        ),
    )
}

/// Parses the porcelain output of `git worktree list` (NUL-delimited with
/// `-z`, newline-delimited otherwise) into one handle per block that names a
/// worktree path. Keys of a block: `worktree <path>`, `HEAD <sha>`,
/// `branch refs/heads/<name>`, `detached`, `bare`, `locked [reason]`,
/// `prunable [reason]`.
pub fn parse_worktree_list_porcelain(output: &[u8], nul_delimited: bool) -> (r: Result<
    Vec<WorktreeHandle>,
    WorktreeError,
>)
    ensures
        r matches Ok(hs) && hs@.len() == porcelain_records(output@, nul_delimited).len() && forall|
            i: int,
        |
            0 <= i < hs@.len() ==> handle_from_scan(
                #[trigger] hs@[i],
                porcelain_records(output@, nul_delimited)[i],
            ),
        r matches Ok(hs) ==> forall|i: int| 0 <= i < hs@.len() ==> (#[trigger] hs@[i]).path@.len() > 0,
{
    let sep: Vec<u8> = if nul_delimited { vec![0u8, 0u8] } else { vec![10u8, 10u8] };
    assert(sep@ =~= block_sep(nul_delimited));
    let blocks = split_bytes(output, &sep);
    let ghost bs = split_seq(output@, block_sep(nul_delimited));
    proof {
        assert(blocks@.len() == bs.len());
        assert forall|i: int| 0 <= i < blocks@.len() implies #[trigger] blocks@[i]@ == bs[i] by {
            assert(blocks@.map_values(|p: Vec<u8>| p@)[i] == blocks@[i]@);
        }
    }
    let mut handles: Vec<WorktreeHandle> = Vec::new();
    let mut i: usize = 0;
    assert(bs.take(0) =~= Seq::<Seq<u8>>::empty());
    while i < blocks.len()
        invariant
            i <= blocks@.len() == bs.len(),
            forall|j: int| 0 <= j < blocks@.len() ==> #[trigger] blocks@[j]@ == bs[j],
            handles@.len() == porcelain_scans(bs.take(i as int), nul_delimited).len(),
            forall|j: int|
                0 <= j < handles@.len() ==> handle_from_scan(
                    #[trigger] handles@[j],
                    porcelain_scans(bs.take(i as int), nul_delimited)[j],
                ),
            forall|j: int| 0 <= j < handles@.len() ==> (#[trigger] handles@[j]).path@.len() > 0,
        decreases blocks@.len() - i,
    {
        proof {
            assert(bs.take(i + 1).drop_last() =~= bs.take(i as int));
            assert(bs.take(i + 1).last() == bs[i as int]);
        }
        let parsed = parse_block(&blocks[i], nul_delimited);
        match parsed {
            Some(h) => {
                handles.push(h);
            },
            None => {},
        }
        i = i + 1;
    }
    assert(bs.take(bs.len() as int) =~= bs);
    Ok(handles)
}

// ── Command argument lists ──────────────────────────────────────────────

/// Arguments of the worktree listing command.
pub open spec fn worktree_list_arg_seq(has_list_nul: bool) -> Seq<Seq<char>> {
    if has_list_nul {
        seq!["worktree"@, "list"@, "--porcelain"@, "-z"@]
    } else {
        seq!["worktree"@, "list"@, "--porcelain"@]
    }
}

pub(crate) fn push_arg(args: &mut Vec<String>, a: &str)
    ensures
        final(args)@.len() == old(args)@.len() + 1,
        forall|i: int| 0 <= i < old(args)@.len() ==> final(args)@[i] == old(args)@[i],
        final(args)@[old(args)@.len() as int]@ == a@,
{
    args.push(a.to_string());
}

pub open spec fn arg_views(args: Seq<String>) -> Seq<Seq<char>> {
    args.map_values(|a: String| a@)
}

/// The arguments (after `git`) of `git worktree list --porcelain [-z]`.
pub fn worktree_list_args(has_list_nul: bool) -> (r: Vec<String>)
    ensures
        arg_views(r@) == worktree_list_arg_seq(has_list_nul),
{
    let mut args: Vec<String> = Vec::new();
    push_arg(&mut args, "worktree");
    push_arg(&mut args, "list");
    push_arg(&mut args, "--porcelain");
    if has_list_nul {
        push_arg(&mut args, "-z");
    }
    assert(arg_views(args@) =~= worktree_list_arg_seq(has_list_nul));
    args
}

/// Arguments of `git worktree add`: the lock flags, the path, then either
/// `-b <branch> [<base>]` for a new branch or the existing branch.
pub open spec fn worktree_add_arg_seq(
    path: Seq<char>,
    branch: Seq<char>,
    base: Option<Seq<char>>,
    new_branch: bool,
    lock: bool,
    lock_reason: Option<Seq<char>>,
) -> Seq<Seq<char>> {
    let lock_part = if lock {
        match lock_reason {
            Some(r) => seq!["--lock"@, "--reason"@, r],
            None => seq!["--lock"@],
        }
    } else {
        Seq::empty()
    };
    let branch_part = if new_branch {
        match base {
            Some(b) => seq!["-b"@, branch, b],
            None => seq!["-b"@, branch],
        }
    } else {
        seq![branch]
    };
    seq!["worktree"@, "add"@] + lock_part + seq![path] + branch_part
}

/// The arguments (after `git`) of the `git worktree add` invocation.
pub fn worktree_add_args(
    path: &str,
    branch: &str,
    base: Option<&str>,
    new_branch: bool,
    lock: bool,
    lock_reason: Option<&str>,
) -> (r: Vec<String>)
    ensures
        arg_views(r@) == worktree_add_arg_seq(
            path@,
            branch@,
            match base {
                Some(b) => Some(b@),
                None => None,
            },
            new_branch,
            lock,
            match lock_reason {
                Some(x) => Some(x@),
                None => None,
            },
        ),
{
    let mut args: Vec<String> = Vec::new();
    push_arg(&mut args, "worktree");
    push_arg(&mut args, "add");
    if lock {
        push_arg(&mut args, "--lock");
        match lock_reason {
            Some(reason) => {
                push_arg(&mut args, "--reason");
                push_arg(&mut args, reason);
            },
            None => {},
        }
    }
    push_arg(&mut args, path);
    if new_branch {
        push_arg(&mut args, "-b");
        push_arg(&mut args, branch);
        match base {
            Some(b) => {
                push_arg(&mut args, b);
            },
            None => {},
        }
    } else {
        push_arg(&mut args, branch);
    }
    assert(arg_views(args@) =~= worktree_add_arg_seq(
        path@,
        branch@,
        match base {
            Some(b) => Some(b@),
            None => None,
        },
        new_branch,
        lock,
        match lock_reason {
            Some(x) => Some(x@),
            None => None,
        },
    ));
    args
}

/// Arguments of `git worktree remove [--force] <path>`.
pub fn worktree_remove_args(path: &str, force: bool) -> (r: Vec<String>)
    ensures
        arg_views(r@) == (if force {
            seq!["worktree"@, "remove"@, "--force"@, path@]
        } else {
            seq!["worktree"@, "remove"@, path@]
        }),
{
    let mut args: Vec<String> = Vec::new();
    push_arg(&mut args, "worktree");
    push_arg(&mut args, "remove");
    if force {
        push_arg(&mut args, "--force");
    }
    push_arg(&mut args, path);
    assert(arg_views(args@) =~= (if force {
        seq!["worktree"@, "remove"@, "--force"@, path@]
    } else {
        seq!["worktree"@, "remove"@, path@]
    }));
    args
}

// ── git-crypt ───────────────────────────────────────────────────────────

/// Whether a `.gitattributes` line routes files through git-crypt.
pub open spec fn is_crypt_line(line: Seq<char>) -> bool {
    contains_seq(line, "filter=git-crypt"@)
}

/// Whether a `.gitattributes` text mentions git-crypt on any line.
pub open spec fn uses_git_crypt(content: Seq<char>) -> bool {
    exists|i: int| 0 <= i < lines(content).len() && is_crypt_line(#[trigger] lines(content)[i])
}

/// The file patterns (first word) of the git-crypt lines, in order,
/// skipping lines that have no word.
pub open spec fn crypt_patterns_of(ls: Seq<Seq<char>>) -> Seq<Seq<char>>
    decreases ls.len(),
{
    if ls.len() == 0 {
        Seq::empty()
    } else {
        let rest = crypt_patterns_of(ls.drop_last());
        let l = ls.last();
        if is_crypt_line(l) && words(l).len() > 0 {
            rest.push(words(l)[0])
        } else {
            rest
        }
    }
}

/// Whether a `.gitattributes` text mentions git-crypt on any line.
pub fn gitattributes_use_git_crypt(content: &str) -> (r: bool)
    ensures
        r == uses_git_crypt(content@),
{
    let v = chars_of(content);
    let ls = lines_of(&v);
    let marker = chars_of("filter=git-crypt");
    let mut i: usize = 0;
    while i < ls.len()
        invariant
            i <= ls@.len() == lines(content@).len(),
            v@ == content@,
            marker@ == "filter=git-crypt"@,
            forall|j: int| 0 <= j < ls@.len() ==> (#[trigger] ls@[j])@ == lines(content@)[j],
            forall|j: int| 0 <= j < i ==> !is_crypt_line(#[trigger] lines(content@)[j]),
        decreases ls@.len() - i,
    {
        if contains_chars(&ls[i], &marker) {
            assert(is_crypt_line(lines(content@)[i as int]));
            return true;
        }
        i = i + 1;
    }
    false
}

/// The file patterns that `.gitattributes` routes through git-crypt.
pub fn git_crypt_patterns(content: &str) -> (r: Vec<String>)
    ensures
        arg_views(r@) == crypt_patterns_of(lines(content@)),
{
    let v = chars_of(content);
    let ls = lines_of(&v);
    let ghost gl = lines(content@);
    let marker = chars_of("filter=git-crypt");
    let mut out: Vec<String> = Vec::new();
    let mut i: usize = 0;
    assert(gl.take(0) =~= Seq::<Seq<char>>::empty());
    assert(arg_views(out@) =~= Seq::<Seq<char>>::empty());
    while i < ls.len()
        invariant
            i <= ls@.len() == gl.len(),
            v@ == content@,
            gl == lines(content@),
            marker@ == "filter=git-crypt"@,
            forall|j: int| 0 <= j < ls@.len() ==> (#[trigger] ls@[j])@ == gl[j],
            arg_views(out@) == crypt_patterns_of(gl.take(i as int)),
        decreases ls@.len() - i,
    {
        proof {
            assert(gl.take(i + 1).drop_last() =~= gl.take(i as int));
            assert(gl.take(i + 1).last() == gl[i as int]);
        }
        if contains_chars(&ls[i], &marker) {
            let ws = words_of(&ls[i]);
            if ws.len() > 0 {
                let ghost before = arg_views(out@);
                out.push(string_from_chars(&ws[0]));
                assert(arg_views(out@) =~= before.push(ws@[0]@));
            }
        }
        i = i + 1;
    }
    assert(gl.take(gl.len() as int) =~= gl);
    out
}

/// The ten-byte header that git-crypt writes at the start of an encrypted file.
pub open spec fn git_crypt_magic() -> Seq<u8> {
    seq![0u8, 71u8, 73u8, 84u8, 67u8, 82u8, 89u8, 80u8, 84u8, 0u8]
}

/// Whether the first bytes of a file mark it as still encrypted: at least ten
/// bytes are present and they are the git-crypt header.
pub fn is_git_crypt_header(prefix: &[u8]) -> (r: bool)
    ensures
        r == (prefix@.len() >= 10 && prefix@.take(10) == git_crypt_magic()),
{
    if prefix.len() < 10 {
        return false;
    }
    let magic: [u8; 10] = [0u8, 71u8, 73u8, 84u8, 67u8, 82u8, 89u8, 80u8, 84u8, 0u8];
    let mut i: usize = 0;
    while i < 10
        invariant
            i <= 10 <= prefix@.len(),
            magic@ == git_crypt_magic(),
            forall|j: int| 0 <= j < i ==> prefix@[j] == git_crypt_magic()[j],
        decreases 10 - i,
    {
        if prefix[i] != magic[i] {
            assert(prefix@.take(10)[i as int] != git_crypt_magic()[i as int]);
            return false;
        }
        i = i + 1;
    }
    assert(prefix@.take(10) =~= git_crypt_magic());
    true
}

} // verus!
