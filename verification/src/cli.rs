//! The command-line tool's decisions: reading each subcommand's
//! arguments, checking a hook payload, where a hook's worktree goes, and
//! the text each command prints.
//!
//! A refused command line yields the lines to report (without the
//! `[iso-code] ` prefix the tool puts before each); the tool then exits with
//! status 1.
use vstd::prelude::*;

use crate::git::{parse_u32, parse_u32_chars};
use crate::guards::path_parent;
use crate::seqs::{split_chars, split_seq};
use crate::state::join_path;
use crate::text::{chars_of, decimal, has_prefix, push_chars, push_decimal, push_str, string_from_chars};
use crate::types::{state_name, GcOptions, GcReport, WorktreeHandle};

verus! {

/// The views of a list of strings.
pub open spec fn texts(v: Seq<String>) -> Seq<Seq<char>> {
    v.map_values(|s: String| s@)
}

fn text_concat(a: &str, b: &str) -> (s: String)
    ensures
        s@ == a@ + b@,
{
    let mut out = chars_of(a);
    push_str(&mut out, b);
    string_from_chars(&out)
}

fn one_line(s: String) -> (v: Vec<String>)
    ensures
        texts(v@) == seq![s@],
{
    let mut v: Vec<String> = Vec::new();
    v.push(s);
    assert(texts(v@) =~= seq![v@[0]@]);
    v
}

// ── wt hook ─────────────────────────────────────────────────────────────

/// The options of `wt hook`.
#[derive(Debug, Clone)]
pub struct HookArgs {
    pub setup: bool,
    pub stdin_format: String,
}

/// How `wt hook` reads `args` from position `i` on, given what it has read
/// so far: `--stdin-format <value>` and `--setup`, anything else refused.
pub open spec fn hook_scan(args: Seq<Seq<char>>, i: int, setup: bool, format: Seq<char>) -> Result<(bool, Seq<char>), Seq<char>>
    decreases args.len() - i,
{
    if i < 0 || i >= args.len() {
        Ok((setup, format))
    } else if args[i] == "--stdin-format"@ {
        if i + 1 < args.len() {
            hook_scan(args, i + 2, setup, args[i + 1])
        } else {
            Err("--stdin-format requires a value"@)
        }
    } else if args[i] == "--setup"@ {
        hook_scan(args, i + 1, true, format)
    } else {
        Err("Unknown flag: "@ + args[i])
    }
}

/// What `wt hook` makes of its arguments: the options, or the line it
/// reports; only the one `supported` input format is accepted.
pub open spec fn hook_args_result(args: Seq<Seq<char>>, supported: Seq<char>) -> Result<(bool, Seq<char>), Seq<char>> {
    match hook_scan(args, 0, false, Seq::empty()) {
        Ok((setup, format)) => if format == supported {
            Ok((setup, format))
        } else {
            Err("Unsupported --stdin-format: "@ + format + ". Only '"@ + supported + "' is supported."@)
        },
        Err(m) => Err(m),
    }
}

/// Read the arguments of `wt hook`.
pub fn parse_hook_args(args: &Vec<String>, supported: &str) -> (r: Result<HookArgs, Vec<String>>)
    ensures
        match hook_args_result(texts(args@), supported@) {
            Ok((setup, format)) => r matches Ok(h) && h.setup == setup && h.stdin_format@ == format,
            Err(m) => r matches Err(lines) && texts(lines@) == seq![m],
        },
{
    let ghost a = texts(args@);
    let mut setup = false;
    let mut format = String::new();
    let mut i: usize = 0;
    while i < args.len()
        invariant
            a == texts(args@),
            a.len() == args@.len(),
            i <= args@.len(),
            hook_scan(a, 0, false, Seq::empty()) == hook_scan(a, i as int, setup, format@),
        decreases args@.len() - i,
    {
        let arg = args[i].as_str();
        assert(a[i as int] == arg@);
        if crate::text::str_is(arg, "--stdin-format") {
            if i + 1 < args.len() {
                format = args[i + 1].clone();
                i = i + 2;
            } else {
                return Err(one_line("--stdin-format requires a value".to_owned()));
            }
        } else if crate::text::str_is(arg, "--setup") {
            setup = true;
            i = i + 1;
        } else {
            return Err(one_line(text_concat("Unknown flag: ", arg)));
        }
    }
    if !crate::text::str_is(format.as_str(), supported) {
        let mut out = chars_of("Unsupported --stdin-format: ");
        push_str(&mut out, format.as_str());
        push_str(&mut out, ". Only '");
        push_str(&mut out, supported);
        push_str(&mut out, "' is supported.");
        return Err(one_line(string_from_chars(&out)));
    }
    Ok(HookArgs { setup, stdin_format: format })
}

/// Whether a branch has a `.` or `..` segment between its slashes.
pub open spec fn has_traversal(branch: Seq<char>) -> bool {
    let segs = split_seq(branch, seq!['/']);
    exists|i: int| 0 <= i < segs.len() && (#[trigger] segs[i] == ".."@ || segs[i] == "."@)
}

/// Check a hook payload: a name and a working directory are required, and
/// the name (the branch) must not traverse directories.
pub fn check_hook_payload(name: &str, cwd: &str) -> (r: Result<(), Vec<String>>)
    ensures
        match r {
            Ok(()) => name@.len() > 0 && cwd@.len() > 0 && !has_traversal(name@),
            Err(lines) => texts(lines@) == seq![
                if name@.len() == 0 {
                    "'name' field is required in hook payload"@
                } else if cwd@.len() == 0 {
                    "'cwd' field is required in hook payload"@
                } else {
                    "branch name contains path traversal: "@ + name@
                },
            ] && (name@.len() == 0 || cwd@.len() == 0 || has_traversal(name@)),
        },
{
    if name.is_empty() {
        return Err(one_line("'name' field is required in hook payload".to_owned()));
    }
    if cwd.is_empty() {
        return Err(one_line("'cwd' field is required in hook payload".to_owned()));
    }
    let segs = split_chars(&chars_of(name), '/');
    let dotdot = chars_of("..");
    let dot = chars_of(".");
    let ghost sv = segs@.map_values(|p: Vec<char>| p@);
    let mut i: usize = 0;
    while i < segs.len()
        invariant
            i <= segs@.len(),
            sv == segs@.map_values(|p: Vec<char>| p@),
            sv == split_seq(name@, seq!['/']),
            dotdot@ == ".."@,
            dot@ == "."@,
            name@.len() > 0,
            cwd@.len() > 0,
            forall|j: int| 0 <= j < i ==> !(#[trigger] sv[j] == ".."@ || sv[j] == "."@),
        decreases segs@.len() - i,
    {
        assert(sv[i as int] == segs@[i as int]@);
        if crate::text::chars_eq(&segs[i], &dotdot) || crate::text::chars_eq(&segs[i], &dot) {
            return Err(one_line(text_concat("branch name contains path traversal: ", name)));
        }
        i = i + 1;
    }
    Ok(())
}

/// The directory a hook creates for `branch` next to the repository: the
/// branch with each `/` turned into `-`, under the repository's parent (or
/// the repository itself when it has none).
pub open spec fn hook_worktree_path_of(repo_root: Seq<char>, branch: Seq<char>) -> Seq<char> {
    let slug = branch.map_values(|c: char| if c == '/' { '-' } else { c });
    let base = match path_parent(repo_root) {
        Some(p) => p,
        None => repo_root,
    };
    join_path(base, slug)
}

/// Where a hook creates the worktree for `branch`.
pub fn hook_worktree_path(repo_root: &str, branch: &str) -> (p: String)
    ensures
        p@ == hook_worktree_path_of(repo_root@, branch@),
{
    let b = chars_of(branch);
    let mut slug: Vec<char> = Vec::new();
    let mut i: usize = 0;
    while i < b.len()
        invariant
            i <= b@.len(),
            slug@ == b@.take(i as int).map_values(|c: char| if c == '/' { '-' } else { c }),
        decreases b@.len() - i,
    {
        let c = b[i];
        slug.push(if c == '/' { '-' } else { c });
        proof {
            assert(slug@ =~= b@.take(i as int + 1).map_values(|c: char| if c == '/' { '-' } else { c }));
        }
        i = i + 1;
    }
    proof {
        assert(b@.take(b@.len() as int) =~= b@);
    }
    let base = match crate::guards::path_parent_exec(repo_root) {
        Some(p) => p,
        None => repo_root.to_owned(),
    };
    let mut out = chars_of(base.as_str());
    let n = out.len();
    if n != 0 && out[n - 1] != '/' {
        out.push('/');
    }
    push_chars(&mut out, &slug);
    proof {
        assert(out@ =~= join_path(base@, slug@));
    }
    string_from_chars(&out)
}

// ── wt create ───────────────────────────────────────────────────────────

/// The usage line of `wt create`.
pub open spec fn create_usage() -> Seq<char> {
    "Usage: wt create <branch> <path> [--setup] [--port]"@
}

/// The arguments of `wt create`.
#[derive(Debug, Clone)]
pub struct CreateArgs {
    pub branch: String,
    pub path: String,
    pub setup: bool,
    pub allocate_port: bool,
}

/// Whether an argument is a flag (starts with `--`).
pub open spec fn is_flag(a: Seq<char>) -> bool {
    has_prefix(a, "--"@)
}

/// How `wt create` reads `args` from position `i` on: `--setup` and
/// `--port` set their options, another flag is refused (with the usage
/// line), anything else is positional.
pub open spec fn create_scan(args: Seq<Seq<char>>, i: int, setup: bool, port: bool, pos: Seq<Seq<char>>) -> Result<
    (bool, bool, Seq<Seq<char>>),
    Seq<Seq<char>>,
>
    decreases args.len() - i,
{
    if i < 0 || i >= args.len() {
        Ok((setup, port, pos))
    } else if args[i] == "--setup"@ {
        create_scan(args, i + 1, true, port, pos)
    } else if args[i] == "--port"@ {
        create_scan(args, i + 1, setup, true, pos)
    } else if is_flag(args[i]) {
        Err(seq!["Unknown flag: "@ + args[i], create_usage()])
    } else {
        create_scan(args, i + 1, setup, port, pos.push(args[i]))
    }
}

/// What `wt create` makes of its arguments: exactly two positionals
/// (branch, path) with the options, or the lines it reports.
pub open spec fn create_args_result(args: Seq<Seq<char>>) -> Result<(Seq<char>, Seq<char>, bool, bool), Seq<Seq<char>>> {
    match create_scan(args, 0, false, false, Seq::empty()) {
        Ok((setup, port, pos)) => if pos.len() == 2 {
            Ok((pos[0], pos[1], setup, port))
        } else {
            Err(seq![create_usage()])
        },
        Err(lines) => Err(lines),
    }
}

/// Read the arguments of `wt create <branch> <path> [--setup] [--port]`.
pub fn parse_create_args(args: &Vec<String>) -> (r: Result<CreateArgs, Vec<String>>)
    ensures
        match create_args_result(texts(args@)) {
            Ok((branch, path, setup, port)) => r matches Ok(c) && c.branch@ == branch && c.path@ == path && c.setup == setup
                && c.allocate_port == port,
            Err(lines) => r matches Err(out) && texts(out@) == lines,
        },
{
    let ghost a = texts(args@);
    let mut setup = false;
    let mut port = false;
    let mut positional: Vec<String> = Vec::new();
    let mut i: usize = 0;
    assert(texts(positional@) =~= Seq::<Seq<char>>::empty());
    while i < args.len()
        invariant
            a == texts(args@),
            a.len() == args@.len(),
            i <= args@.len(),
            create_scan(a, 0, false, false, Seq::empty()) == create_scan(a, i as int, setup, port, texts(positional@)),
        decreases args@.len() - i,
    {
        let arg = args[i].as_str();
        assert(a[i as int] == arg@);
        if crate::text::str_is(arg, "--setup") {
            setup = true;
        } else if crate::text::str_is(arg, "--port") {
            port = true;
        } else {
            let flag_prefix = chars_of("--");
            if crate::text::starts_with_chars(&chars_of(arg), &flag_prefix) {
                let mut lines: Vec<String> = Vec::new();
                lines.push(text_concat("Unknown flag: ", arg));
                lines.push(create_usage_text().to_owned());
                assert(texts(lines@) =~= seq!["Unknown flag: "@ + a[i as int], create_usage()]);
                return Err(lines);
            }
            let ghost before = positional@;
            positional.push(args[i].clone());
            assert(texts(positional@) =~= texts(before).push(a[i as int]));
        }
        i = i + 1;
    }
    if positional.len() != 2 {
        return Err(one_line(create_usage_text().to_owned()));
    }
    let path = positional.pop().unwrap();
    let branch = positional.pop().unwrap();
    Ok(CreateArgs { branch, path, setup, allocate_port: port })
}

fn create_usage_text() -> (s: &'static str)
    ensures
        s@ == create_usage(),
{
    "Usage: wt create <branch> <path> [--setup] [--port]"
}

// ── wt list / wt status ─────────────────────────────────────────────────

/// How `wt list` / `wt status` read `args` from position `i` on: `--json`
/// sets JSON output, another flag is refused, the first other argument is
/// the repository, a second one is refused.
pub open spec fn repo_json_scan(args: Seq<Seq<char>>, i: int, usage: Seq<char>, json: bool, repo: Option<Seq<char>>) -> Result<
    (bool, Option<Seq<char>>),
    Seq<Seq<char>>,
>
    decreases args.len() - i,
{
    if i < 0 || i >= args.len() {
        Ok((json, repo))
    } else if args[i] == "--json"@ {
        repo_json_scan(args, i + 1, usage, true, repo)
    } else if is_flag(args[i]) {
        Err(seq!["Unknown flag: "@ + args[i], "Usage: "@ + usage])
    } else if repo is None {
        repo_json_scan(args, i + 1, usage, json, Some(args[i]))
    } else {
        Err(seq!["Usage: "@ + usage])
    }
}

/// The optional repository and the `--json` switch of `wt list` / `wt
/// status` (whose usage line is `usage`); without a repository the tool
/// works in its current directory.
pub fn parse_repo_and_json_args(args: &Vec<String>, usage: &str) -> (r: Result<(Option<String>, bool), Vec<String>>)
    ensures
        match repo_json_scan(texts(args@), 0, usage@, false, None) {
            Ok((json, repo)) => r matches Ok(p) && p.1 == json && crate::state::opt_string_view(p.0) == repo,
            Err(lines) => r matches Err(out) && texts(out@) == lines,
        },
{
    let ghost a = texts(args@);
    let mut json = false;
    let mut repo: Option<String> = None;
    let mut i: usize = 0;
    while i < args.len()
        invariant
            a == texts(args@),
            a.len() == args@.len(),
            i <= args@.len(),
            repo_json_scan(a, 0, usage@, false, None) == repo_json_scan(a, i as int, usage@, json,
                crate::state::opt_string_view(repo)),
        decreases args@.len() - i,
    {
        let arg = args[i].as_str();
        assert(a[i as int] == arg@);
        if crate::text::str_is(arg, "--json") {
            json = true;
        } else {
            let flag_prefix = chars_of("--");
            if crate::text::starts_with_chars(&chars_of(arg), &flag_prefix) {
                let mut lines: Vec<String> = Vec::new();
                lines.push(text_concat("Unknown flag: ", arg));
                lines.push(text_concat("Usage: ", usage));
                assert(texts(lines@) =~= seq!["Unknown flag: "@ + a[i as int], "Usage: "@ + usage@]);
                return Err(lines);
            }
            if repo.is_none() {
                repo = Some(args[i].clone());
            } else {
                return Err(one_line(text_concat("Usage: ", usage)));
            }
        }
        i = i + 1;
    }
    Ok((repo, json))
}

// ── wt delete / wt attach ───────────────────────────────────────────────

/// The single path argument of `wt delete` / `wt attach`, or the usage
/// line `usage` when there is not exactly one argument.
pub fn parse_single_path(args: &Vec<String>, usage: &str) -> (r: Result<String, Vec<String>>)
    ensures
        match r {
            Ok(p) => args@.len() == 1 && p@ == args@[0]@,
            Err(lines) => args@.len() != 1 && texts(lines@) == seq!["Usage: "@ + usage@],
        },
{
    if args.len() != 1 {
        return Err(one_line(text_concat("Usage: ", usage)));
    }
    Ok(args[0].clone())
}

// ── wt gc ───────────────────────────────────────────────────────────────

/// How `wt gc` reads `args` from position `i` on: `--run` turns the dry run
/// off, `--force` skips the unmerged-commit check, `--max-age-days <n>`
/// sets the age limit (a `u32`), anything else is refused.
pub open spec fn gc_scan(args: Seq<Seq<char>>, i: int, dry_run: bool, force: bool, max_age: Option<u32>) -> Result<
    (bool, bool, Option<u32>),
    Seq<char>,
>
    decreases args.len() - i,
{
    if i < 0 || i >= args.len() {
        Ok((dry_run, force, max_age))
    } else if args[i] == "--run"@ {
        gc_scan(args, i + 1, false, force, max_age)
    } else if args[i] == "--force"@ {
        gc_scan(args, i + 1, dry_run, true, max_age)
    } else if args[i] == "--max-age-days"@ {
        if i + 1 >= args.len() {
            Err("--max-age-days requires a value"@)
        } else {
            match parse_u32(args[i + 1]) {
                Some(n) => gc_scan(args, i + 2, dry_run, force, Some(n)),
                None => Err("invalid --max-age-days: "@ + args[i + 1]),
            }
        }
    } else {
        Err("Unknown flag: "@ + args[i])
    }
}

/// A text starting with `-` is no number.
proof fn lemma_dash_is_no_number(s: Seq<char>)
    requires
        s.len() > 0,
        s[0] == '-',
    ensures
        parse_u32(s) is None,
{
    assert(!crate::git::is_digit(s[0]));
}

/// Whether `x` is among the arguments from position `i` on.
pub open spec fn occurs_from(args: Seq<Seq<char>>, i: int, x: Seq<char>) -> bool {
    exists|j: int| i <= j < args.len() && #[trigger] args[j] == x
}

proof fn lemma_occurs_step(args: Seq<Seq<char>>, i: int, x: Seq<char>)
    requires
        0 <= i < args.len(),
    ensures
        occurs_from(args, i, x) == (args[i] == x || occurs_from(args, i + 1, x)),
{
    if occurs_from(args, i, x) {
        let j = choose|j: int| i <= j < args.len() && #[trigger] args[j] == x;
        if j > i {
            assert(i + 1 <= j < args.len() && args[j] == x);
        }
    }
    if occurs_from(args, i + 1, x) {
        let j = choose|j: int| i + 1 <= j < args.len() && #[trigger] args[j] == x;
        assert(i <= j < args.len() && args[j] == x);
    }
    if args[i] == x {
        assert(i <= i < args.len() && args[i] == x);
    }
}

/// What `gc_scan` ends with from position `i`: a dry run exactly when it
/// started as one and no `--run` follows, forced exactly when it started so
/// or a `--force` follows.
proof fn lemma_gc_scan_flags(args: Seq<Seq<char>>, i: int, dry_run: bool, force: bool, max_age: Option<u32>)
    requires
        0 <= i,
    ensures
        gc_scan(args, i, dry_run, force, max_age) matches Ok((d, f, _m)) ==> d == (dry_run && !occurs_from(
            args,
            i,
            "--run"@,
        )) && f == (force || occurs_from(args, i, "--force"@)),
    decreases args.len() - i,
{
    reveal_strlit("--run");
    reveal_strlit("--force");
    reveal_strlit("--max-age-days");
    if i < args.len() {
        lemma_occurs_step(args, i, "--run"@);
        lemma_occurs_step(args, i, "--force"@);
        if args[i] == "--run"@ {
            lemma_gc_scan_flags(args, i + 1, false, force, max_age);
        } else if args[i] == "--force"@ {
            lemma_gc_scan_flags(args, i + 1, dry_run, true, max_age);
        } else if args[i] == "--max-age-days"@ {
            if i + 1 < args.len() {
                lemma_occurs_step(args, i + 1, "--run"@);
                lemma_occurs_step(args, i + 1, "--force"@);
                if args[i + 1] == "--run"@ {
                    lemma_dash_is_no_number(args[i + 1]);
                }
                if args[i + 1] == "--force"@ {
                    lemma_dash_is_no_number(args[i + 1]);
                }
                match parse_u32(args[i + 1]) {
                    Some(n) => {
                        lemma_gc_scan_flags(args, i + 2, dry_run, force, Some(n));
                    },
                    None => {},
                }
            }
        }
    } else {
        assert(!occurs_from(args, i, "--run"@));
        assert(!occurs_from(args, i, "--force"@));
    }
}

/// The age limit `gc_scan` ends with from position `i`: the one it started
/// with unless a `--max-age-days` follows, and then the value given after
/// such a flag.
proof fn lemma_gc_scan_max_age(args: Seq<Seq<char>>, i: int, dry_run: bool, force: bool, max_age: Option<u32>)
    requires
        0 <= i,
    ensures
        gc_scan(args, i, dry_run, force, max_age) matches Ok((_d, _f, m)) ==> (m is Some <==> (max_age is Some
            || occurs_from(args, i, "--max-age-days"@))) && (m matches Some(n) ==> (m == max_age || exists|j: int|
            i <= j && j + 1 < args.len() && #[trigger] args[j] == "--max-age-days"@ && parse_u32(args[j + 1])
                == Some(n))),
    decreases args.len() - i,
{
    reveal_strlit("--run");
    reveal_strlit("--force");
    reveal_strlit("--max-age-days");
    if i < args.len() {
        lemma_occurs_step(args, i, "--max-age-days"@);
        if args[i] == "--run"@ {
            lemma_gc_scan_max_age(args, i + 1, false, force, max_age);
        } else if args[i] == "--force"@ {
            lemma_gc_scan_max_age(args, i + 1, dry_run, true, max_age);
        } else if args[i] == "--max-age-days"@ {
            if i + 1 < args.len() {
                lemma_occurs_step(args, i + 1, "--max-age-days"@);
                if args[i + 1] == "--max-age-days"@ {
                    lemma_dash_is_no_number(args[i + 1]);
                }
                match parse_u32(args[i + 1]) {
                    Some(n) => {
                        lemma_gc_scan_max_age(args, i + 2, dry_run, force, Some(n));
                        assert(i <= i && i + 1 < args.len() && args[i] == "--max-age-days"@ && parse_u32(args[i + 1])
                            == Some(n));
                    },
                    None => {},
                }
            }
        }
    } else {
        assert(!occurs_from(args, i, "--max-age-days"@));
    }
}

/// `wt gc` keeps the configured age limit unless `--max-age-days` is given:
/// whenever its arguments are accepted, an age limit is set exactly when
/// that flag is among them, and it is the number given after one of them.
pub proof fn lemma_gc_max_age_from_flag(args: Seq<Seq<char>>)
    ensures
        gc_scan(args, 0, true, false, None) matches Ok((_d, _f, m)) ==> (m is Some <==> args.contains(
            "--max-age-days"@,
        )) && (m matches Some(n) ==> exists|j: int|
            0 <= j && j + 1 < args.len() && #[trigger] args[j] == "--max-age-days"@ && parse_u32(args[j + 1])
                == Some(n)),
{
    lemma_gc_scan_max_age(args, 0, true, false, None);
    if args.contains("--max-age-days"@) {
        let j = choose|j: int| 0 <= j < args.len() && args[j] == "--max-age-days"@;
        assert(0 <= j < args.len() && args[j] == "--max-age-days"@);
    }
    if occurs_from(args, 0, "--max-age-days"@) {
        let j = choose|j: int| 0 <= j < args.len() && #[trigger] args[j] == "--max-age-days"@;
        assert(args[j] == "--max-age-days"@);
    }
}

/// `wt gc` is a dry run unless `--run` is given: whenever its arguments are
/// accepted, the collection is real exactly when `--run` is among them, and
/// forced exactly when `--force` is; no other flag changes either.
pub proof fn lemma_gc_dry_run_unless_run(args: Seq<Seq<char>>)
    ensures
        gc_scan(args, 0, true, false, None) matches Ok((d, f, _m)) ==> (!d <==> args.contains("--run"@)) && (f
            <==> args.contains("--force"@)),
{
    lemma_gc_scan_flags(args, 0, true, false, None);
    if args.contains("--run"@) {
        let j = choose|j: int| 0 <= j < args.len() && args[j] == "--run"@;
        assert(0 <= j < args.len() && args[j] == "--run"@);
    }
    if occurs_from(args, 0, "--run"@) {
        let j = choose|j: int| 0 <= j < args.len() && #[trigger] args[j] == "--run"@;
        assert(args[j] == "--run"@);
    }
    if args.contains("--force"@) {
        let j = choose|j: int| 0 <= j < args.len() && args[j] == "--force"@;
        assert(0 <= j < args.len() && args[j] == "--force"@);
    }
    if occurs_from(args, 0, "--force"@) {
        let j = choose|j: int| 0 <= j < args.len() && #[trigger] args[j] == "--force"@;
        assert(args[j] == "--force"@);
    }
}

/// Read the arguments of `wt gc [--run] [--force] [--max-age-days N]`,
/// starting from the library's default (a dry run).
pub fn parse_gc_args(args: &Vec<String>) -> (r: Result<GcOptions, Vec<String>>)
    ensures
        match gc_scan(texts(args@), 0, true, false, None) {
            Ok((dry_run, force, max_age)) => r matches Ok(o) && o.dry_run == dry_run && o.force == force && o.max_age_days
                == max_age,
            Err(m) => r matches Err(out) && texts(out@) == seq![m],
        },
{
    let ghost a = texts(args@);
    let mut opts = GcOptions { dry_run: true, max_age_days: None, force: false };
    let mut i: usize = 0;
    while i < args.len()
        invariant
            a == texts(args@),
            a.len() == args@.len(),
            i <= args@.len(),
            gc_scan(a, 0, true, false, None) == gc_scan(a, i as int, opts.dry_run, opts.force, opts.max_age_days),
        decreases args@.len() - i,
    {
        let arg = args[i].as_str();
        assert(a[i as int] == arg@);
        if crate::text::str_is(arg, "--run") {
            opts.dry_run = false;
            i = i + 1;
        } else if crate::text::str_is(arg, "--force") {
            opts.force = true;
            i = i + 1;
        } else if crate::text::str_is(arg, "--max-age-days") {
            if i + 1 >= args.len() {
                return Err(one_line("--max-age-days requires a value".to_owned()));
            }
            let value = args[i + 1].as_str();
            assert(a[i + 1] == value@);
            match parse_u32_chars(&chars_of(value)) {
                Some(n) => {
                    opts.max_age_days = Some(n);
                    i = i + 2;
                },
                None => {
                    return Err(one_line(text_concat("invalid --max-age-days: ", value)));
                },
            }
        } else {
            return Err(one_line(text_concat("Unknown flag: ", arg)));
        }
    }
    Ok(opts)
}

// ── Output ──────────────────────────────────────────────────────────────

/// A port as shown: its number, or `-` without one.
pub open spec fn port_text(port: Option<u16>) -> Seq<char> {
    match port {
        Some(p) => decimal(p as nat),
        None => "-"@,
    }
}

/// Render a port for display.
pub fn display_port(port: Option<u16>) -> (s: String)
    ensures
        s@ == port_text(port),
{
    match port {
        Some(p) => {
            let mut out: Vec<char> = Vec::new();
            push_decimal(&mut out, p as u64);
            string_from_chars(&out)
        },
        None => "-".to_owned(),
    }
}

/// `s` padded with spaces on the right to at least `width` characters.
pub open spec fn pad_right(s: Seq<char>, width: nat) -> Seq<char> {
    if s.len() < width {
        s + Seq::new((width - s.len()) as nat, |_i: int| ' ')
    } else {
        s
    }
}

fn push_padded(out: &mut Vec<char>, s: &str, width: usize)
    ensures
        final(out)@ == old(out)@ + pad_right(s@, width as nat),
{
    let c = chars_of(s);
    push_chars(out, &c);
    let mut k = c.len();
    let ghost base = old(out)@ + s@;
    while k < width
        invariant
            c@ == s@,
            c@.len() <= k <= width || (k == c@.len() && k >= width),
            out@ == base + Seq::new((k - c@.len()) as nat, |_i: int| ' '),
        decreases width - k,
    {
        out.push(' ');
        k = k + 1;
        proof {
            assert(out@ =~= base + Seq::new((k - c@.len()) as nat, |_i: int| ' '));
        }
    }
    proof {
        if s@.len() < width {
            assert(out@ =~= old(out)@ + pad_right(s@, width as nat));
        } else {
            assert(out@ =~= old(out)@ + pad_right(s@, width as nat));
        }
    }
}

/// The line `wt list` prints for a worktree: path, branch in brackets,
/// state, and port.
pub open spec fn list_line_text(h: WorktreeHandle) -> Seq<char> {
    h.path@ + " ["@ + h.branch@ + "] "@ + state_name(h.state) + " port="@ + port_text(h.port)
}

/// The line `wt list` prints for a worktree.
pub fn list_line(h: &WorktreeHandle) -> (s: String)
    ensures
        s@ == list_line_text(*h),
{
    let mut out = chars_of(h.path.as_str());
    push_str(&mut out, " [");
    push_str(&mut out, h.branch.as_str());
    push_str(&mut out, "] ");
    push_str(&mut out, h.state.name());
    push_str(&mut out, " port=");
    let p = display_port(h.port);
    push_str(&mut out, p.as_str());
    string_from_chars(&out)
}

/// The header of `wt status`'s table.
pub open spec fn status_header_text() -> Seq<char> {
    pad_right("STATE"@, 8) + " "@ + pad_right("PORT"@, 8) + " "@ + pad_right("BRANCH"@, 28) + " PATH"@
}

/// The header of `wt status`'s table.
pub fn status_header() -> (s: String)
    ensures
        s@ == status_header_text(),
{
    let mut out: Vec<char> = Vec::new();
    push_padded(&mut out, "STATE", 8);
    push_str(&mut out, " ");
    push_padded(&mut out, "PORT", 8);
    push_str(&mut out, " ");
    push_padded(&mut out, "BRANCH", 28);
    push_str(&mut out, " PATH");
    string_from_chars(&out)
}

/// A row of `wt status`'s table: state, port, branch (padded columns), path.
pub open spec fn status_line_text(h: WorktreeHandle) -> Seq<char> {
    pad_right(state_name(h.state), 8) + " "@ + pad_right(port_text(h.port), 8) + " "@ + pad_right(h.branch@, 28) + " "@
        + h.path@
}

/// A row of `wt status`'s table.
pub fn status_line(h: &WorktreeHandle) -> (s: String)
    ensures
        s@ == status_line_text(*h),
{
    let mut out: Vec<char> = Vec::new();
    push_padded(&mut out, h.state.name(), 8);
    push_str(&mut out, " ");
    let p = display_port(h.port);
    push_padded(&mut out, p.as_str(), 8);
    push_str(&mut out, " ");
    push_padded(&mut out, h.branch.as_str(), 28);
    push_str(&mut out, " ");
    push_str(&mut out, h.path.as_str());
    string_from_chars(&out)
}

/// The tag `wt gc` puts before each reported path.
pub open spec fn gc_tag(dry_run: bool) -> Seq<char> {
    if dry_run { "dry-run"@ } else { "gc"@ }
}

/// The lines `wt gc` prints: each orphan, then each evicted, then each
/// removed worktree, tagged.
pub open spec fn gc_report_text(r: GcReport) -> Seq<Seq<char>> {
    let tag = gc_tag(r.dry_run);
    texts(r.orphans@).map_values(|p: Seq<char>| tagged(tag, "orphan: "@, p)) + texts(r.evicted@).map_values(
        |p: Seq<char>| tagged(tag, "evict:  "@, p),
    ) + texts(r.removed@).map_values(|p: Seq<char>| tagged(tag, "remove: "@, p))
}

/// A reported path: `[<tag>] <label><path>`.
pub open spec fn tagged(tag: Seq<char>, label: Seq<char>, p: Seq<char>) -> Seq<char> {
    "["@ + tag + "] "@ + label + p
}

fn tagged_lines(out: &mut Vec<String>, tag: &str, label: &str, paths: &Vec<String>)
    ensures
        texts(final(out)@) == texts(old(out)@) + texts(paths@).map_values(|p: Seq<char>| tagged(tag@, label@, p)),
{
    let ghost start = texts(out@);
    let mut i: usize = 0;
    while i < paths.len()
        invariant
            i <= paths@.len(),
            texts(out@) == start + texts(paths@.take(i as int)).map_values(|p: Seq<char>| tagged(tag@, label@, p)),
        decreases paths@.len() - i,
    {
        let mut c = chars_of("[");
        push_str(&mut c, tag);
        push_str(&mut c, "] ");
        push_str(&mut c, label);
        push_str(&mut c, paths[i].as_str());
        let ghost before = texts(out@);
        out.push(string_from_chars(&c));
        proof {
            assert(texts(paths@.take(i as int + 1)) =~= texts(paths@.take(i as int)).push(paths@[i as int]@));
            assert(texts(out@) =~= before.push(c@));
            assert(texts(out@) =~= start + texts(paths@.take(i as int + 1)).map_values(|p: Seq<char>| tagged(tag@, label@, p)));
        }
        i = i + 1;
    }
    proof {
        assert(paths@.take(paths@.len() as int) =~= paths@);
    }
}

/// The path lines `wt gc` prints for a report.
pub fn gc_report_lines(r: &GcReport) -> (lines: Vec<String>)
    ensures
        texts(lines@) =~= gc_report_text(*r),
{
    let tag = if r.dry_run { "dry-run" } else { "gc" };
    let mut out: Vec<String> = Vec::new();
    assert(texts(out@) =~= Seq::<Seq<char>>::empty());
    tagged_lines(&mut out, tag, "orphan: ", &r.orphans);
    tagged_lines(&mut out, tag, "evict:  ", &r.evicted);
    tagged_lines(&mut out, tag, "remove: ", &r.removed);
    proof {
        assert(tag@ == gc_tag(r.dry_run));
    }
    out
}

/// The summary line of `wt gc`.
pub open spec fn gc_summary_text(r: GcReport) -> Seq<char> {
    "gc summary: orphans="@ + decimal(r.orphans@.len()) + " evicted="@ + decimal(r.evicted@.len()) + " removed="@ + decimal(
        r.removed@.len(),
    ) + " freed_bytes="@ + decimal(r.freed_bytes as nat) + if r.dry_run { " (dry run)"@ } else { ""@ }
}

/// The summary line of `wt gc`.
pub fn gc_summary(r: &GcReport) -> (s: String)
    ensures
        s@ == gc_summary_text(*r),
{
    let mut out = chars_of("gc summary: orphans=");
    push_decimal(&mut out, r.orphans.len() as u64);
    push_str(&mut out, " evicted=");
    push_decimal(&mut out, r.evicted.len() as u64);
    push_str(&mut out, " removed=");
    push_decimal(&mut out, r.removed.len() as u64);
    push_str(&mut out, " freed_bytes=");
    push_decimal(&mut out, r.freed_bytes);
    if r.dry_run {
        push_str(&mut out, " (dry run)");
    } else {
        push_str(&mut out, "");
    }
    string_from_chars(&out)
}

// ── Subcommands ─────────────────────────────────────────────────────────

/// The subcommands of `wt`.
#[derive(Debug, Clone, Copy, PartialEq, Eq, Structural)]
pub enum Subcommand {
    Hook,
    List,
    Status,
    Create,
    Delete,
    Attach,
    Gc,
}

/// The subcommand named by the first argument after the program name, or
/// the lines reported for a missing or unknown one.
pub fn subcommand(args: &Vec<String>) -> (r: Result<Subcommand, Vec<String>>)
    ensures
        args@.len() < 2 ==> (r matches Err(lines) && texts(lines@) == seq![
            "Usage: wt <subcommand> [args]"@,
            "Subcommands: hook, list, status, create, delete, attach, gc"@,
        ]),
        args@.len() >= 2 ==> match r {
            Ok(c) => args@[1]@ == (match c {
                Subcommand::Hook => "hook"@,
                Subcommand::List => "list"@,
                Subcommand::Status => "status"@,
                Subcommand::Create => "create"@,
                Subcommand::Delete => "delete"@,
                Subcommand::Attach => "attach"@,
                Subcommand::Gc => "gc"@,
            }),
            Err(lines) => texts(lines@) == seq!["Unknown subcommand: "@ + args@[1]@] && args@[1]@ != "hook"@
                && args@[1]@ != "list"@ && args@[1]@ != "status"@ && args@[1]@ != "create"@ && args@[1]@ != "delete"@
                && args@[1]@ != "attach"@ && args@[1]@ != "gc"@,
        },
{
    if args.len() < 2 {
        let mut lines: Vec<String> = Vec::new();
        lines.push("Usage: wt <subcommand> [args]".to_owned());
        lines.push("Subcommands: hook, list, status, create, delete, attach, gc".to_owned());
        assert(texts(lines@) =~= seq![
            "Usage: wt <subcommand> [args]"@,
            "Subcommands: hook, list, status, create, delete, attach, gc"@,
        ]);
        return Err(lines);
    }
    let a = args[1].as_str();
    if crate::text::str_is(a, "hook") {
        Ok(Subcommand::Hook)
    } else if crate::text::str_is(a, "list") {
        Ok(Subcommand::List)
    } else if crate::text::str_is(a, "status") {
        Ok(Subcommand::Status)
    } else if crate::text::str_is(a, "create") {
        Ok(Subcommand::Create)
    } else if crate::text::str_is(a, "delete") {
        Ok(Subcommand::Delete)
    } else if crate::text::str_is(a, "attach") {
        Ok(Subcommand::Attach)
    } else if crate::text::str_is(a, "gc") {
        Ok(Subcommand::Gc)
    } else {
        Err(one_line(text_concat("Unknown subcommand: ", a)))
    }
}

} // verus!
