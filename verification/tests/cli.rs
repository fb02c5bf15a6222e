use iso_code::cli::{
    check_hook_payload, display_port, gc_report_lines, gc_summary, hook_worktree_path, list_line, parse_create_args,
    parse_gc_args, parse_hook_args, parse_repo_and_json_args, parse_single_path, status_header, status_line,
    subcommand, Subcommand,
};
use iso_code::{GcReport, WorktreeHandle, WorktreeState};

fn strings(v: &[&str]) -> Vec<String> {
    v.iter().map(|s| s.to_string()).collect()
}

fn joined(lines: &[String]) -> String {
    lines.join("\n")
}

fn handle(path: &str, branch: &str, state: WorktreeState, port: Option<u16>) -> WorktreeHandle {
    WorktreeHandle::new(
        path.to_string(),
        branch.to_string(),
        "abc".to_string(),
        state,
        String::new(),
        0,
        String::new(),
        None,
        false,
        port,
        String::new(),
    )
}

#[test]
fn create_rejects_extra_positional_args() {
    let r = parse_create_args(&strings(&["feature/auth", "/tmp/some/path", "extra-arg"]));
    assert!(r.is_err());
    let stderr = joined(&r.unwrap_err());
    assert!(stderr.contains("Usage: wt create <branch> <path>"), "stderr: {stderr}");
}

#[test]
fn delete_rejects_extra_positional_args() {
    let r = parse_single_path(&strings(&["/tmp/some/path", "extra-arg"]), "wt delete <path>");
    assert!(r.is_err());
    let stderr = joined(&r.unwrap_err());
    assert!(stderr.contains("Usage: wt delete <path>"), "stderr: {stderr}");
}

#[test]
fn attach_rejects_extra_positional_args() {
    let r = parse_single_path(&strings(&["/tmp/some/path", "extra-arg"]), "wt attach <path>");
    assert!(r.is_err());
    let stderr = joined(&r.unwrap_err());
    assert!(stderr.contains("Usage: wt attach <path>"), "stderr: {stderr}");
}

#[test]
fn create_rejects_unquoted_path_with_spaces() {
    let r = parse_create_args(&strings(&["feature/auth", "/Users/kg/Documents/Documents", "-", "kg/projects/foo/bar"]));
    assert!(r.is_err());
    let stderr = joined(&r.unwrap_err());
    assert!(stderr.contains("Usage: wt create <branch> <path>"), "stderr: {stderr}");
    assert!(!stderr.contains("already exists"), "stderr: {stderr}");
}

#[test]
fn create_rejects_too_few_args() {
    let r = parse_create_args(&strings(&["only-one"]));
    assert!(r.is_err());
    let stderr = joined(&r.unwrap_err());
    assert!(stderr.contains("Usage: wt create <branch> <path>"), "stderr: {stderr}");
}

#[test]
fn delete_rejects_zero_args() {
    let r = parse_single_path(&Vec::new(), "wt delete <path>");
    assert!(r.is_err());
    let stderr = joined(&r.unwrap_err());
    assert!(stderr.contains("Usage: wt delete <path>"), "stderr: {stderr}");
}

#[test]
fn attach_rejects_zero_args() {
    let r = parse_single_path(&Vec::new(), "wt attach <path>");
    assert!(r.is_err());
    let stderr = joined(&r.unwrap_err());
    assert!(stderr.contains("Usage: wt attach <path>"), "stderr: {stderr}");
}

const FORMAT: &str = "agent-hook";

#[test]
fn hook_rejects_unsupported_stdin_format() {
    let r = parse_hook_args(&strings(&["--stdin-format", "mystery-format"]), FORMAT);
    assert!(r.is_err());
    assert_eq!(
        r.unwrap_err(),
        vec!["Unsupported --stdin-format: mystery-format. Only 'agent-hook' is supported.".to_string()]
    );
}

#[test]
fn hook_args_accept_the_supported_format_with_setup() {
    let h = parse_hook_args(&strings(&["--setup", "--stdin-format", FORMAT]), FORMAT).unwrap();
    assert!(h.setup);
    assert_eq!(h.stdin_format, FORMAT);
}

#[test]
fn hook_args_report_missing_format_value_and_unknown_flags() {
    assert_eq!(parse_hook_args(&strings(&["--stdin-format"]), FORMAT).unwrap_err(), vec!["--stdin-format requires a value"]);
    assert_eq!(parse_hook_args(&strings(&["--verbose"]), FORMAT).unwrap_err(), vec!["Unknown flag: --verbose"]);
    assert!(parse_hook_args(&Vec::new(), FORMAT).is_err());
}

#[test]
fn hook_payload_checks_name_cwd_and_traversal() {
    assert!(check_hook_payload("feature/auth", "/repo").is_ok());
    assert_eq!(check_hook_payload("", "/repo").unwrap_err(), vec!["'name' field is required in hook payload"]);
    assert_eq!(check_hook_payload("x", "").unwrap_err(), vec!["'cwd' field is required in hook payload"]);
    assert_eq!(
        check_hook_payload("a/../b", "/repo").unwrap_err(),
        vec!["branch name contains path traversal: a/../b"]
    );
    assert!(check_hook_payload("./x", "/repo").is_err());
    assert!(check_hook_payload("a..b/c", "/repo").is_ok());
}

#[test]
fn hook_path_flattens_slashes_next_to_the_repo() {
    assert_eq!(hook_worktree_path("/work/repo", "feature/auth"), "/work/feature-auth");
    assert_eq!(hook_worktree_path("/work/repo", "main"), "/work/main");
}

#[test]
fn create_args_read_flags_and_positionals() {
    let c = parse_create_args(&strings(&["--port", "feat", "/tmp/wt", "--setup"])).unwrap();
    assert_eq!(c.branch, "feat");
    assert_eq!(c.path, "/tmp/wt");
    assert!(c.setup);
    assert!(c.allocate_port);
    let e = parse_create_args(&strings(&["--bogus", "a", "b"])).unwrap_err();
    assert_eq!(e, vec!["Unknown flag: --bogus", "Usage: wt create <branch> <path> [--setup] [--port]"]);
}

#[test]
fn repo_and_json_args() {
    let usage = "wt list [--json] [repo]";
    assert_eq!(parse_repo_and_json_args(&strings(&["--json", "/r"]), usage).unwrap(), (Some("/r".to_string()), true));
    assert_eq!(parse_repo_and_json_args(&Vec::new(), usage).unwrap(), (None, false));
    assert_eq!(parse_repo_and_json_args(&strings(&["/a", "/b"]), usage).unwrap_err(), vec!["Usage: wt list [--json] [repo]"]);
    assert_eq!(
        parse_repo_and_json_args(&strings(&["--x"]), usage).unwrap_err(),
        vec!["Unknown flag: --x", "Usage: wt list [--json] [repo]"]
    );
}

#[test]
fn gc_args_default_to_a_dry_run() {
    let o = parse_gc_args(&Vec::new()).unwrap();
    assert!(o.dry_run);
    assert!(!o.force);
    assert_eq!(o.max_age_days, None);
    let o = parse_gc_args(&strings(&["--run", "--force", "--max-age-days", "3"])).unwrap();
    assert!(!o.dry_run);
    assert!(o.force);
    assert_eq!(o.max_age_days, Some(3));
    assert_eq!(parse_gc_args(&strings(&["--max-age-days"])).unwrap_err(), vec!["--max-age-days requires a value"]);
    assert_eq!(
        parse_gc_args(&strings(&["--max-age-days", "x"])).unwrap_err(),
        vec!["invalid --max-age-days: x"]
    );
    assert_eq!(parse_gc_args(&strings(&["--nope"])).unwrap_err(), vec!["Unknown flag: --nope"]);
}

#[test]
fn list_and_status_lines() {
    let h = handle("/w/a", "feat", WorktreeState::Active, Some(3105));
    assert_eq!(list_line(&h), "/w/a [feat] Active port=3105");
    assert_eq!(display_port(None), "-");
    assert_eq!(status_header(), "STATE    PORT     BRANCH                       PATH");
    let h2 = handle("/w/b", "b", WorktreeState::Locked, None);
    assert_eq!(status_line(&h2), "Locked   -        b                            /w/b");
}

#[test]
fn gc_report_lines_and_summary() {
    let r = GcReport::new(
        vec!["/o".to_string()],
        vec!["/r".to_string()],
        vec!["/e".to_string()],
        2048,
        true,
    );
    assert_eq!(
        gc_report_lines(&r),
        vec!["[dry-run] orphan: /o", "[dry-run] evict:  /e", "[dry-run] remove: /r"]
    );
    assert_eq!(gc_summary(&r), "gc summary: orphans=1 evicted=1 removed=1 freed_bytes=2048 (dry run)");
    let r2 = GcReport::new(Vec::new(), Vec::new(), Vec::new(), 0, false);
    assert!(gc_report_lines(&r2).is_empty());
    assert_eq!(gc_summary(&r2), "gc summary: orphans=0 evicted=0 removed=0 freed_bytes=0");
}

#[test]
fn subcommands_route_by_name() {
    assert_eq!(subcommand(&strings(&["wt", "gc"])).unwrap(), Subcommand::Gc);
    assert_eq!(subcommand(&strings(&["wt", "hook"])).unwrap(), Subcommand::Hook);
    assert_eq!(subcommand(&strings(&["wt", "frob"])).unwrap_err(), vec!["Unknown subcommand: frob"]);
    assert_eq!(
        subcommand(&strings(&["wt"])).unwrap_err(),
        vec!["Usage: wt <subcommand> [args]", "Subcommands: hook, list, status, create, delete, attach, gc"]
    );
}
