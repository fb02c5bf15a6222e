use iso_code::config::{build_adapter, load_config};
use iso_code::adapter::{build_env_pairs, shell_outcome, ShellPoll};
use iso_code::{
    Adapter, AdapterConfig, CapturedEnv, CliConfig, DefaultAdapter, EnvVars, ReflinkMode, SetupContext,
    ShellCommandAdapter, WorktreeError,
};

#[test]
fn env_vars_as_pairs_contains_all_11_keys() {
    let env = EnvVars {
        path: "/tmp/wt".to_string(),
        branch: "feature".to_string(),
        repo: "/tmp/repo".to_string(),
        name: "test".to_string(),
        port: "3100".to_string(),
        uuid: "uuid-1".to_string(),
    };
    let keys: Vec<&str> = env.as_pairs().iter().map(|(k, _)| *k).collect();
    assert_eq!(keys.len(), 11);
    for expected in [
        "ISO_CODE_PATH",
        "ISO_CODE_BRANCH",
        "ISO_CODE_REPO",
        "ISO_CODE_NAME",
        "ISO_CODE_PORT",
        "ISO_CODE_UUID",
        "CCMANAGER_WORKTREE_PATH",
        "CCMANAGER_BRANCH_NAME",
        "CCMANAGER_GIT_ROOT",
        "WM_WORKTREE_PATH",
        "WM_PROJECT_ROOT",
    ] {
        assert!(keys.contains(&expected), "missing env key: {expected}");
    }
}

#[test]
fn compatibility_aliases_mirror_canonical_values() {
    let env = EnvVars {
        path: "/abs/wt".to_string(),
        branch: "b".to_string(),
        repo: "/abs/repo".to_string(),
        name: "n".to_string(),
        port: String::new(),
        uuid: "u".to_string(),
    };
    let m: std::collections::HashMap<&str, &str> = env.as_pairs().into_iter().collect();
    assert_eq!(m["CCMANAGER_WORKTREE_PATH"], m["ISO_CODE_PATH"]);
    assert_eq!(m["CCMANAGER_BRANCH_NAME"], m["ISO_CODE_BRANCH"]);
    assert_eq!(m["CCMANAGER_GIT_ROOT"], m["ISO_CODE_REPO"]);
    assert_eq!(m["WM_WORKTREE_PATH"], m["ISO_CODE_PATH"]);
    assert_eq!(m["WM_PROJECT_ROOT"], m["ISO_CODE_REPO"]);
}

#[test]
fn name_returns_default() {
    let adapter = DefaultAdapter::new(vec![]);
    assert_eq!(adapter.name(), "default");
}

#[test]
fn name_returns_shell_command() {
    assert_eq!(ShellCommandAdapter::default().name(), "shell-command");
}

#[test]
fn shell_adapter_builders() {
    let a = ShellCommandAdapter::new()
        .with_post_create("npm install".to_string())
        .with_pre_delete("npm run cleanup".to_string())
        .with_post_delete("echo done".to_string())
        .with_timeout_ms(5_000);
    assert_eq!(a.post_create.as_deref(), Some("npm install"));
    assert_eq!(a.pre_delete.as_deref(), Some("npm run cleanup"));
    assert_eq!(a.post_delete.as_deref(), Some("echo done"));
    assert_eq!(a.timeout_ms, 5_000);
    assert_eq!(ShellCommandAdapter::new().timeout_ms, 120_000);
}

#[test]
fn setup_context_carries_reflink_mode() {
    assert_eq!(SetupContext::new(ReflinkMode::Disabled).reflink_mode, ReflinkMode::Disabled);
    assert_eq!(SetupContext::default().reflink_mode, ReflinkMode::Preferred);
}

#[test]
fn shell_env_with_and_without_captured_values() {
    let captured = CapturedEnv {
        branch: "b".to_string(),
        repo: "/r".to_string(),
        name: "n".to_string(),
        port: "3101".to_string(),
        uuid: "u".to_string(),
    };
    let full = build_env_pairs("/wt", Some(&captured));
    assert_eq!(full.len(), 11);
    assert_eq!(full[0], ("ISO_CODE_PATH".to_string(), "/wt".to_string()));
    assert_eq!(full[4], ("ISO_CODE_PORT".to_string(), "3101".to_string()));
    assert_eq!(full[10], ("WM_PROJECT_ROOT".to_string(), "/r".to_string()));
    let bare = build_env_pairs("/wt", None);
    assert_eq!(
        bare,
        vec![
            ("ISO_CODE_PATH".to_string(), "/wt".to_string()),
            ("CCMANAGER_WORKTREE_PATH".to_string(), "/wt".to_string()),
            ("WM_WORKTREE_PATH".to_string(), "/wt".to_string()),
        ]
    );
}

#[test]
fn project_config_wins_over_user_config() {
    let local = CliConfig { adapter: Some(AdapterConfig::Default { files_to_copy: vec![".env".to_string()] }) };
    let user = CliConfig {
        adapter: Some(AdapterConfig::ShellCommand {
            post_create: Some("make".to_string()),
            pre_delete: None,
            post_delete: None,
            timeout_ms: None,
        }),
    };
    let c = load_config(Some(local), Some(user.clone()));
    assert!(matches!(c.adapter, Some(AdapterConfig::Default { .. })));
    let c = load_config(None, Some(user));
    assert!(matches!(c.adapter, Some(AdapterConfig::ShellCommand { .. })));
    assert!(load_config(None, None).adapter.is_none());
}

#[test]
fn adapters_built_from_config() {
    let shell = build_adapter(&AdapterConfig::ShellCommand {
        post_create: Some("npm install".to_string()),
        pre_delete: None,
        post_delete: Some("echo bye".to_string()),
        timeout_ms: Some(60_000),
    });
    match shell {
        Adapter::Shell(a) => {
            assert_eq!(a.post_create.as_deref(), Some("npm install"));
            assert!(a.pre_delete.is_none());
            assert_eq!(a.post_delete.as_deref(), Some("echo bye"));
            assert_eq!(a.timeout_ms, 60_000);
        }
        other => panic!("unexpected {other:?}"),
    }
    match build_adapter(&AdapterConfig::Default { files_to_copy: vec![".env".to_string(), ".env.local".to_string()] }) {
        Adapter::Copy(d) => assert_eq!(d.files_to_copy, vec![".env", ".env.local"]),
        other => panic!("unexpected {other:?}"),
    }
}

#[test]
fn successful_shell_command_is_ok_whatever_it_printed() {
    let poll = ShellPoll::Exited { success: true, code: Some(0), stderr: "warning\n".to_string() };
    assert!(shell_outcome(poll, "shell-command", "post_create", 1000).is_ok());
}

#[test]
fn failed_shell_command_carries_code_and_trimmed_stderr() {
    let poll = ShellPoll::Exited { success: false, code: Some(3), stderr: "  boom\n\t".to_string() };
    match shell_outcome(poll, "shell-command", "post_create", 1000) {
        Err(WorktreeError::ShellCommandFailed { exit_code, stderr }) => {
            assert_eq!(exit_code, 3);
            assert_eq!(stderr, "boom");
        }
        other => panic!("expected ShellCommandFailed, got {other:?}"),
    }
}

#[test]
fn shell_command_ended_by_signal_reports_minus_one() {
    let poll = ShellPoll::Exited { success: false, code: None, stderr: String::new() };
    match shell_outcome(poll, "shell-command", "pre_delete", 1000) {
        Err(WorktreeError::ShellCommandFailed { exit_code, stderr }) => {
            assert_eq!(exit_code, -1);
            assert_eq!(stderr, "");
        }
        other => panic!("expected ShellCommandFailed, got {other:?}"),
    }
}

#[test]
fn overdue_shell_command_is_a_timeout_of_its_phase() {
    match shell_outcome(ShellPoll::TimedOut, "shell-command", "post_delete", 250) {
        Err(WorktreeError::AdapterTimeout { adapter, phase, timeout_ms }) => {
            assert_eq!(adapter, "shell-command");
            assert_eq!(phase, "post_delete");
            assert_eq!(timeout_ms, 250);
        }
        other => panic!("expected AdapterTimeout, got {other:?}"),
    }
}
