use std::collections::HashMap;
use std::path::Path;

use taarof_app::mise::cache::{
    cached_task_discovery, complete_task_discovery, complete_tool_version_chip,
    prepare_task_discovery, tool_version_chip_text_for_target, CachedTaskDiscovery, DiscoveryCache,
    TaskDiscoveryRequest, DISCOVERY_TTL_NANOS,
};
use taarof_app::mise::chip::{
    compact_tool_version, format_tool_version_chip, parse_tool_versions_json,
    remote_tool_versions_argv, tool_version_chip, wants_tool_versions, ToolVersionEntry,
};
use taarof_app::mise::local::{
    classify_task_scope, filter_tasks_for_target, find_mise, needs_mise_lookup, offered_tasks,
    resolve_local_mise_binary, retry_busy_binary, update_discovery_binary_cache, MiseSearch,
};
use taarof_app::mise::remote::{
    remote_mise_run_command, remote_mise_shell_command, remote_shell_respawn_command, shell_quote,
    ssh_command_with_remote_exec, ssh_destination_host, ssh_destination_index,
    ssh_supports_remote_exec,
};
use taarof_app::mise::tasks::{
    remote_task_list_argv, standard_actions_from_tasks, task_buttons_from_tasks,
    task_post_exit_respawn, task_shell_command, task_spawn_config,
};
use taarof_app::mise::{
    best_discovery_dir, classify_unresolved_signals, discovery_dir, discovery_target,
    discovery_target_for_tab, discovery_target_for_workspace, host_is_local,
    local_discovery_dir_from, resolve_discovery_target_from_signals, same_task_target,
    task_target_for_tab, task_target_label, tmux_backing_cwd, DirProbe, DiscoveryTarget,
    DiscoveryTargetFailure, MiseTask, MiseTaskScope, PaneDiscoverySignals, Surroundings,
    REMOTE_DEFAULT_CWD,
};
use taarof_app::pane::{PaneNode, TmuxBacking};
use taarof_app::paths::{ancestor_paths, parent_path, path_components, path_file_name};
use taarof_app::probe::ProbeSnapshot;
use taarof_app::tmux::{TmuxPaneInfo, TmuxTarget};
use taarof_app::workspace::{
    AppState, Tab, TabKind, Workspace, WorkspaceAction, WorkspaceActionInfo,
};

/// The name of the machine that the tests stand on.
const LOCAL: &str = "workstation.example";

fn texts(list: &[&str]) -> Vec<String> {
    list.iter().map(|s| s.to_string()).collect()
}

fn task(name: &str, source: Option<&str>, global: bool) -> MiseTask {
    MiseTask {
        name: name.to_string(),
        description: String::new(),
        hide: false,
        source: source.map(str::to_string),
        global,
    }
}

#[test]
fn test_tmux_backing_cwd_uses_probe_metadata() {
    let mut pane_info = ProbeSnapshot::default();
    pane_info.record_success(TmuxPaneInfo {
        current_command: "agent".into(),
        cwd: "/tmp/user/projects/example/project-workspace".into(),
        pid: 42,
        width: 120,
        height: 40,
        session_id: "$1".into(),
        session_created: 1,
        continuity_id: Some("11".repeat(16)),
    });
    let backing = TmuxBacking {
        session_name: "taarof--sample--t18--0".into(),
        target: TmuxTarget::Local,
        expected_generation: None,
        pane_info,
    };

    assert_eq!(
        tmux_backing_cwd(&backing).as_deref(),
        Some("/tmp/user/projects/example/project-workspace")
    );
}

#[test]
fn test_classify_task_scope_project_root() {
    let discovery_root = "/tmp/workspace/project";
    let task = MiseTask {
        name: "test".into(),
        description: String::new(),
        hide: false,
        source: Some("/tmp/workspace/project/.mise.toml".into()),
        global: false,
    };

    assert_eq!(
        classify_task_scope(&task, discovery_root),
        MiseTaskScope::ProjectRoot
    );
}

#[test]
fn test_classify_task_scope_parent_dir() {
    let discovery_root = "/tmp/workspace/project";
    let task = MiseTask {
        name: "test".into(),
        description: String::new(),
        hide: false,
        source: Some("/tmp/workspace/.mise.toml".into()),
        global: false,
    };

    assert_eq!(
        classify_task_scope(&task, discovery_root),
        MiseTaskScope::ParentDir
    );
}

#[test]
fn test_filter_tasks_for_target_excludes_global_by_default() {
    let discovery_root = "/tmp/workspace/project".to_string();
    let listed = vec![
        task("test", Some("/tmp/workspace/project/.mise.toml"), false),
        task("plan", Some("/tmp/user/.config/mise/config.toml"), true),
    ];
    let target = DiscoveryTarget::Local {
        cwd: discovery_root,
        binary_path: None,
    };
    let filtered = filter_tasks_for_target(listed.clone(), &target, false);

    let names: Vec<_> = filtered.iter().map(|task| task.name.as_str()).collect();
    assert_eq!(names, vec!["test"]);
    assert_eq!(filter_tasks_for_target(listed.clone(), &target, true), listed);
}

#[test]
fn hidden_tasks_are_not_offered() {
    let mut hidden = task("secret", None, false);
    hidden.hide = true;
    let target = DiscoveryTarget::Local { cwd: "/p".into(), binary_path: None };
    let offered = offered_tasks(vec![hidden, task("open", None, false)], &target, false);
    assert_eq!(offered.len(), 1);
    assert_eq!(offered[0].name, "open");
}

fn infos() -> Vec<WorkspaceActionInfo> {
    [
        (WorkspaceAction::Dev, "dev", "Dev Server"),
        (WorkspaceAction::Test, "test", "Test"),
        (WorkspaceAction::Build, "build", "Build"),
    ]
    .iter()
    .map(|(action, name, label)| WorkspaceActionInfo {
        action: *action,
        task_name: name.to_string(),
        label: label.to_string(),
        compact_label: name.to_string(),
    })
    .collect()
}

#[test]
fn test_project_config_pins_task_buttons() {
    let tasks = vec![
        task("fmt", None, false),
        task("lint", None, false),
        task("test", None, false),
    ];
    let pinned = Some(vec!["lint".to_string(), "fmt".to_string()]);

    let buttons = task_buttons_from_tasks(&tasks, pinned, &infos());

    assert_eq!(buttons.len(), 2);
    assert_eq!(buttons[0].label, "lint");
    assert_eq!(buttons[0].task_name, "lint");
    assert_eq!(buttons[1].label, "fmt");
    assert_eq!(buttons[1].task_name, "fmt");
}

#[test]
fn standard_actions_stand_in_for_pinned_tasks() {
    let tasks = vec![task("build", None, false), task("dev", None, false)];
    let actions: Vec<_> = standard_actions_from_tasks(&tasks, &infos())
        .iter()
        .map(|info| info.action)
        .collect();
    assert_eq!(actions, vec![WorkspaceAction::Dev, WorkspaceAction::Build]);
    let buttons = task_buttons_from_tasks(&tasks, None, &infos());
    assert_eq!(buttons[0].label, "Dev Server");
    assert_eq!(buttons[0].task_name, "dev");
    let missing = task_buttons_from_tasks(&tasks, Some(texts(&["nope"])), &infos());
    assert!(missing.is_empty());
}

#[test]
fn test_ssh_command_with_remote_exec_adds_remote_command() {
    let argv = ssh_command_with_remote_exec(
        &texts(&["ssh", "-p", "2222", "user@example"]),
        "echo hello".into(),
        true,
        &[],
    )
    .unwrap();

    assert_eq!(
        argv,
        vec!["ssh", "-tt", "-p", "2222", "user@example", "echo hello",]
    );
}

#[test]
fn test_ssh_command_with_remote_exec_strips_captured_positional_command() {
    let argv = ssh_command_with_remote_exec(
        &texts(&[
            "ssh",
            "-tt",
            "developer@host",
            "cd '/srv/app' && exec \"$SHELL\"",
        ]),
        "echo probe".into(),
        false,
        &["-o", "BatchMode=yes"],
    )
    .unwrap();

    assert_eq!(
        argv,
        vec![
            "ssh",
            "-o",
            "BatchMode=yes",
            "-tt",
            "developer@host",
            "echo probe",
        ]
    );
}

#[test]
fn remote_commands_need_an_ssh_client_and_a_destination() {
    assert!(ssh_supports_remote_exec(&texts(&["/usr/bin/autossh", "h"])));
    assert!(!ssh_supports_remote_exec(&texts(&["mosh", "h"])));
    assert!(!ssh_supports_remote_exec(&Vec::new()));
    assert_eq!(
        ssh_command_with_remote_exec(&texts(&["ssh", "-p", "22"]), "x".into(), true, &[]),
        None
    );
    assert_eq!(
        ssh_command_with_remote_exec(&texts(&["mosh", "h"]), "x".into(), true, &[]),
        None
    );
    // A settled terminal is not forced again.
    assert_eq!(
        ssh_command_with_remote_exec(&texts(&["ssh", "-T", "h", "old"]), "x".into(), true, &["-q"]),
        Some(texts(&["ssh", "-q", "-T", "h", "x"]))
    );
}

#[test]
fn test_ssh_destination_index_handles_value_flags() {
    let argv = texts(&["ssh", "-p", "2222", "-i", "/k", "host", "trailing"]);
    assert_eq!(ssh_destination_index(&argv), Some(5));
}

#[test]
fn test_ssh_destination_index_handles_clustered_and_attached_flags() {
    let argv = texts(&["ssh", "-tt", "-p2222", "user@host"]);
    assert_eq!(ssh_destination_index(&argv), Some(3));
}

#[test]
fn destination_follows_the_end_of_options() {
    assert_eq!(ssh_destination_index(&texts(&["ssh", "--", "-h"])), Some(2));
    assert_eq!(ssh_destination_index(&texts(&["ssh", "--"])), None);
    assert_eq!(ssh_destination_index(&texts(&["ssh", "-"])), Some(1));
    assert_eq!(ssh_destination_index(&texts(&["ssh", "-v", "-p"])), None);
    assert_eq!(ssh_destination_index(&texts(&["ssh"])), None);
    assert_eq!(ssh_destination_index(&texts(&["ssh", ""])), Some(1));
}

#[test]
fn test_remote_mise_shell_command_quotes_arguments() {
    let command = remote_mise_shell_command("/srv/app's", &["run", "--raw", "dev"]);

    assert!(command.contains("cd '/srv/app'\\''s'"));
    assert!(command.contains("exec \"$MISE_BIN\" 'run' '--raw' 'dev'"));
}

#[test]
fn test_remote_mise_run_command_quotes_arguments() {
    let command = remote_mise_run_command("/srv/app's", &["run", "--raw", "dev"]);

    assert!(command.contains("cd '/srv/app'\\''s'"));
    assert!(command.contains("\"$MISE_BIN\" 'run' '--raw' 'dev'"));
    assert!(!command.contains("exec \"$MISE_BIN\""));
    assert_eq!(
        command,
        "MISE_BIN=$(command -v mise || true); if [ -z \"$MISE_BIN\" ] && [ -x \"$HOME/.local/bin/mise\" ]; then MISE_BIN=\"$HOME/.local/bin/mise\"; fi; [ -n \"$MISE_BIN\" ] || exit 127; cd '/srv/app'\\''s' && \"$MISE_BIN\" 'run' '--raw' 'dev'"
    );
}

#[test]
fn test_remote_task_shell_command_resolves_binary_path() {
    let target = DiscoveryTarget::Remote {
        host: "example.com".into(),
        cwd: "/srv/app".into(),
        ssh_argv: vec!["ssh".into(), "example.com".into()],
    };

    let command = task_shell_command(&target, "app:test", None).unwrap();

    assert!(command.contains("cd '/srv/app'"));
    assert!(command.contains("\"$MISE_BIN\" 'run' '--raw' 'app:test'"));
}

#[test]
fn test_remote_shell_respawn_command_preserves_cwd() {
    let command = remote_shell_respawn_command("/srv/app's");

    assert!(command.contains("cd '/srv/app'\\''s'"));
    assert!(command.contains("exec \"$SHELL\""));
}

#[test]
fn local_tasks_run_with_the_resolved_binary() {
    let target = DiscoveryTarget::Local {
        cwd: "/p".into(),
        binary_path: Some("/opt/mise".into()),
    };
    let binary = resolve_local_mise_binary(&Some("/opt/mise".to_string()), Some("/other".into()));
    assert_eq!(
        task_spawn_config(&target, "app:test", binary.clone()),
        Some((
            Some("/p".to_string()),
            texts(&["/opt/mise", "run", "--raw", "app:test"])
        ))
    );
    assert_eq!(
        task_shell_command(&target, "app:test", binary),
        Some("'/opt/mise' run --raw 'app:test'".to_string())
    );
    assert_eq!(
        resolve_local_mise_binary(&None, Some("/other".into())),
        Some("/other".to_string())
    );
    assert_eq!(task_spawn_config(&target, "app:test", None), None);
    assert_eq!(task_shell_command(&target, "app:test", None), None);
    assert_eq!(task_post_exit_respawn(&target), None);
}

#[test]
fn remote_tasks_run_over_the_targets_connection() {
    let target = DiscoveryTarget::Remote {
        host: "h".into(),
        cwd: "/srv".into(),
        ssh_argv: texts(&["ssh", "-p", "22", "u@h", "old command"]),
    };
    let (dir, argv) = task_spawn_config(&target, "dev", None).unwrap();
    assert_eq!(dir, None);
    assert_eq!(argv[..6], texts(&["ssh", "-tt", "-q", "-p", "22", "u@h"])[..]);
    assert_eq!(argv.len(), 7);
    assert!(argv[6].ends_with("cd '/srv' && exec \"$MISE_BIN\" 'run' '--raw' 'dev'"));
    let respawn = task_post_exit_respawn(&target).unwrap();
    assert_eq!(respawn.working_dir, None);
    assert!(respawn.argv[6].starts_with("cd '/srv' && if"));
    let list = remote_task_list_argv("/srv", &texts(&["ssh", "h"])).unwrap();
    assert_eq!(list[..4], texts(&["ssh", "-o", "BatchMode=yes", "h"])[..]);
    assert!(list[4].ends_with("exec \"$MISE_BIN\" 'tasks' 'ls' '--json'"));
    let versions = remote_tool_versions_argv("/srv", &texts(&["ssh", "h"])).unwrap();
    assert!(versions[4].ends_with(
        "cd '/srv' && (\"$MISE_BIN\" current --json 2>/dev/null || \"$MISE_BIN\" ls --current --json)"
    ));
}

#[test]
fn mise_is_found_in_a_fixed_order() {
    let mut search = MiseSearch {
        override_path: Some("/env/mise".into()),
        which_output: Some(" /path/mise\n".into()),
        in_usr_bin: true,
        in_usr_local_bin: true,
        home: Some("/home/u".into()),
        in_home: true,
    };
    assert_eq!(find_mise(&search).as_deref(), Some("/env/mise"));
    search.override_path = Some(String::new());
    assert_eq!(find_mise(&search).as_deref(), Some("/path/mise"));
    search.which_output = Some("  \n".into());
    assert_eq!(find_mise(&search).as_deref(), Some("/usr/bin/mise"));
    search.in_usr_bin = false;
    assert_eq!(find_mise(&search).as_deref(), Some("/usr/local/bin/mise"));
    search.in_usr_local_bin = false;
    assert_eq!(find_mise(&search).as_deref(), Some("/home/u/.local/bin/mise"));
    search.in_home = false;
    assert_eq!(find_mise(&search), None);
    assert!(retry_busy_binary(true, 19));
    assert!(!retry_busy_binary(true, 20));
    assert!(!retry_busy_binary(false, 0));
}

fn empty_state() -> AppState {
    AppState {
        workspaces: vec![workspace(1)],
        active_workspace: 1,
        next_id: 10,
        discovery_binary_paths: HashMap::new(),
        headless_panes: HashMap::new(),
        pending_tab_restores: HashMap::new(),
        last_active_workspace: None,
        presented_dashboard: None,
        broadcast: None,
        chord: None,
        chord_generation: 0,
        background_section_collapsed: true,
    }
}

fn workspace(id: u32) -> Workspace {
    Workspace {
        id,
        name: format!("ws{id}"),
        work_origin: String::new(),
        tabs: Vec::new(),
        active_tab: 0,
        last_active_tab: None,
        repo_root: None,
        working_tree_path: None,
        branch_name: None,
        is_worktree: false,
        host_config_name: None,
        linked_issue: None,
        tmux_backed: false,
        collapsed: false,
    }
}

fn tab(id: u32, cwd: Option<&str>) -> Tab {
    Tab {
        id,
        name: "Shell".into(),
        work_origin: String::new(),
        kind: TabKind::Terminal,
        panes: Box::new(PaneNode::Stub { pane_id: 7 }),
        focused_pane_id: 7,
        next_pane_id: 8,
        needs_attention: false,
        notification_msg: None,
        discovery_cwd: cwd.map(str::to_string),
        discovered_actions: Vec::new(),
    }
}

/// Looks for mise only where a lookup is needed, and counts the lookups.
fn discover(state: &mut AppState, tab_id: u32, target: &DiscoveryTarget, found: &str, calls: &mut u32) {
    let lookup = if needs_mise_lookup(state, tab_id, target) {
        *calls += 1;
        Some(found.to_string())
    } else {
        None
    };
    update_discovery_binary_cache(state, tab_id, target, lookup);
}

#[test]
fn test_update_discovery_binary_cache_caches_resolved_path_for_execution() {
    let fake_mise = "/tmp/taarof-test-fake-mise".to_string();
    let mut calls = 0;

    let mut state = empty_state();
    let tab_id: u32 = 4242;

    let discovery_target = DiscoveryTarget::Local {
        cwd: "/tmp/taarof-test-project".to_string(),
        binary_path: None,
    };

    discover(&mut state, tab_id, &discovery_target, &fake_mise, &mut calls);

    assert_eq!(state.discovery_binary_paths.get(&tab_id), Some(&fake_mise));
    let after_first_resolve = calls;
    assert_eq!(after_first_resolve, 1);

    let cached_binary = state.discovery_binary_paths.get(&tab_id).cloned();
    let execution_target = DiscoveryTarget::Local {
        cwd: "/tmp/taarof-test-project".to_string(),
        binary_path: cached_binary.clone(),
    };
    let (_, argv) = task_spawn_config(
        &execution_target,
        "build",
        resolve_local_mise_binary(&cached_binary, None),
    )
    .expect("execution must build a command");

    assert_eq!(argv.first().map(String::as_str), Some(fake_mise.as_str()));
    assert_eq!(calls, after_first_resolve);

    discover(&mut state, tab_id, &discovery_target, "/tmp/other", &mut calls);
    assert_eq!(calls, after_first_resolve);
    assert_eq!(state.discovery_binary_paths.get(&tab_id), Some(&fake_mise));

    let remote_target = DiscoveryTarget::Remote {
        host: "example.com".into(),
        cwd: "/srv/app".into(),
        ssh_argv: vec!["ssh".into(), "example.com".into()],
    };
    discover(&mut state, tab_id, &remote_target, "/tmp/other", &mut calls);
    assert!(!state.discovery_binary_paths.contains_key(&tab_id));
}

#[test]
fn test_discovery_cache_is_scoped_per_target_and_expires() {
    let mut cache = DiscoveryCache::new();
    let now: u64 = 1_000_000_000_000;

    let first_target = DiscoveryTarget::Remote {
        host: "example.com".into(),
        cwd: "/srv/app".into(),
        ssh_argv: vec!["ssh".into(), "example.com".into()],
    };
    let second_target = DiscoveryTarget::Remote {
        host: "example.com".into(),
        cwd: "/srv/other".into(),
        ssh_argv: vec!["ssh".into(), "example.com".into()],
    };
    let tasks = vec![MiseTask {
        name: "app:test".into(),
        description: "test task".into(),
        hide: false,
        source: None,
        global: false,
    }];
    let second = 1_000_000_000;

    complete_task_discovery(
        &mut cache,
        &first_target,
        tasks.clone(),
        now - (DISCOVERY_TTL_NANOS - second),
    );

    assert_eq!(
        cached_task_discovery(&mut cache, &first_target, now),
        CachedTaskDiscovery::Ready(tasks)
    );
    assert_eq!(
        cached_task_discovery(&mut cache, &second_target, now),
        CachedTaskDiscovery::Missing
    );

    complete_task_discovery(
        &mut cache,
        &first_target,
        Vec::new(),
        now - (DISCOVERY_TTL_NANOS + second),
    );
    assert_eq!(
        cached_task_discovery(&mut cache, &first_target, now),
        CachedTaskDiscovery::Missing
    );
    assert!(cache.entries.is_empty());
}

#[test]
fn one_discovery_runs_at_a_time() {
    let mut cache = DiscoveryCache::new();
    let target = DiscoveryTarget::Local { cwd: "/p".into(), binary_path: None };
    let with_binary = DiscoveryTarget::Local {
        cwd: "/p".into(),
        binary_path: Some("/bin/mise".into()),
    };
    assert_eq!(prepare_task_discovery(&mut cache, &target, 5), TaskDiscoveryRequest::Start);
    assert_eq!(
        prepare_task_discovery(&mut cache, &with_binary, 6),
        TaskDiscoveryRequest::Pending
    );
    assert_eq!(cached_task_discovery(&mut cache, &target, 6), CachedTaskDiscovery::Pending);
    complete_task_discovery(&mut cache, &target, Vec::new(), 7);
    assert_eq!(prepare_task_discovery(&mut cache, &target, 8), TaskDiscoveryRequest::UseCached);
    assert_eq!(
        prepare_task_discovery(&mut cache, &target, 8 + DISCOVERY_TTL_NANOS),
        TaskDiscoveryRequest::Start
    );
    assert!(same_task_target(&target, &with_binary));
}

fn version(tool: &str, version: &str) -> ToolVersionEntry {
    ToolVersionEntry {
        tool: tool.to_string(),
        version: version.to_string(),
        source: Some("/p/.mise.toml".to_string()),
    }
}

fn configured(path: &str, marks: &[bool]) -> DirProbe {
    DirProbe {
        path: path.to_string(),
        is_dir: true,
        configured: marks.to_vec(),
    }
}

fn local_target(cwd: &str) -> DiscoveryTarget {
    DiscoveryTarget::Local { cwd: cwd.to_string(), binary_path: None }
}

#[test]
fn test_tool_version_chip_renders_top_three() {
    let chip = tool_version_chip(
        vec![
            version("node", "22.1.0"),
            version("python", "3.12.4"),
            version("rust", "1.81.0"),
            version("jq", "1.7.1"),
            version("gh", "2.45.0"),
        ],
        &local_target("/p"),
    );
    assert_eq!(chip.as_deref(), Some("node 22.1 • python 3.12 • rust 1.81"));
}

#[test]
fn test_tool_version_chip_omitted_when_no_mise() {
    let probes = vec![configured("/p", &[false, false])];
    assert!(!wants_tool_versions(&local_target("/p"), &probes));
    assert!(!wants_tool_versions(&local_target("/elsewhere"), &probes));
    let remote = DiscoveryTarget::Remote {
        host: "h".into(),
        cwd: "/p".into(),
        ssh_argv: texts(&["ssh", "h"]),
    };
    assert!(wants_tool_versions(&remote, &probes));
    assert_eq!(format_tool_version_chip(&Vec::new()), None);
}

#[test]
fn test_tool_version_chip_prioritizes_runtimes() {
    let chip = tool_version_chip(
        vec![
            version("gh", "2.45.0"),
            version("jq", "1.7.1"),
            version("rust", "1.81.0"),
            version("node", "22.1.0"),
        ],
        &local_target("/p"),
    );
    assert_eq!(chip.as_deref(), Some("node 22.1 • rust 1.81 • gh 2.45"));
}

#[test]
fn test_tool_version_chip_uses_cache_per_project() {
    let mut cache = DiscoveryCache::new();
    let probes = vec![
        configured("/p", &[true, false]),
        configured("/p/packages/app", &[false, false, true, false]),
    ];
    let root = local_target("/p");
    let nested = local_target("/p/packages/app");
    assert_eq!(
        tool_version_chip_text_for_target(&mut cache, &root, &probes, 1),
        (None, true)
    );
    assert_eq!(
        tool_version_chip_text_for_target(&mut cache, &nested, &probes, 2),
        (None, false)
    );
    complete_tool_version_chip(&mut cache, &root, &probes, Some("node 22.1".into()), 3);
    assert_eq!(
        tool_version_chip_text_for_target(&mut cache, &nested, &probes, 4),
        (Some("node 22.1".to_string()), false)
    );
    // A result that has gone bad is discovered anew.
    assert_eq!(
        tool_version_chip_text_for_target(&mut cache, &root, &probes, 4 + DISCOVERY_TTL_NANOS),
        (None, true)
    );
}

#[test]
fn versions_are_shown_compactly() {
    assert_eq!(compact_tool_version(" v22.1.0-rc1 "), "22.1");
    assert_eq!(compact_tool_version("vvlatest"), "latest");
    assert_eq!(compact_tool_version("1"), "1");
    assert_eq!(compact_tool_version("-x"), "");
    assert_eq!(compact_tool_version("a..b"), "a.");
}

#[test]
fn chip_orders_equal_ranks_by_name_and_keeps_the_given_order() {
    let chip = format_tool_version_chip(&vec![
        version("Zig", "0.13"),
        version("bun", "1.0"),
        version("BUN", "2.0"),
        version("Ruby", "3.3.1"),
    ]);
    assert_eq!(chip.as_deref(), Some("Ruby 3.3 • bun 1.0 • BUN 2.0"));
}

#[test]
fn versions_are_read_from_both_reports_of_mise() {
    let object = br#"{"node":[{"version":"22.1.0","source":{"path":"/p/.mise.toml"}},{"version":" "}],
        "go":{"requested_version":"1.22","source":"/p/mise.toml"},"bad":7}"#;
    assert_eq!(
        parse_tool_versions_json(object),
        vec![
            ToolVersionEntry {
                tool: "go".into(),
                version: "1.22".into(),
                source: Some("/p/mise.toml".into()),
            },
            ToolVersionEntry {
                tool: "node".into(),
                version: "22.1.0".into(),
                source: Some("/p/.mise.toml".into()),
            },
        ]
    );
    let array = br#"[{"tool":"jq","actual_version":"1.7"},{"plugin_name":7,"name":" rust ","version":"1"},{"version":"2"}]"#;
    assert_eq!(
        parse_tool_versions_json(array),
        vec![
            ToolVersionEntry { tool: "jq".into(), version: "1.7".into(), source: None },
            ToolVersionEntry { tool: "rust".into(), version: "1".into(), source: None },
        ]
    );
    assert!(parse_tool_versions_json(b"nope").is_empty());
    assert!(parse_tool_versions_json(b"\"text\"").is_empty());
    assert!(parse_tool_versions_json(&[0x22, 0xff, 0x22]).is_empty());
}

#[test]
fn global_versions_are_left_out() {
    let mut global = version("node", "22.1.0");
    global.source = Some("/home/u/.config/mise/config.toml".into());
    let mut unknown = version("go", "1.22");
    unknown.source = None;
    let mut above = version("rust", "1.8");
    above.source = Some("/.mise.toml".into());
    let chip = tool_version_chip(vec![global, unknown, above], &local_target("/p"));
    assert_eq!(chip.as_deref(), Some("rust 1.8 • go 1.22"));
}

const REMOTE_HOST: &str = "build.example.invalid";

fn signals(
    cwd: Option<&str>,
    cwd_host: Option<&str>,
    ssh_command: Option<&[&str]>,
    remote_shell: bool,
) -> PaneDiscoverySignals {
    PaneDiscoverySignals {
        cwd: cwd.map(str::to_string),
        cwd_host: cwd_host.map(str::to_string),
        ssh_command: ssh_command.map(texts),
        remote_shell,
    }
}

fn resolve(signals: &PaneDiscoverySignals, binary: Option<String>) -> Option<DiscoveryTarget> {
    resolve_discovery_target_from_signals(signals, None, binary, LOCAL)
}

#[test]
fn discovery_target_for_tab_resolves_manual_ssh_location_metadata() {
    let target = resolve(&signals(Some("/srv/app"), Some(REMOTE_HOST), None, false), None)
        .expect("non-local OSC 7 host + cwd should resolve to a remote target");
    assert_eq!(
        target,
        DiscoveryTarget::Remote {
            host: REMOTE_HOST.to_string(),
            cwd: "/srv/app".to_string(),
            ssh_argv: vec!["ssh".to_string(), REMOTE_HOST.to_string()],
        }
    );
}

#[test]
fn discovery_target_for_tab_prefers_recorded_ssh_argv() {
    let argv = ["ssh", "-p", "2222", "developer@build.example.invalid"];
    let target = resolve(
        &signals(Some("/srv/app"), Some(REMOTE_HOST), Some(&argv), true),
        None,
    )
    .expect("recorded ssh argv should resolve to a remote target");
    match target {
        DiscoveryTarget::Remote { ssh_argv, .. } => assert_eq!(
            ssh_argv,
            vec![
                "ssh".to_string(),
                "-p".to_string(),
                "2222".to_string(),
                "developer@build.example.invalid".to_string(),
            ],
        ),
        other => panic!("expected remote target, got {other:?}"),
    }
}

#[test]
fn discovery_target_for_tab_does_not_treat_local_hostname_as_remote() {
    let target = resolve(&signals(Some("/tmp/user/repo"), Some(LOCAL), None, false), None)
        .expect("local self-host should resolve to a local target");
    assert_eq!(
        target,
        DiscoveryTarget::Local {
            cwd: "/tmp/user/repo".to_string(),
            binary_path: None,
        }
    );
}

#[test]
fn discovery_target_for_tab_falls_back_to_ssh_command_destination() {
    let argv = ["ssh", "-p", "22", "developer@build.example.invalid"];
    let target = resolve(&signals(Some("/tmp/user/local"), None, Some(&argv), true), None)
        .expect("remote_shell + ssh argv should resolve to a remote target");
    assert_eq!(
        target,
        DiscoveryTarget::Remote {
            host: REMOTE_HOST.to_string(),
            cwd: REMOTE_DEFAULT_CWD.to_string(),
            ssh_argv: vec![
                "ssh".to_string(),
                "-p".to_string(),
                "22".to_string(),
                "developer@build.example.invalid".to_string(),
            ],
        }
    );
}

#[test]
fn discovery_target_for_tab_keeps_managed_ssh_pane_unchanged() {
    let argv = ["ssh", "build.example.invalid"];
    let target = resolve(
        &signals(Some("/srv/example/app"), Some(REMOTE_HOST), Some(&argv), true),
        None,
    )
    .expect("managed ssh pane should resolve to a remote target");
    assert_eq!(
        target,
        DiscoveryTarget::Remote {
            host: REMOTE_HOST.to_string(),
            cwd: "/srv/example/app".to_string(),
            ssh_argv: vec!["ssh".to_string(), "build.example.invalid".to_string(),],
        }
    );
}

#[test]
fn discovery_target_for_tab_keeps_plain_local_pane_local() {
    let binary = "/usr/bin/mise".to_string();
    let target = resolve(
        &signals(Some("/tmp/user/project"), None, None, false),
        Some(binary.clone()),
    )
    .expect("plain local pane should resolve to a local target");
    assert_eq!(
        target,
        DiscoveryTarget::Local {
            cwd: "/tmp/user/project".to_string(),
            binary_path: Some(binary),
        }
    );
}

#[test]
fn discovery_target_for_tab_returns_none_without_any_cwd() {
    let target = resolve(&signals(None, None, None, false), None);
    assert!(target.is_none());
    assert_eq!(
        classify_unresolved_signals(&signals(None, None, None, false), LOCAL),
        DiscoveryTargetFailure::NoWorkingDirectory,
    );
}

#[test]
fn explicit_discover_surfaces_unresolved_remote_context() {
    let unusable = ["not-ssh", "blah"];
    let target = resolve(&signals(None, None, Some(&unusable), true), None);
    assert!(
        target.is_none(),
        "an unresolvable remote pane must not silently resolve to a local target"
    );
    assert_eq!(
        classify_unresolved_signals(&signals(None, None, Some(&unusable), true), LOCAL),
        DiscoveryTargetFailure::UnresolvedRemoteContext,
    );
    assert_eq!(
        classify_unresolved_signals(&signals(None, None, None, true), LOCAL),
        DiscoveryTargetFailure::UnresolvedRemoteContext,
    );
}

#[test]
fn host_is_local_guards_self_and_loopback() {
    assert!(host_is_local("localhost", LOCAL));
    assert!(host_is_local("127.0.0.1", LOCAL));
    assert!(host_is_local("::1", LOCAL));
    assert!(host_is_local("", LOCAL));
    assert!(host_is_local(LOCAL, LOCAL));
    let short = LOCAL.split('.').next().unwrap_or(LOCAL);
    assert!(host_is_local(short, LOCAL));
    assert!(host_is_local(" WORKSTATION.other ", LOCAL));
    assert!(!host_is_local(REMOTE_HOST, LOCAL));
}

#[test]
fn ssh_destination_host_parses_user_port_and_options() {
    let plain = texts(&["ssh", "devbox"]);
    assert_eq!(ssh_destination_host(&plain), Some("devbox".to_string()));

    let with_user = texts(&["ssh", "developer@devbox"]);
    assert_eq!(ssh_destination_host(&with_user), Some("devbox".to_string()));

    let with_port = texts(&["ssh", "-p", "2222", "developer@devbox"]);
    assert_eq!(ssh_destination_host(&with_port), Some("devbox".to_string()));

    let with_options = texts(&["ssh", "-tt", "-o", "BatchMode=yes", "root@server.internal"]);
    assert_eq!(
        ssh_destination_host(&with_options),
        Some("server.internal".to_string())
    );

    let no_destination = texts(&["ssh", "-p", "2222"]);
    assert_eq!(ssh_destination_host(&no_destination), None);
    assert_eq!(ssh_destination_host(&texts(&["ssh", "user@"])), None);
}

#[test]
fn test_workspace_discovery_prefers_repo_root_over_active_tab_directory() {
    let mut state = empty_state();
    let ws_id = state.active_workspace;
    let ws = &mut state.workspaces[0];
    ws.repo_root = Some("/tmp/root/sample".into());
    ws.tabs.push(tab(10, Some("/tmp/root/sample-project")));
    ws.active_tab = 10;

    assert_eq!(
        discovery_target_for_workspace(&state, ws_id, LOCAL),
        Some(DiscoveryTarget::Local {
            cwd: "/tmp/root/sample".into(),
            binary_path: None,
        })
    );

    // On another machine the tab comes first.
    state.workspaces[0].host_config_name = Some("box".into());
    state.discovery_binary_paths.insert(10, "/m".into());
    assert_eq!(
        discovery_target_for_workspace(&state, ws_id, LOCAL),
        Some(DiscoveryTarget::Local {
            cwd: "/tmp/root/sample-project".into(),
            binary_path: Some("/m".into()),
        })
    );
    assert_eq!(discovery_target_for_workspace(&state, 99, LOCAL), None);
}

#[test]
fn test_discovery_target_for_tab_returns_none_for_tab_in_inactive_workspace() {
    let mut state = empty_state();
    state.workspaces[0].tabs.push(tab(10, Some("/p")));
    state.workspaces[0].active_tab = 10;
    state.workspaces.push(workspace(2));
    assert!(discovery_target_for_tab(&state, 10, LOCAL).is_some());
    state.active_workspace = 2;
    assert!(state.find_tab(10).is_some());
    assert!(discovery_target_for_tab(&state, 10, LOCAL).is_none());
}

#[test]
fn test_discovery_target_for_tab_reuses_cached_binary_path_for_inactive_tab() {
    let mut state = empty_state();
    state.workspaces[0].tabs.push(tab(10, Some("/a")));
    state.workspaces[0].tabs.push(tab(11, Some("/b")));
    state.workspaces[0].active_tab = 11;
    state.discovery_binary_paths.insert(10, "/opt/mise".into());
    let target = discovery_target_for_tab(&state, 10, LOCAL).unwrap();
    assert_eq!(
        target,
        DiscoveryTarget::Local { cwd: "/a".into(), binary_path: Some("/opt/mise".into()) }
    );
}

#[test]
fn dashboard_presentation_preserves_focused_mise_target() {
    let mut state = empty_state();
    state.workspaces[0].tabs.push(tab(10, Some("/a")));
    state.workspaces[0].active_tab = 10;
    state.discovery_binary_paths.insert(10, "/opt/mise".into());
    let dashboard_id = state
        .create_dashboard_tab("tab-d".to_string())
        .expect("dashboard tab");

    assert_eq!(state.presented_tab_id(), Some(dashboard_id));
    assert_eq!(state.active_tab().map(|tab| tab.id), Some(10));
    let target = discovery_target(&state, &around(), &vec![configured("/a", &[false])]);
    assert_eq!(
        task_shell_command(&target, "app:test", Some("/opt/mise".into())).as_deref(),
        Some("'/opt/mise' run --raw 'app:test'")
    );
    assert_eq!(
        target,
        DiscoveryTarget::Local { cwd: "/a".into(), binary_path: Some("/opt/mise".into()) }
    );
}

fn around() -> Surroundings {
    Surroundings {
        current_dir: Some("/taarof".into()),
        home: Some("/home/u".into()),
        host_name: LOCAL.into(),
    }
}

#[test]
fn test_best_discovery_dir_prefers_candidate_with_mise_config() {
    let probes = vec![
        configured("/r/fallback", &[false, false, false]),
        configured("/r/project/app", &[false, true, false, false]),
    ];
    let candidates = texts(&["/missing", "/r/fallback", "/r/project/app"]);
    assert_eq!(
        best_discovery_dir(&candidates, &probes).as_deref(),
        Some("/r/project/app")
    );
    let none = vec![configured("/r/fallback", &[false])];
    assert_eq!(best_discovery_dir(&candidates, &none).as_deref(), Some("/r/fallback"));
    assert_eq!(best_discovery_dir(&candidates, &Vec::new()), None);
}

#[test]
fn local_discovery_stays_scoped_to_target_without_mise_config() {
    let probes = vec![
        configured("/r/target-project", &[false, false, false]),
        configured("/r/taarof-checkout", &[true, false, false]),
    ];
    assert_eq!(local_discovery_dir_from("/r/target-project", &probes), "/r/target-project");
    let nested = vec![configured("/r/a/b", &[false, true, false, false])];
    assert_eq!(local_discovery_dir_from("/r/a/b", &nested), "/r/a");
    assert_eq!(local_discovery_dir_from("/unknown", &nested), "/unknown");
}

#[test]
fn discovery_without_a_tab_looks_around() {
    let mut state = empty_state();
    state.workspaces[0].repo_root = Some("/repo".into());
    let probes = vec![
        configured("/repo", &[false, false]),
        configured("/taarof", &[true, false]),
    ];
    assert_eq!(discovery_dir(&state, &around(), &probes), "/taarof");
    assert_eq!(discovery_dir(&state, &around(), &Vec::new()), ".");
    state.workspaces[0].tabs.push(tab(10, Some("/repo/app")));
    state.workspaces[0].active_tab = 10;
    state.discovery_binary_paths.insert(10, "/m".into());
    let probes = vec![configured("/repo/app", &[false, true, false])];
    assert_eq!(
        discovery_target(&state, &around(), &probes),
        DiscoveryTarget::Local { cwd: "/repo/app".into(), binary_path: Some("/m".into()) }
    );
    assert_eq!(
        task_target_for_tab(&state, 10, &probes, LOCAL),
        Some(DiscoveryTarget::Local { cwd: "/repo".into(), binary_path: Some("/m".into()) })
    );
}

#[test]
fn targets_are_labelled_without_their_route() {
    assert_eq!(task_target_label(&local_target("/p")), "local project /p");
    let remote = DiscoveryTarget::Remote {
        host: "h".into(),
        cwd: "/srv".into(),
        ssh_argv: texts(&["ssh", "-i", "/secret/key", "h"]),
    };
    assert_eq!(task_target_label(&remote), "remote project h:/srv");
    assert!(!same_task_target(&remote, &local_target("/srv")));
}

#[test]
fn quoting_matches_the_shell() {
    assert_eq!(shell_quote("a'b"), "'a'\\''b'");
    assert_eq!(shell_quote(""), "''");
}

#[test]
fn paths_agree_with_the_standard_library() {
    for path in [
        "", "/", ".", "..", "a", "/a", "a/b", "/a/b", "a//b", "/a/./b", "./a", "a/.", "/.", "a/..",
        "//a", "/a/b/", "a/./", "././a", "..//x/.", "/a//.//b//", ".hidden", "a/.b", "./.",
    ] {
        let std_path = Path::new(path);
        let components: Vec<String> = std_path
            .components()
            .map(|part| part.as_os_str().to_string_lossy().into_owned())
            .collect();
        assert_eq!(path_components(path), components, "{path:?}");
        assert_eq!(
            path_file_name(path),
            std_path.file_name().map(|name| name.to_string_lossy().into_owned()),
            "{path:?}"
        );
        assert_eq!(
            parent_path(path),
            std_path.parent().map(|dir| dir.to_string_lossy().into_owned()),
            "{path:?}"
        );
        let ancestors: Vec<String> = std_path
            .ancestors()
            .map(|dir| dir.to_string_lossy().into_owned())
            .collect();
        assert_eq!(ancestor_paths(path), ancestors, "{path:?}");
    }
}
