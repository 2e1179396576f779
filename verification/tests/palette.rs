use taarof_app::dashboard::{DashboardSession, DetachedSession, SessionStatus};
use taarof_app::git::{GitAsyncSubmission, GitInfo, WorktreeInfo};
use taarof_app::keybindings::{Action, Shortcuts};
use taarof_app::mise::cache::{
    cached_task_discovery, complete_task_discovery, prepare_task_discovery, CachedTaskDiscovery,
    DiscoveryCache, TaskDiscoveryRequest,
};
use taarof_app::mise::{task_target_for_tab, DirProbe, DiscoveryTarget, MiseTask};
use taarof_app::palette::attach::{
    attach_candidate_label, build_attach_candidates, live_tab_backings, AttachCandidate,
    AttachCandidateKind, LiveTabBacking,
};
use taarof_app::palette::changes::{
    accepted_name, delete_template_question, delete_view_question, forget_project_question,
    remove_worktree_question, shows_deleted_view, StoredChange,
};
use taarof_app::palette::entry::{
    activated_entry_for_row, filtered_entries, matching_positions, MiseDispatchMode, PaletteAction,
    PaletteEntry,
};
use taarof_app::palette::files::{newest_files, PaneTranscript, TouchedFile};
use taarof_app::palette::help::{build_keybinding_help_entries, EffectiveBinding};
use taarof_app::palette::listing::{
    build_entries, first_attention_target, palette_task_request, PaletteContext,
};
use taarof_app::palette::modes::{palette_entries, PaletteLists};
use taarof_app::palette::pickers::{build_worktree_entries, TmuxUiState};
use taarof_app::palette::placing::{
    apply_new_workspace_discovery, apply_worktree_discovery, discovery_busy_notice, discovery_key, ensure_default_workspace, ensure_loops_workspace, ensure_worktree_workspace_state, loop_split_direction, place_after_split, plan_loop_dispatch, scope_workspace_to_repo, should_split, workspace_identity_is_current, workspace_of_removed_worktree, DiscoveryReason, LoopDispatch, LoopPlace, WorktreeWorkspaceState, LOOPS_WORKSPACE_NAME, MAX_LOOP_PANES_PER_TAB,
};
use taarof_app::palette::projects::{
    connect_host, connect_host_failure, continue_host_connect, continue_project_open, HostConnectStep, open_registered_project, remote_shell_argv, ProjectOpenEvent,
    ProjectOpenPlan, ProjectOpenStep,
};
use taarof_app::palette::records::{
    new_saved_view, HostCandidate, HostConfig, HostSource, ProjectHost, RegisteredProject,
    TemplateKind, ViewPreset,
};
use taarof_app::palette::sending::{
    capture_send_source, clipboard_preview, inline_send_text, nothing_to_send,
    relay_last_message_source, running_agents_of_tab, send_source_label, send_target_panes,
    text_lines, AgentActivityState, ClipboardEntry, LastAgentMessageResolution, PaneActivity,
    PaneAgentLabel, SendPayloadSource,
};
use taarof_app::palette::session::{
    capture_for, moved_selection, poll_step, polls_task_discovery, relists_after_worktree_answer,
    Capture, FocusAfter, PaletteEffect, PaletteSession,
};
use taarof_app::palette::stores::{
    ensure_palette_stores, forget_palette_stores, PaletteStore, StoreKind,
};
use taarof_app::palette::templates::{
    choose_tab_template, choose_workspace_template, find_template, plan_tab_template, plan_workspace_template_tabs, saved_cwd_uri, saved_template_cwd_to_local_path, snapshot_saved_tab, snapshot_tab_template, snapshot_workspace_template, tab_template_name, template_active_tab, template_git_path, workspace_template_name, SavedTab, SavedWorkspaceTemplate, TemplateChoice, TemplateRecord,
};
use taarof_app::palette::worktrees::{
    after_worktree_creation, apply_worktree_listing_result, begin_worktree_listing, finish_worktree_submission, invalidate_worktree_listing_state, worktree_create_request, worktree_entry_label, worktree_listing_submission_error, worktree_mutation_submission_feedback, worktree_mutation_worker_failure, worktree_remove_key, worktree_rollback_key, worktree_rollback_notice, worktree_rollback_submission_cause, worktree_rollback_submission_failure, worktree_rollback_worker_failure, worktree_source, WorktreeCreated, WorktreeListingState, WorktreeMutationKind, WorktreeMutationSubmissionFeedback,
};
use taarof_app::palette::PaletteMode;
use taarof_app::pane::{
    PaneLeaf, PaneLocationState, PaneNode, PaneProcessState, SplitDirection, TmuxBacking,
};
use taarof_app::performance::{AgentStatus, RuntimeProbeSnapshot};
use taarof_app::probe::ProbeSnapshot;
use taarof_app::task_launch::{TaskDiscoverySnapshot, TaskLaunchRequest, TaskLaunchError};
use taarof_app::tmux::TmuxTarget;
use taarof_app::workspace::{
    AppState, BroadcastScope, Tab, TabKind, WorkspaceAction, WorkspaceActionInfo,
};

/// The name of the machine that the tests stand on.
const LOCAL: &str = "workstation.example";

fn stub_tab(id: u32, name: &str) -> Tab {
    Tab {
        id,
        name: name.to_string(),
        work_origin: format!("tab-{id}"),
        kind: TabKind::Terminal,
        panes: Box::new(PaneNode::Stub { pane_id: id + 100 }),
        focused_pane_id: id + 100,
        next_pane_id: id + 101,
        needs_attention: false,
        notification_msg: None,
        discovery_cwd: Some("/tmp".to_string()),
        discovered_actions: Vec::new(),
    }
}

fn leaf(pane_id: u32) -> PaneLeaf {
    PaneLeaf {
        pane_id,
        work_origin: format!("pane-{pane_id}"),
        container: pane_id as u64,
        terminal: pane_id as u64,
        shell_pid: None,
        was_busy: false,
        launch_command: None,
        last_output_ms: None,
        tmux_backing: None,
        location_state: PaneLocationState {
            cwd: None,
            cwd_host: None,
            updated_at_unix_ms: None,
        },
        process_state: PaneProcessState {
            has_child_process: false,
            remote_shell: false,
            ssh_command: None,
            updated_at_unix_ms: None,
        },
        command_marks: Vec::new(),
    }
}

fn empty_context() -> PaletteContext {
    PaletteContext {
        shortcuts: Shortcuts { labels: Vec::new() },
        tmux: TmuxUiState {
            available: true,
            unavailable_message: None,
        },
        recent_copy_lines: 200,
        broadcast_scope: None,
        discovery: None,
        cached: CachedTaskDiscovery::Missing,
        projects: Some(Ok(Vec::new())),
        hosts: Vec::new(),
    }
}

fn empty_lists() -> PaletteLists {
    PaletteLists {
        commands: empty_context(),
        templates: None,
        views: None,
        detached_sessions: Vec::new(),
        dashboard_sessions: Vec::new(),
        binding_categories: Vec::new(),
        bindings: Vec::new(),
        agents: Vec::new(),
        activities: Vec::new(),
        clipboard: Vec::new(),
        transcripts: Vec::new(),
    }
}

fn no_listing() -> WorktreeListingState {
    WorktreeListingState {
        generation: 0,
        in_flight: false,
        listing: None,
        listing_error: None,
    }
}

fn closed_session() -> PaletteSession {
    PaletteSession {
        visible: false,
        mode: PaletteMode::Default,
        query: String::new(),
        send_source: None,
        worktrees: no_listing(),
    }
}

/// A state with one tab in a project that has a mise configuration, and what discovery
/// found there.
fn state_with_attention(attention: bool) -> (AppState, DiscoveryTarget, TaskDiscoverySnapshot) {
    let project = "/tmp/taarof-palette-project";
    let mut state = AppState::new("workspace-1".to_string());
    let mut tab = stub_tab(11, "editor");
    if attention {
        tab.needs_attention = true;
        tab.notification_msg = Some("Build done".into());
    }
    tab.discovery_cwd = Some(project.to_string());
    state.workspaces[0].repo_root = Some(project.to_string());
    state.workspaces[0].tabs.push(tab);
    state.workspaces[0].active_tab = 11;
    state
        .discovery_binary_paths
        .insert(11, "/tmp/taarof-test-mise".to_string());
    let probes = vec![DirProbe {
        path: project.to_string(),
        is_dir: true,
        configured: vec![true],
    }];
    let target = task_target_for_tab(&state, 11, &probes, LOCAL)
        .expect("test state has an active task target");
    let snapshot =
        TaskDiscoverySnapshot::with_task_names(target.copy_target(), vec!["app:test".to_string()]);
    (state, target, snapshot)
}

fn local_target(cwd: &str) -> DiscoveryTarget {
    DiscoveryTarget::Local {
        cwd: cwd.to_string(),
        binary_path: Some("/usr/bin/true".to_string()),
    }
}

fn test_palette_task_request(
    target: DiscoveryTarget,
    task_name: &str,
    workspace_action: Option<WorkspaceAction>,
) -> TaskLaunchRequest {
    palette_task_request(
        11,
        Some(TaskDiscoverySnapshot::with_task_names(
            target,
            vec![task_name.to_string()],
        )),
        task_name,
        workspace_action,
    )
}

fn labels(entries: &[PaletteEntry]) -> Vec<&str> {
    entries.iter().map(|entry| entry.label.as_str()).collect()
}

#[test]
fn worktree_mutation_feedback_is_honest_for_coalesced_and_saturated_requests() {
    let (coalesced, saturated, started) = (
        GitAsyncSubmission::Coalesced,
        GitAsyncSubmission::Saturated,
        GitAsyncSubmission::Started,
    );

    assert_eq!(
        worktree_mutation_submission_feedback(WorktreeMutationKind::Create, started),
        None
    );
    assert_eq!(
        worktree_mutation_submission_feedback(WorktreeMutationKind::Create, coalesced),
        Some(WorktreeMutationSubmissionFeedback {
            message: "Worktree creation is already running",
            is_error: false,
            keep_dialog_open: false,
        })
    );
    assert_eq!(
        worktree_mutation_submission_feedback(WorktreeMutationKind::Create, saturated),
        Some(WorktreeMutationSubmissionFeedback {
            message: "Git worker queue is busy; retry shortly",
            is_error: true,
            keep_dialog_open: true,
        })
    );
    assert_eq!(
        worktree_mutation_submission_feedback(WorktreeMutationKind::Remove, coalesced),
        Some(WorktreeMutationSubmissionFeedback {
            message: "Worktree removal is already running; wait for its result",
            is_error: false,
            keep_dialog_open: false,
        })
    );
    assert_eq!(
        worktree_mutation_submission_feedback(WorktreeMutationKind::Remove, saturated),
        Some(WorktreeMutationSubmissionFeedback {
            message: "Git worker queue is busy; worktree was not removed. Retry shortly",
            is_error: true,
            keep_dialog_open: true,
        })
    );

    assert_eq!(
        worktree_mutation_worker_failure(WorktreeMutationKind::Create, "worker failed"),
        "Could not create worktree: worker failed"
    );
    assert_eq!(
        worktree_mutation_worker_failure(WorktreeMutationKind::Remove, "worker failed"),
        "Could not remove worktree: worker failed"
    );
    assert_eq!(
        worktree_rollback_worker_failure("/tmp/new-worktree", "worker failed"),
        "Created worktree /tmp/new-worktree, but could not roll it back after its source closed: worker failed"
    );
    assert_eq!(
        worktree_rollback_submission_cause(coalesced),
        Some("a rollback was already registered without this completion")
    );
    assert_eq!(
        worktree_rollback_submission_cause(saturated),
        Some("the Git worker queue is busy")
    );
}

#[test]
fn worktree_listing_join_failure_preserves_error_until_explicit_retry() {
    assert_eq!(
        worktree_listing_submission_error(GitAsyncSubmission::Coalesced),
        Some("Git worktree listing coalesced unexpectedly; reopen Worktrees to retry")
    );
    assert_eq!(
        worktree_listing_submission_error(GitAsyncSubmission::Saturated),
        Some("Git worker queue is busy; reopen Worktrees to retry")
    );

    let root = "/tmp/palette-worktree-retry".to_string();
    let mut state = WorktreeListingState {
        generation: 8,
        in_flight: true,
        listing: Some((root.clone(), Vec::new())),
        listing_error: None,
    };

    // A late answer leaves the listing and the running request alone.
    assert!(!apply_worktree_listing_result(
        &mut state,
        7,
        root.clone(),
        Err("stale join failure".into()),
    ));
    assert!(state.in_flight);
    assert!(state.listing.is_some());
    assert!(state.listing_error.is_none());

    // A failure is no empty listing, and stays until it is forgotten.
    assert!(apply_worktree_listing_result(
        &mut state,
        8,
        root.clone(),
        Err("Git worker did not complete".into()),
    ));
    assert!(!state.in_flight);
    assert!(state.listing.is_none());
    assert_eq!(
        state.listing_error.as_ref(),
        Some(&(root.clone(), "Git worker did not complete".to_string()))
    );

    invalidate_worktree_listing_state(&mut state);
    assert_eq!(state.generation, 9);
    assert!(!state.in_flight);
    assert!(state.listing.is_none());
    assert!(state.listing_error.is_none());
}

#[test]
fn activated_row_resolves_the_clicked_secondary_picker_entry() {
    let entries = vec![
        PaletteEntry {
            label: "Back to Commands".into(),
            shortcut: None,
            action: PaletteAction::ResetMode,
        },
        PaletteEntry {
            label: "Open Workspace Template: backend".into(),
            shortcut: None,
            action: PaletteAction::OpenWorkspaceTemplate("backend".into()),
        },
        PaletteEntry {
            label: "Open Workspace Template: frontend".into(),
            shortcut: None,
            action: PaletteAction::OpenWorkspaceTemplate("frontend".into()),
        },
    ];

    let activated = activated_entry_for_row(&entries, "template", 1)
        .expect("the clicked filtered row should resolve");

    assert_eq!(activated.label, "Open Workspace Template: frontend");
}

#[test]
fn activated_row_uses_the_same_visible_row_mapping_as_the_palette() {
    let entries = vec![
        PaletteEntry {
            label: "New Tab".into(),
            shortcut: None,
            action: PaletteAction::Activate(Action::NewTab),
        },
        PaletteEntry {
            label: "Run app:test in focused pane".into(),
            shortcut: None,
            action: PaletteAction::MiseTaskInFocusedPane(test_palette_task_request(
                local_target("/tmp"),
                "app:test",
                None,
            )),
        },
        PaletteEntry {
            label: "New Workspace".into(),
            shortcut: None,
            action: PaletteAction::Activate(Action::NewWorkspace),
        },
    ];

    // Entries for searching only have no row without a query.
    let activated = activated_entry_for_row(&entries, "", 1)
        .expect("the second visible top-level row should resolve");

    assert_eq!(activated.label, "New Workspace");
    assert!(activated_entry_for_row(&entries, "", -1).is_none());
    assert!(activated_entry_for_row(&entries, "", 2).is_none());
}

#[test]
fn jump_attention_is_ranked_first_when_attention_exists() {
    let (mut state, _, _) = state_with_attention(false);
    let tab = &mut state.workspaces[0].tabs[0];
    tab.needs_attention = true;
    tab.notification_msg = Some("Build done".to_string());
    assert_eq!(first_attention_target(&state), Some((11, 111)));
    let entries = build_entries(&state, &empty_context());

    assert_eq!(entries[0].label, "Jump to Attention Tab");
    assert!(entries
        .iter()
        .any(|entry| entry.label == "Save View: Currently Flagged Panes"));
}

#[test]
fn jump_attention_stays_available_without_attention() {
    let (state, _, _) = state_with_attention(false);
    let entries = build_entries(&state, &empty_context());

    assert_ne!(entries[0].label, "Jump to Attention Tab");
    assert!(entries
        .iter()
        .any(|entry| entry.label == "Jump to Attention Tab"));
    assert_eq!(entries[5].label, "Jump to Attention Tab");
}

fn dev_action() -> WorkspaceActionInfo {
    WorkspaceActionInfo {
        action: WorkspaceAction::Dev,
        task_name: "dev".into(),
        label: "Dev Server".into(),
        compact_label: "Dev".into(),
    }
}

#[test]
fn discovered_workspace_actions_are_labeled_as_quick_actions() {
    let mut state = AppState::new("workspace-1".to_string());
    let mut tab = stub_tab(11, "editor");
    tab.discovered_actions = vec![dev_action()];
    state.workspaces[0].tabs.push(tab);
    state.workspaces[0].active_tab = 11;
    let target = task_target_for_tab(&state, 11, &Vec::new(), LOCAL)
        .expect("test state has an active task target");
    let mut context = empty_context();
    context.discovery = Some(TaskDiscoverySnapshot::with_task_names(
        target,
        vec!["dev".to_string()],
    ));

    let entries = build_entries(&state, &context);

    assert!(entries
        .iter()
        .any(|entry| entry.label == "Quick Action: Dev Server"));
    assert!(entries
        .iter()
        .any(|entry| entry.label
            == "Legacy Alias: Run Dev Server in Focused Pane (Dedicated Tab)"));
    assert!(!entries
        .iter()
        .any(|entry| entry.label == "Discover Tasks (Ctrl+Shift+D)"));
}

#[test]
fn should_split_only_when_active_loops_tab_has_room() {
    assert!(!should_split(None, MAX_LOOP_PANES_PER_TAB));
    assert!(should_split(Some(1), MAX_LOOP_PANES_PER_TAB));
    assert!(should_split(Some(3), MAX_LOOP_PANES_PER_TAB));
    assert!(!should_split(Some(4), MAX_LOOP_PANES_PER_TAB));
    assert!(!should_split(Some(9), MAX_LOOP_PANES_PER_TAB));
}

#[test]
fn plan_loop_dispatch_opens_new_tab_when_no_loops_workspace() {
    let state = AppState::new("workspace-1".to_string());
    assert_eq!(
        plan_loop_dispatch(&state, MAX_LOOP_PANES_PER_TAB),
        LoopDispatch::NewTab
    );
}

#[test]
fn plan_loop_dispatch_opens_new_tab_when_loops_has_no_active_tab() {
    let mut state = AppState::new("workspace-1".to_string());
    state.create_workspace(LOOPS_WORKSPACE_NAME, None, "workspace-2".to_string());
    assert_eq!(
        plan_loop_dispatch(&state, MAX_LOOP_PANES_PER_TAB),
        LoopDispatch::NewTab
    );
}

#[test]
fn plan_loop_dispatch_splits_active_loops_tab_with_room() {
    let mut state = AppState::new("workspace-1".to_string());
    let ws_id = state.create_workspace(LOOPS_WORKSPACE_NAME, None, "workspace-2".to_string());
    let tab = stub_tab(11, "loop: LR-1");
    let ws = state
        .workspaces
        .iter_mut()
        .find(|w| w.id == ws_id)
        .expect("loops workspace should exist");
    ws.tabs.push(tab);
    ws.active_tab = 11;
    assert_eq!(
        plan_loop_dispatch(&state, MAX_LOOP_PANES_PER_TAB),
        LoopDispatch::SplitActiveTab { tab_id: 11 }
    );
    assert_eq!(plan_loop_dispatch(&state, 1), LoopDispatch::NewTab);
}

#[test]
fn test_palette_does_not_block_on_discovery() {
    let (state, target, snapshot) = state_with_attention(false);
    let mut cache: DiscoveryCache<Vec<MiseTask>> = DiscoveryCache::new();
    assert_eq!(
        prepare_task_discovery(&mut cache, &target, 0),
        TaskDiscoveryRequest::Start
    );
    let mut context = empty_context();
    context.cached = cached_task_discovery(&mut cache, &snapshot.target, 0);
    context.discovery = Some(snapshot);

    let entries = build_entries(&state, &context);

    assert!(entries
        .iter()
        .any(|entry| entry.label == "mise: discovering tasks..."));
}

#[test]
fn palette_uses_cached_mise_tasks_after_discovery() {
    let (state, target, snapshot) = state_with_attention(false);
    let mut cache: DiscoveryCache<Vec<MiseTask>> = DiscoveryCache::new();
    complete_task_discovery(
        &mut cache,
        &target,
        vec![MiseTask {
            name: "app:test".into(),
            description: "Run tests".into(),
            hide: false,
            source: None,
            global: false,
        }],
        0,
    );
    let mut context = empty_context();
    context.cached = cached_task_discovery(&mut cache, &snapshot.target, 0);
    context.discovery = Some(snapshot);

    let entries = build_entries(&state, &context);

    assert!(entries
        .iter()
        .any(|entry| entry.label == "mise: app:test — Run tests"));
    assert!(!entries
        .iter()
        .any(|entry| entry.label == "mise: discovering tasks..."));
}

#[test]
fn palette_hides_mise_section_when_cached_discovery_is_empty() {
    let (state, target, snapshot) = state_with_attention(false);
    let mut cache: DiscoveryCache<Vec<MiseTask>> = DiscoveryCache::new();
    complete_task_discovery(&mut cache, &target, Vec::new(), 0);
    let mut context = empty_context();
    context.cached = cached_task_discovery(&mut cache, &snapshot.target, 0);
    context.discovery = Some(snapshot);

    let entries = build_entries(&state, &context);

    assert!(!entries
        .iter()
        .any(|entry| entry.label.starts_with("mise: ")));
}

#[test]
fn test_mise_task_opens_new_tab() {
    let request = test_palette_task_request(local_target("/tmp"), "dev", None);
    let plan = request
        .plan(&Some(local_target("/tmp")), Some("/usr/bin/true".to_string()))
        .unwrap_or_else(|_| panic!("local mise task should produce a tab launch plan"));

    assert_eq!(plan.tab_name, "mise: dev");
    assert_eq!(plan.working_dir.as_deref(), Some("/tmp"));
    assert_eq!(
        plan.argv,
        vec![
            "/usr/bin/true".to_string(),
            "run".to_string(),
            "--raw".to_string(),
            "dev".to_string()
        ]
    );
    assert!(plan.respawn_on_exit.is_none());
    assert_eq!(plan.workspace_action, None);
    assert_eq!(plan.target_label, "local project /tmp");
}

#[test]
fn tasks_run_only_where_they_were_found() {
    let binary = || Some("/usr/bin/true".to_string());
    let mut request = test_palette_task_request(local_target("/tmp"), "dev", None);
    assert_eq!(
        request.plan(&Some(local_target("/var")), binary()).err(),
        Some(TaskLaunchError::TargetChanged)
    );
    assert_eq!(
        request.plan(&None, binary()).err(),
        Some(TaskLaunchError::NoTarget)
    );
    assert_eq!(
        request.plan(&Some(local_target("/tmp")), None).err(),
        Some(TaskLaunchError::NoCommand)
    );
    request.task_name = "other".to_string();
    assert_eq!(
        request.plan(&Some(local_target("/tmp")), binary()).err(),
        Some(TaskLaunchError::UnknownTask)
    );
    request.discovery = None;
    assert_eq!(
        request.plan(&Some(local_target("/tmp")), binary()).err(),
        Some(TaskLaunchError::NotDiscovered)
    );
}

#[test]
fn test_mise_task_always_opens_new_tab() {
    let request = test_palette_task_request(local_target("/tmp"), "dev", None);
    assert_eq!(
        PaletteAction::MiseTask(request.copy_request()).mise_dispatch_mode(),
        Some(MiseDispatchMode::OpenNewTab)
    );
    assert_eq!(
        PaletteAction::MiseTaskInFocusedPane(request).mise_dispatch_mode(),
        Some(MiseDispatchMode::OpenNewTab)
    );
    assert_eq!(PaletteAction::Noop.mise_dispatch_mode(), None);
}

#[test]
fn focused_pane_mise_entries_are_search_only() {
    let entries = vec![
        PaletteEntry {
            label: "mise: dev".into(),
            shortcut: None,
            action: PaletteAction::MiseTask(test_palette_task_request(
                local_target("/tmp"),
                "dev",
                None,
            )),
        },
        PaletteEntry {
            label: "Legacy Alias: Run mise dev in Focused Pane (Dedicated Tab)".into(),
            shortcut: None,
            action: PaletteAction::MiseTaskInFocusedPane(test_palette_task_request(
                local_target("/tmp"),
                "dev",
                None,
            )),
        },
    ];

    let default_labels: Vec<_> = filtered_entries(&entries, "")
        .into_iter()
        .map(|entry| entry.label.as_str())
        .collect();
    let focused_labels: Vec<_> = filtered_entries(&entries, "focused")
        .into_iter()
        .map(|entry| entry.label.as_str())
        .collect();

    assert_eq!(default_labels, vec!["mise: dev"]);
    assert_eq!(
        focused_labels,
        vec!["Legacy Alias: Run mise dev in Focused Pane (Dedicated Tab)"]
    );
}

#[test]
fn the_search_ignores_case() {
    let entries = vec![
        PaletteEntry {
            label: "New TAB".into(),
            shortcut: None,
            action: PaletteAction::Noop,
        },
        PaletteEntry {
            label: "ÜBERSICHT".into(),
            shortcut: None,
            action: PaletteAction::Noop,
        },
    ];
    let found: Vec<&str> = filtered_entries(&entries, "nEw tAb")
        .into_iter()
        .map(|entry| entry.label.as_str())
        .collect();
    assert_eq!(found, vec!["New TAB"]);
    let found: Vec<&str> = filtered_entries(&entries, "über")
        .into_iter()
        .map(|entry| entry.label.as_str())
        .collect();
    assert_eq!(found, vec!["ÜBERSICHT"]);
    let lows = vec!["new tab".to_string(), "übersicht".to_string()];
    assert_eq!(matching_positions(&entries, &lows, "t"), vec![0, 1]);
    assert_eq!(matching_positions(&entries, &lows, "x"), Vec::<usize>::new());
}

fn stub_detached(name: &str, target: TmuxTarget, command: Option<&str>) -> DetachedSession {
    DetachedSession {
        session_name: name.to_string(),
        host: match &target {
            TmuxTarget::Local => "localhost".to_string(),
            TmuxTarget::Remote { ssh_target } => ssh_target.clone(),
        },
        workspace: "default".to_string(),
        target,
        last_command: command.map(str::to_string),
        finished: false,
    }
}

fn stub_dashboard_session(
    name: &str,
    target: TmuxTarget,
    status: SessionStatus,
    is_detached: bool,
    command: Option<&str>,
) -> DashboardSession {
    DashboardSession {
        name: name.to_string(),
        host: match &target {
            TmuxTarget::Local => "localhost".to_string(),
            TmuxTarget::Remote { ssh_target } => ssh_target.clone(),
        },
        target,
        status,
        command: command.map(str::to_string),
        is_detached,
    }
}

fn remote(host: &str) -> TmuxTarget {
    TmuxTarget::Remote {
        ssh_target: host.to_string(),
    }
}

#[test]
fn build_attach_candidates_empty_input_yields_empty() {
    let candidates = build_attach_candidates(&[], &[], &[]);
    assert!(candidates.is_empty());
}

#[test]
fn build_attach_candidates_merges_and_dedups_by_identity() {
    let detached = vec![stub_detached("work", TmuxTarget::Local, None)];
    let dashboard = vec![stub_dashboard_session(
        "work",
        TmuxTarget::Local,
        SessionStatus::Detached,
        true,
        Some("vim"),
    )];

    let candidates = build_attach_candidates(&detached, &dashboard, &[]);
    assert_eq!(
        candidates.len(),
        1,
        "identical identity must dedup to one row"
    );
    let c = &candidates[0];
    assert_eq!(c.session_name, "work");
    assert_eq!(c.target, TmuxTarget::Local);
    assert_eq!(c.host, "local");
    assert_eq!(c.command.as_deref(), Some("vim"));
    assert_eq!(c.kind, AttachCandidateKind::Attach);
}

#[test]
fn build_attach_candidates_same_name_two_hosts_distinct_rows() {
    let dashboard = vec![
        stub_dashboard_session("api", remote("alpha"), SessionStatus::Running, false, None),
        stub_dashboard_session("api", remote("beta"), SessionStatus::Running, false, None),
        stub_dashboard_session("api", TmuxTarget::Local, SessionStatus::Running, false, None),
    ];

    let candidates = build_attach_candidates(&[], &dashboard, &[]);
    assert_eq!(
        candidates.len(),
        3,
        "same name on 3 targets = 3 distinct rows"
    );

    let hosts: Vec<&str> = candidates.iter().map(|c| c.host.as_str()).collect();
    assert!(hosts.contains(&"alpha"));
    assert!(hosts.contains(&"beta"));
    assert!(hosts.contains(&"local"));

    assert!(candidates.iter().all(|c| c.session_name == "api"));
    let targets: std::collections::HashSet<_> =
        candidates.iter().map(|c| c.target.clone()).collect();
    assert_eq!(targets.len(), 3);
}

#[test]
fn build_attach_candidates_attached_here_resolves_to_tab_id() {
    let dashboard = vec![stub_dashboard_session(
        "session-a",
        TmuxTarget::Local,
        SessionStatus::Running,
        false,
        None,
    )];
    let live_tabs: Vec<LiveTabBacking> =
        vec![(42, vec![("session-a".to_string(), TmuxTarget::Local)])];

    let candidates = build_attach_candidates(&[], &dashboard, &live_tabs);
    assert_eq!(candidates.len(), 1);
    assert_eq!(
        candidates[0].kind,
        AttachCandidateKind::AttachedHere { tab_id: 42 }
    );
}

#[test]
fn build_attach_candidates_same_name_only_matching_target_is_attached_here() {
    let dashboard = vec![
        stub_dashboard_session("api", TmuxTarget::Local, SessionStatus::Running, false, None),
        stub_dashboard_session("api", remote("beta"), SessionStatus::Running, false, None),
    ];
    let live_tabs: Vec<LiveTabBacking> = vec![(7, vec![("api".to_string(), TmuxTarget::Local)])];

    let candidates = build_attach_candidates(&[], &dashboard, &live_tabs);
    let local = candidates
        .iter()
        .find(|c| c.target == TmuxTarget::Local)
        .expect("local api candidate");
    let beta = candidates
        .iter()
        .find(|c| c.target == remote("beta"))
        .expect("beta api candidate");
    assert_eq!(local.kind, AttachCandidateKind::AttachedHere { tab_id: 7 });
    assert_eq!(beta.kind, AttachCandidateKind::Attach);
}

#[test]
fn build_attach_candidates_detached_ordering_first() {
    let detached = vec![stub_detached("detached-one", TmuxTarget::Local, None)];
    let dashboard = vec![stub_dashboard_session(
        "dash-only",
        remote("beta"),
        SessionStatus::Running,
        false,
        None,
    )];

    let candidates = build_attach_candidates(&detached, &dashboard, &[]);
    assert_eq!(candidates.len(), 2);
    assert_eq!(candidates[0].session_name, "detached-one");
    assert_eq!(candidates[1].session_name, "dash-only");
    assert!(
        candidates[1].attached,
        "running dashboard session is attached"
    );
    assert!(!candidates[0].attached, "detached row is not attached");
}

#[test]
fn attach_candidate_label_shows_host_state_and_command() {
    let candidate = AttachCandidate {
        session_name: "work".into(),
        target: remote("alpha"),
        host: "alpha".into(),
        attached: true,
        command: Some("cargo test".into()),
        kind: AttachCandidateKind::Attach,
    };
    let label = attach_candidate_label(&candidate);
    assert!(label.contains("alpha"));
    assert!(label.contains("work"));
    assert!(label.contains("attached"));
    assert!(label.contains("cargo test"));
    assert_eq!(label, "alpha · work  [attached]  — cargo test");

    let here = AttachCandidate {
        kind: AttachCandidateKind::AttachedHere { tab_id: 1 },
        ..candidate
    };
    assert!(attach_candidate_label(&here).contains("open here"));
    let blank = AttachCandidate {
        kind: AttachCandidateKind::Attach,
        attached: false,
        command: Some("  ".into()),
        ..here
    };
    assert_eq!(attach_candidate_label(&blank), "alpha · work  [detached]");
}

/// The words of an action's name, each with a capital.
fn action_label(action: Action) -> String {
    let words: Vec<String> = action
        .name()
        .split('-')
        .map(|word| {
            let (first, rest) = word.split_at(1);
            format!("{}{rest}", first.to_uppercase())
        })
        .collect();
    words.join(" ")
}

/// A binding of every action. Making a tab has a key, making a workspace has none.
fn bindings_of_all_actions() -> Vec<EffectiveBinding> {
    let mut actions = Action::of_window();
    actions.push(Action::Copy);
    actions
        .into_iter()
        .enumerate()
        .map(|(i, action)| EffectiveBinding {
            category: i % 3,
            display_name: action_label(action),
            trigger: match action {
                Action::NewTab => Some("Ctrl+T".into()),
                Action::NewWorkspace => None,
                _ => Some(format!("Alt+{i}")),
            },
            customized: i % 5 == 4 && action != Action::NewWorkspace,
        })
        .collect()
}

#[test]
fn keybinding_help_lists_every_action_with_a_trigger_column() {
    let bindings = bindings_of_all_actions();
    assert_eq!(bindings.len(), 44);
    let titles = vec!["Tabs".to_string(), "Panes".to_string(), "Workspaces".to_string()];
    let entries = build_keybinding_help_entries(&titles, &bindings);

    // First row is the escape hatch back to the main palette.
    assert_eq!(entries[0].label, "Back to Commands");

    // Every action's display name appears somewhere in the view.
    for binding in &bindings {
        let name = &binding.display_name;
        assert!(
            entries
                .iter()
                .any(|e| &e.label == name || e.label == format!("{name} (customized)")),
            "help view missing action row for {name}"
        );
    }
    assert_eq!(entries.len(), 1 + 3 + 44);

    // Bound actions carry a trigger column; unbound ones show "unbound".
    let new_tab = entries
        .iter()
        .find(|e| e.label == "New Tab")
        .expect("New Tab row present");
    let shortcut = new_tab.shortcut.as_deref().expect("New Tab has a shortcut");
    assert!(
        shortcut.to_lowercase().contains("ctrl"),
        "shortcut: {shortcut}"
    );

    let new_ws = entries
        .iter()
        .find(|e| e.label == "New Workspace")
        .expect("New Workspace row present");
    assert_eq!(new_ws.shortcut.as_deref(), Some("unbound"));

    // At least one category section header is rendered.
    assert!(
        entries.iter().any(|e| e.label.starts_with("— ")),
        "expected category section headers"
    );
}

#[test]
fn keybinding_help_groups_actions_by_category() {
    let binding = |category: usize, name: &str, trigger: Option<&str>, customized: bool| {
        EffectiveBinding {
            category,
            display_name: name.into(),
            trigger: trigger.map(str::to_string),
            customized,
        }
    };
    let bindings = vec![
        binding(0, "Previous Tab", Some("Ctrl+Page_Up"), true),
        binding(2, "New Workspace", None, false),
        binding(0, "New Tab", Some("Ctrl+T"), false),
    ];
    let titles = vec!["Tabs".to_string(), "Panes".to_string(), "Workspaces".to_string()];
    assert_eq!(
        labels(&build_keybinding_help_entries(&titles, &bindings)),
        vec![
            "Back to Commands",
            "— Tabs —",
            "New Tab",
            "Previous Tab (customized)",
            "— Workspaces —",
            "New Workspace",
        ]
    );
}

#[test]
fn a_session_keeps_one_row_with_all_reports() {
    let detached = vec![
        stub_detached("a", TmuxTarget::Local, Some("first")),
        stub_detached("a", TmuxTarget::Local, Some("second")),
    ];
    let dashboard = vec![
        stub_dashboard_session("a", TmuxTarget::Local, SessionStatus::Idle, false, Some("third")),
        stub_dashboard_session("b", TmuxTarget::Local, SessionStatus::Idle, true, None),
    ];
    let rows = build_attach_candidates(&detached, &dashboard, &[]);
    assert_eq!(rows.len(), 2);
    assert_eq!(rows[0].command.as_deref(), Some("first"));
    assert!(rows[0].attached);
    assert!(!rows[1].attached);
}

#[test]
fn live_tabs_show_their_sessions() {
    let mut state = AppState::new("w".to_string());
    let mut shown = leaf(4);
    shown.tmux_backing = Some(TmuxBacking {
        session_name: "work".into(),
        target: remote("alpha"),
        expected_generation: None,
        pane_info: ProbeSnapshot::default(),
    });
    let mut tab = stub_tab(3, "Shell");
    tab.panes = Box::new(PaneNode::Split {
        direction: SplitDirection::Vertical,
        first: Box::new(PaneNode::Leaf(leaf(5))),
        second: Box::new(PaneNode::Leaf(shown)),
        widget: 1,
    });
    state.workspaces[0].tabs.push(stub_tab(2, "Plain"));
    state.workspaces[0].tabs.push(tab);
    assert_eq!(
        live_tab_backings(&state),
        vec![(3, vec![("work".to_string(), remote("alpha"))])]
    );
}

#[test]
fn worktree_listing_asks_once() {
    let mut state = no_listing();
    state.generation = 3;
    let request = begin_worktree_listing(&mut state, "/repo").expect("first request");
    assert_eq!(request.generation, 3);
    assert_eq!(request.key, "worktree-list:3:/repo");
    assert_eq!(begin_worktree_listing(&mut state, "/repo"), None);
    assert!(!finish_worktree_submission(
        &mut state,
        "/repo",
        GitAsyncSubmission::Started
    ));
    assert!(finish_worktree_submission(
        &mut state,
        "/repo",
        GitAsyncSubmission::Saturated
    ));
    assert!(!state.in_flight);
    assert_eq!(
        state.listing_error,
        Some((
            "/repo".to_string(),
            "Git worker queue is busy; reopen Worktrees to retry".to_string()
        ))
    );
    assert_eq!(begin_worktree_listing(&mut state, "/repo"), None);
    assert_eq!(begin_worktree_listing(&mut state, "/./repo/"), None);
    assert!(begin_worktree_listing(&mut state, "/other").is_some());
}

#[test]
fn worktrees_are_listed_and_removed_by_branch_and_directory() {
    let info = WorktreeInfo {
        path: "/repos/feature-x".into(),
        branch: Some("feature/x".into()),
    };
    assert_eq!(worktree_entry_label(&info), "feature/x (feature-x)");
    let bare = WorktreeInfo {
        path: "/".into(),
        branch: None,
    };
    assert_eq!(worktree_entry_label(&bare), "/");

    let mut state = no_listing();
    let root = Some("/repos/main".to_string());
    let entries = build_worktree_entries(PaletteMode::WorktreeList, &root, &state);
    assert_eq!(labels(&entries), vec!["Back to Commands", "Loading worktrees…"]);
    state.listing = Some((
        "/repos/main".into(),
        vec![
            WorktreeInfo {
                path: "/repos/main".into(),
                branch: Some("main".into()),
            },
            info,
        ],
    ));
    let entries = build_worktree_entries(PaletteMode::WorktreeList, &root, &state);
    assert_eq!(
        labels(&entries),
        vec![
            "Back to Commands",
            "Open Worktree: main (main)",
            "Open Worktree: feature/x (feature-x)"
        ]
    );
    let entries = build_worktree_entries(PaletteMode::WorktreeRemove, &root, &state);
    assert_eq!(
        labels(&entries),
        vec!["Back to Commands", "Remove Worktree: feature/x (feature-x)"]
    );
    assert!(matches!(
        &entries[1].action,
        PaletteAction::DeleteWorktree(path, repo) if path == "/repos/feature-x" && repo == "/repos/main"
    ));
    // The listing is found under any text of its path; actions take the one asked for.
    let written = Some("/repos/./main/".to_string());
    let entries = build_worktree_entries(PaletteMode::WorktreeRemove, &written, &state);
    assert!(matches!(
        &entries[1].action,
        PaletteAction::DeleteWorktree(path, repo)
            if path == "/repos/feature-x" && repo == "/repos/./main/"
    ));
    state.listing = None;
    state.listing_error = Some(("/repos/main".into(), "boom".into()));
    let entries = build_worktree_entries(PaletteMode::WorktreeList, &written, &state);
    assert_eq!(entries[1].label, "Could not refresh worktrees: boom");
    let entries = build_worktree_entries(PaletteMode::WorktreeList, &root, &state);
    assert_eq!(entries[1].label, "Could not refresh worktrees: boom");
    let entries = build_worktree_entries(PaletteMode::WorktreeList, &None, &state);
    assert_eq!(labels(&entries), vec!["Back to Commands"]);
}

#[test]
fn worktree_requests_and_endings() {
    let request = worktree_create_request("/repo", "  feature/y ").expect("a branch");
    assert_eq!(request.branch, "feature/y");
    assert_eq!(request.key, "worktree-create:/repo:feature/y");
    assert_eq!(worktree_create_request("/repo", "  "), None);
    assert_eq!(worktree_remove_key("/repo-x"), "worktree-remove:/repo-x");
    assert!(matches!(
        after_worktree_creation(Ok("/w".into()), true),
        WorktreeCreated::Open { path } if path == "/w"
    ));
    assert!(matches!(
        after_worktree_creation(Ok("/w".into()), false),
        WorktreeCreated::RollBack { path } if path == "/w"
    ));
    assert!(matches!(
        after_worktree_creation(Err("no".into()), true),
        WorktreeCreated::Fail { message } if message == "Could not create worktree: no"
    ));
    assert_eq!(
        worktree_rollback_submission_failure("/w", GitAsyncSubmission::Saturated).as_deref(),
        Some("Created worktree /w, but rollback could not be scheduled because the Git worker queue is busy")
    );
    assert_eq!(
        worktree_rollback_submission_failure("/w", GitAsyncSubmission::Started),
        None
    );
}

#[test]
fn stores_are_read_once_and_answers_to_forgotten_requests_are_dropped() {
    let mut projects: PaletteStore<u32> = PaletteStore::new();
    let mut templates: PaletteStore<u32> = PaletteStore::new();
    let mut views: PaletteStore<u32> = PaletteStore::new();
    let requests =
        ensure_palette_stores(&mut projects, &mut templates, &mut views, PaletteMode::Default);
    assert_eq!(requests.len(), 1);
    assert_eq!(requests[0].kind, StoreKind::Projects);
    assert_eq!(requests[0].key, "palette-projects:0");
    assert!(ensure_palette_stores(
        &mut projects,
        &mut templates,
        &mut views,
        PaletteMode::Default
    )
    .is_empty());
    projects.invalidate();
    projects.finish(0, Ok(1));
    assert!(projects.value.is_none());
    let requests = ensure_palette_stores(
        &mut projects,
        &mut templates,
        &mut views,
        PaletteMode::TemplateDeleteList,
    );
    let keys: Vec<&str> = requests.iter().map(|r| r.key.as_str()).collect();
    assert_eq!(keys, vec!["palette-projects:1", "palette-templates:0"]);
    projects.finish(1, Ok(7));
    assert_eq!(projects.value, Some(Ok(7)));
    templates.finish_submission(StoreKind::Templates, 0, GitAsyncSubmission::Saturated);
    assert_eq!(
        templates.value,
        Some(Err("worker queue is busy; reopen Templates to retry".to_string()))
    );
    let requests = ensure_palette_stores(
        &mut projects,
        &mut templates,
        &mut views,
        PaletteMode::SavedViewList,
    );
    assert_eq!(requests.len(), 1);
    assert_eq!(requests[0].key, "palette-views:0");
    views.finish_submission(StoreKind::Views, 0, GitAsyncSubmission::Coalesced);
    assert_eq!(
        views.value,
        Some(Err(
            "saved-views worker was already registered without this palette; reopen to retry"
                .to_string()
        ))
    );
    projects.finish_submission(StoreKind::Projects, 1, GitAsyncSubmission::Started);
    assert_eq!(projects.value, Some(Ok(7)));
    assert_eq!(
        StoreKind::Projects
            .refusal_message(GitAsyncSubmission::Coalesced)
            .as_deref(),
        Some("project worker was already registered without this palette; reopen to retry")
    );
}

#[test]
fn the_commands_have_their_keys_and_places() {
    let mut state = AppState::new("w".to_string());
    state.workspaces[0].tabs.push(stub_tab(11, "editor"));
    state.workspaces[0].active_tab = 11;
    state.create_workspace("other", None, "w2".to_string());
    state.active_workspace = 1;
    state.workspaces[0].repo_root = Some("/repo".into());
    let mut context = empty_context();
    context.shortcuts.labels = vec![
        (Action::NewTab, "Ctrl+T".to_string()),
        (Action::BroadcastOff, "Ctrl+0".to_string()),
    ];
    context.tmux = TmuxUiState {
        available: false,
        unavailable_message: Some("no tmux".into()),
    };
    context.broadcast_scope = Some(BroadcastScope::Tab);
    context.projects = Some(Ok(vec![RegisteredProject {
        id: "p1".into(),
        display_name: "Site".into(),
        host: ProjectHost::Ssh {
            name: "alpha".into(),
            ssh_target: "me@alpha".into(),
        },
        canonical_repo: "org/site".into(),
        checkout_root: "/srv/site".into(),
    }]));
    context.hosts = vec![
        HostCandidate {
            name: "beta".into(),
            config: HostConfig {
                name: "beta".into(),
                ssh_target: Some("me@beta".into()),
            },
            source: HostSource::SshConfig,
        },
        HostCandidate {
            name: "gamma".into(),
            config: HostConfig {
                name: "gamma".into(),
                ssh_target: None,
            },
            source: HostSource::ConfigToml,
        },
    ];
    let entries = build_entries(&state, &context);
    assert_eq!(entries[0].label, "New Tab");
    assert_eq!(entries[0].shortcut.as_deref(), Some("Ctrl+T"));
    assert_eq!(entries[1].shortcut, None);
    assert_eq!(entries[2].label, "New tmux-backed Tab… (tmux unavailable)");
    assert!(matches!(&entries[2].action, PaletteAction::ShowError(m) if m == "no tmux"));
    assert_eq!(entries[7].label, "Copy Recent Output (200 lines)");
    assert_eq!(entries[39].label, "Keyboard Shortcuts");
    assert_eq!(
        labels(&entries[40..]),
        vec![
            "Broadcast Input: Active Tab (Current)",
            "Broadcast Input: Active Workspace",
            "Broadcast Input: Off",
            "Switch to: editor",
            "Move current tab -> other",
            "Create Worktree",
            "List Worktrees",
            "Remove Worktree",
            "Project: Site — alpha — org/site — /srv/site",
            "Forget project: Site — alpha — /srv/site",
            "Connect: beta — me@beta — ssh config",
        ]
    );
    assert_eq!(entries[42].shortcut.as_deref(), Some("Ctrl+0"));
    context.projects = None;
    context.broadcast_scope = None;
    let entries = build_entries(&state, &context);
    assert!(labels(&entries).contains(&"Loading registered projects…"));
    assert!(!labels(&entries).contains(&"Broadcast Input: Off"));
    context.projects = Some(Err("disk".into()));
    let entries = build_entries(&state, &context);
    assert!(labels(&entries).contains(&"Projects unavailable: disk"));
}

#[test]
fn every_list_leads_back() {
    let state = AppState::new("w".to_string());
    let mut lists = empty_lists();
    lists.clipboard = vec![ClipboardEntry {
        text: "one\ntwo".into(),
        source: "editor".into(),
    }];
    lists.templates = Some(Ok(vec![TemplateRecord::Tab {
        name: "api".into(),
        tab: SavedTab {
            name: "api".into(),
            work_origin: None,
            cwd: None,
            panes: None,
            discovery_cwd: None,
        },
    }]));
    lists.views = Some(Ok(vec![new_saved_view(
        "mine".into(),
        ViewPreset::RecentAlerts,
        "Recent Alerts".into(),
    )]));
    let mut session = closed_session();
    for mode in [
        PaletteMode::WorktreeList,
        PaletteMode::WorktreeRemove,
        PaletteMode::TemplateTabList,
        PaletteMode::TemplateWorkspaceList,
        PaletteMode::TemplateDeleteList,
        PaletteMode::SavedViewList,
        PaletteMode::SavedViewDeleteList,
        PaletteMode::AttachSessionList,
        PaletteMode::KeybindingHelp,
        PaletteMode::SendToPane,
        PaletteMode::ClipboardHistory,
        PaletteMode::RecentFiles,
    ] {
        session.mode = mode;
        let entries = palette_entries(&session, &state, &lists);
        assert_eq!(entries[0].label, "Back to Commands");
    }
    session.mode = PaletteMode::TemplateTabList;
    assert_eq!(
        palette_entries(&session, &state, &lists)[1].label,
        "New Tab from Template: api"
    );
    session.mode = PaletteMode::TemplateWorkspaceList;
    assert_eq!(palette_entries(&session, &state, &lists).len(), 1);
    session.mode = PaletteMode::TemplateDeleteList;
    assert_eq!(
        palette_entries(&session, &state, &lists)[1].label,
        "Delete Tab Template: api"
    );
    session.mode = PaletteMode::SavedViewList;
    assert_eq!(
        palette_entries(&session, &state, &lists)[1].label,
        "Open Saved View: mine (Recent Alerts)"
    );
    session.mode = PaletteMode::SavedViewDeleteList;
    assert_eq!(
        palette_entries(&session, &state, &lists)[1].label,
        "Delete Saved View: mine (Recent Alerts)"
    );
    session.mode = PaletteMode::AttachSessionList;
    assert!(palette_entries(&session, &state, &lists)[1]
        .label
        .starts_with("No tmux sessions found."));
    session.mode = PaletteMode::SendToPane;
    assert_eq!(
        labels(&palette_entries(&session, &state, &lists)),
        vec![
            "Back to Commands",
            "Sending: current selection or clipboard",
            "No panes available to send to."
        ]
    );
    session.mode = PaletteMode::ClipboardHistory;
    let entries = palette_entries(&session, &state, &lists);
    assert_eq!(entries[1].label, "one\ntwo");
    assert_eq!(entries[1].shortcut.as_deref(), Some("editor"));
    assert_eq!(entries[2].label, "  ↳ Send to pane…");
    session.mode = PaletteMode::RecentFiles;
    assert_eq!(
        palette_entries(&session, &state, &lists)[1].label,
        "No recent files."
    );
    session.mode = PaletteMode::SavedViewList;
    lists.views = Some(Err("gone".into()));
    assert_eq!(
        palette_entries(&session, &state, &lists)[1].label,
        "⚠ Saved views unavailable: gone"
    );
    lists.views = None;
    assert_eq!(
        palette_entries(&session, &state, &lists)[1].label,
        "Loading saved views…"
    );
}

#[test]
fn choosing_an_entry_moves_on_or_closes() {
    let mut session = closed_session();
    session.show_palette();
    assert!(session.visible);
    session.query = "temp".into();
    let open_templates = PaletteEntry {
        label: "New Tab from Template".into(),
        shortcut: None,
        action: PaletteAction::OpenTabTemplates,
    };
    let (effect, focus) = session.activate_palette_row(Some(&open_templates), None);
    assert!(matches!(effect, PaletteEffect::Nothing));
    assert_eq!(focus, FocusAfter::Query);
    assert_eq!(session.mode, PaletteMode::TemplateTabList);
    assert_eq!(session.query, "");
    assert!(session.visible);

    let choose = PaletteEntry {
        label: "New Tab from Template: api".into(),
        shortcut: None,
        action: PaletteAction::OpenTabTemplate("api".into()),
    };
    let (effect, focus) = session.activate_palette_row(Some(&choose), None);
    assert!(matches!(effect, PaletteEffect::OpenTabTemplate(name) if name == "api"));
    assert_eq!(focus, FocusAfter::Terminal);
    assert!(!session.visible);

    session.show_keybinding_help();
    assert_eq!(session.mode, PaletteMode::KeybindingHelp);
    let noop = PaletteAction::Noop;
    let (effect, keep_open) = session.execute_action(&noop, None);
    assert!(matches!(effect, PaletteEffect::Nothing));
    assert!(keep_open);
    assert_eq!(session.mode, PaletteMode::KeybindingHelp);

    session.worktrees.generation = 4;
    session.worktrees.in_flight = true;
    let list = PaletteAction::ListWorktrees;
    let (_, keep_open) = session.execute_action(&list, None);
    assert!(keep_open);
    assert_eq!(session.mode, PaletteMode::WorktreeList);
    assert_eq!(session.worktrees.generation, 5);
    assert!(!session.worktrees.in_flight);

    let (effect, focus) = session.activate_palette_row(None, None);
    assert!(matches!(effect, PaletteEffect::Nothing));
    assert_eq!(focus, FocusAfter::Terminal);
    assert!(!session.visible);
}

#[test]
fn sending_captures_the_text_before_the_pane_is_chosen() {
    let mut session = closed_session();
    session.open_send_to_pane_picker(capture_send_source(false, None, Some("picked".into())));
    assert_eq!(session.mode, PaletteMode::SendToPane);
    assert_eq!(
        send_source_label(&session.send_source),
        "Sending: current selection"
    );
    assert_eq!(inline_send_text(&session.send_source).as_deref(), Some("picked"));
    let relay = PaletteAction::OpenRelayLastMessage;
    assert_eq!(capture_for(&relay), Capture::LastMessage);
    session.execute_action(&relay, Some(SendPayloadSource::LastMessage("hi".into())));
    assert_eq!(
        send_source_label(&session.send_source),
        "Sending: last agent message"
    );
    let with_text = PaletteAction::OpenSendToPaneWithText("copied".into());
    session.execute_action(&with_text, None);
    assert_eq!(inline_send_text(&session.send_source).as_deref(), Some("copied"));
    let output = PaletteAction::OpenSendToPane { last_output: true };
    assert_eq!(capture_for(&output), Capture::RecentOutput);
    let selection = PaletteAction::OpenSendToPane { last_output: false };
    assert_eq!(capture_for(&selection), Capture::Selection);
    session.execute_action(&output, capture_send_source(true, None, Some("x".into())));
    assert_eq!(inline_send_text(&session.send_source), None);
    session.open_relay_last_message_picker(SendPayloadSource::LastOutput("out".into()));
    assert_eq!(send_source_label(&session.send_source), "Sending: recent output");
    session.open_clipboard_history_picker();
    assert_eq!(session.mode, PaletteMode::ClipboardHistory);
    assert!(session.send_source.is_none());
    session.open_recent_files_picker();
    assert_eq!(session.mode, PaletteMode::RecentFiles);
    assert_eq!(
        send_source_label(&capture_send_source(false, None, None)),
        "Sending: clipboard text"
    );
    assert_eq!(
        nothing_to_send(true),
        "Nothing to send: the source text was empty."
    );
    assert_eq!(
        nothing_to_send(false),
        "Nothing to send: no selection or clipboard text."
    );
}

#[test]
fn relaying_falls_back_to_recent_output() {
    let (source, notice) = relay_last_message_source(
        LastAgentMessageResolution::Transcript("done".into()),
        Some("out".into()),
    );
    assert!(matches!(source, SendPayloadSource::LastMessage(text) if text == "done"));
    assert_eq!(notice, None);
    let unavailable = || LastAgentMessageResolution::Unavailable {
        agent: "agent".into(),
        reason: "no transcript".into(),
    };
    let (source, notice) = relay_last_message_source(unavailable(), Some("out".into()));
    assert!(matches!(source, SendPayloadSource::LastOutput(text) if text == "out"));
    assert_eq!(
        notice.as_deref(),
        Some("agent: no transcript; relaying recent output instead")
    );
    let (source, _) = relay_last_message_source(unavailable(), None);
    assert!(matches!(
        source,
        SendPayloadSource::SelectionOrClipboard { selection: None }
    ));
}

#[test]
fn panes_are_offered_with_agent_and_activity() {
    let mut state = AppState::new("w".to_string());
    let mut tab = stub_tab(3, "Shell");
    let mut live = leaf(5);
    live.shell_pid = Some(100);
    tab.panes = Box::new(PaneNode::Split {
        direction: SplitDirection::Vertical,
        first: Box::new(PaneNode::Leaf(leaf(4))),
        second: Box::new(PaneNode::Split {
            direction: SplitDirection::Vertical,
            first: Box::new(PaneNode::Leaf(live)),
            second: Box::new(PaneNode::Leaf(leaf(6))),
            widget: 2,
        }),
        widget: 1,
    });
    let snapshot = RuntimeProbeSnapshot {
        tab_pids: Vec::new(),
        pane_pids: Vec::new(),
        pane_agents: vec![
            (
                (3, 6),
                AgentStatus {
                    agent_name: Some("agent".into()),
                    session_id: None,
                    running: true,
                },
            ),
            (
                (3, 4),
                AgentStatus {
                    agent_name: Some("agent".into()),
                    session_id: None,
                    running: false,
                },
            ),
        ],
        tab_agents: Vec::new(),
        tab_ports: Vec::new(),
        pane_process_states: Vec::new(),
    };
    let running = running_agents_of_tab(&tab, &snapshot);
    assert_eq!(running.len(), 1);
    assert_eq!(running[0].0, 6);
    state.workspaces[0].tabs.push(tab);
    let agents = vec![PaneAgentLabel {
        tab_id: 3,
        pane_id: 6,
        label: "agent 1".into(),
    }];
    let activities = vec![PaneActivity {
        tab_id: 3,
        pane_id: 6,
        state: AgentActivityState::WaitingInput,
    }];
    let targets = send_target_panes(&state, &agents, &activities);
    let shown: Vec<&str> = targets.iter().map(|t| t.label.as_str()).collect();
    assert_eq!(
        shown,
        vec![
            "shell · pane 4",
            "shell · pane 5 · idle",
            "agent 1 · pane 6 · waiting-input"
        ]
    );
}

#[test]
fn copied_texts_are_cut_short() {
    assert_eq!(clipboard_preview("one"), "one");
    assert_eq!(clipboard_preview("one\ntwo\nthree\n"), "one\ntwo\nthree");
    assert_eq!(clipboard_preview("1\n2\n3\n4"), "1\n2\n3…");
    assert_eq!(clipboard_preview(" \n\t"), "(whitespace)");
    assert_eq!(clipboard_preview(""), "(whitespace)");
    assert_eq!(clipboard_preview("\n \n\n\t\n"), "(whitespace)");
    // What is left out counts: this text is not blank, though its beginning is.
    assert_eq!(clipboard_preview("\n\n\nabc"), "\n\n…");
    let indented = format!("{}x", " ".repeat(240));
    assert_eq!(clipboard_preview(&indented), format!("{}…", " ".repeat(240)));
    let long = "é".repeat(241);
    assert_eq!(clipboard_preview(&long), format!("{}…", "é".repeat(240)));
    assert_eq!(clipboard_preview(&"é".repeat(240)), "é".repeat(240));
    for text in ["", "a", "a\n", "a\r\nb\r", "\n\n", "a\n\nb\r\n", "\r\n", "x\ry"] {
        let expected: Vec<String> = text.lines().map(str::to_string).collect();
        assert_eq!(text_lines(text), expected);
    }
}

#[test]
fn recent_files_are_listed_once_newest_first() {
    let file = |path: &str, at: u64, verb: &str| TouchedFile {
        path: path.into(),
        at_unix_ms: at,
        verb: verb.into(),
    };
    let touched = vec![
        file("/p/a.rs", 10, "Created"),
        file("/p/b.rs", 20, "Edited"),
        file("/p/a.rs", 30, "Edited"),
        file("/p/b.rs", 5, "Created"),
    ];
    let newest = newest_files(&touched);
    assert_eq!(newest, vec![file("/p/a.rs", 30, "Edited"), file("/p/b.rs", 20, "Edited")]);
    // One path, however it is written: the first text stays, the last touch counts.
    let touched = vec![
        file("/p/a.rs", 10, "Created"),
        file("/p/./a.rs", 30, "Edited"),
        file("/p//a.rs", 20, "Deleted"),
        file("/p/q/../a.rs", 5, "Created"),
    ];
    assert_eq!(
        newest_files(&touched),
        vec![file("/p/a.rs", 30, "Edited"), file("/p/q/../a.rs", 5, "Created")]
    );
    let many: Vec<TouchedFile> = (0..25).map(|i| file(&format!("/f{i}"), i, "Edited")).collect();
    let newest = newest_files(&many);
    assert_eq!(newest.len(), 20);
    assert_eq!(newest[0].path, "/f24");
    assert_eq!(newest[19].path, "/f5");
    // What a full list leaves out is no newer than what it shows.
    assert!(many
        .iter()
        .filter(|left| newest.iter().all(|row| row.path != left.path))
        .all(|left| newest.iter().all(|row| row.at_unix_ms >= left.at_unix_ms)));

    let mut state = AppState::new("w".to_string());
    let mut pane = leaf(4);
    pane.location_state.cwd = Some("/home/me/p".into());
    let mut tab = stub_tab(3, "Shell");
    tab.panes = Box::new(PaneNode::Leaf(pane));
    state.workspaces[0].tabs.push(tab);
    state.workspaces[0].active_tab = 3;
    let mut lists = empty_lists();
    lists.transcripts = vec![PaneTranscript {
        tab_id: 3,
        pane_id: 4,
        recent_files: vec![file("src/lib.rs", 1, "Edited"), file("/etc/hosts", 2, "Created")],
    }];
    let mut session = closed_session();
    session.mode = PaletteMode::RecentFiles;
    let entries = palette_entries(&session, &state, &lists);
    assert_eq!(
        labels(&entries),
        vec!["Back to Commands", "Created hosts", "Edited lib.rs"]
    );
    assert_eq!(entries[2].shortcut.as_deref(), Some("/home/me/p/src"));
    assert!(matches!(
        &entries[2].action,
        PaletteAction::OpenRecentFile(path) if path == "/home/me/p/src/lib.rs"
    ));
}

#[test]
fn templates_are_found_and_planned() {
    let tab = |name: &str, discovered: bool| SavedTab {
        name: name.into(),
        work_origin: None,
        cwd: Some("/srv".into()),
        panes: Some(format!("panes of {name}")),
        discovery_cwd: if discovered { Some("/srv".into()) } else { None },
    };
    let templates = Some(Ok(vec![
        TemplateRecord::Workspace {
            name: "API".into(),
            workspace: SavedWorkspaceTemplate {
                work_origin: None,
                tabs: vec![tab("one", true), tab("  ", false), tab("two", true)],
                active_tab_index: 9,
            },
        },
        TemplateRecord::Tab {
            name: "api".into(),
            tab: tab("api", true),
        },
        TemplateRecord::Workspace {
            name: "empty".into(),
            workspace: SavedWorkspaceTemplate {
                work_origin: None,
                tabs: Vec::new(),
                active_tab_index: 0,
            },
        },
    ]));
    assert_eq!(
        find_template(&templates, TemplateKind::Tab, "Api").map(|t| t.name()),
        Some("api")
    );
    assert!(find_template(&None, TemplateKind::Tab, "api").is_none());
    match choose_tab_template(&templates, "API") {
        TemplateChoice::Tab { name, tab } => {
            let plan = plan_tab_template(name, tab);
            assert_eq!(plan.tab_name, "api");
            assert_eq!(plan.discovery_delay_ms, Some(350));
            assert_eq!(plan.panes.as_deref(), Some("panes of api"));
        }
        _ => panic!("a tab template was expected"),
    }
    match choose_workspace_template(&templates, "api") {
        TemplateChoice::Workspace { name, workspace } => {
            assert_eq!(name, "API");
            let plans = plan_workspace_template_tabs(&workspace.tabs);
            let names: Vec<&str> = plans.iter().map(|p| p.tab_name.as_str()).collect();
            assert_eq!(names, vec!["one", "Shell", "two"]);
            let delays: Vec<Option<u64>> = plans.iter().map(|p| p.discovery_delay_ms).collect();
            assert_eq!(delays, vec![Some(500), None, Some(700)]);
            assert_eq!(plans[2].panes.as_deref(), Some("panes of two"));
        }
        _ => panic!("a workspace template was expected"),
    }
    assert!(matches!(
        choose_workspace_template(&templates, "empty"),
        TemplateChoice::Refused { message } if message == "Workspace template \"empty\" has no tabs"
    ));
    assert!(matches!(
        choose_workspace_template(&templates, "none"),
        TemplateChoice::Refused { message }
            if message == "Workspace template \"none\" was not found"
    ));
    assert!(matches!(
        choose_tab_template(&templates, "empty"),
        TemplateChoice::Refused { message } if message == "Tab template \"empty\" was not found"
    ));
    assert_eq!(template_active_tab(9, 3), Some(2));
    assert_eq!(template_active_tab(1, 3), Some(1));
    assert_eq!(template_active_tab(0, 0), None);
}

#[test]
fn saved_directories_lead_to_local_paths() {
    let text = |s: &str| Some(s.to_string());
    assert_eq!(saved_template_cwd_to_local_path(&None, &None), None);
    assert_eq!(saved_template_cwd_to_local_path(&text("  "), &None), None);
    assert_eq!(
        saved_template_cwd_to_local_path(&text(" /srv/app "), &None).as_deref(),
        Some("/srv/app")
    );
    assert_eq!(
        saved_template_cwd_to_local_path(&text("host:/srv/app"), &None).as_deref(),
        Some("/srv/app")
    );
    assert_eq!(
        saved_template_cwd_to_local_path(&text("app"), &None).as_deref(),
        Some("app")
    );
    assert_eq!(
        saved_cwd_uri(&text(" file:///srv ")).as_deref(),
        Some("file:///srv")
    );
    assert_eq!(saved_cwd_uri(&text("/srv")), None);
    let here = Some((None, "/srv".to_string()));
    let there = Some((text("alpha"), "/srv".to_string()));
    assert_eq!(
        saved_template_cwd_to_local_path(&text("file:///srv"), &here).as_deref(),
        Some("/srv")
    );
    assert_eq!(
        saved_template_cwd_to_local_path(&text("file://alpha/srv"), &there),
        None
    );
}

#[test]
fn tabs_and_workspaces_are_saved_as_templates() {
    let mut state = AppState::new("w".to_string());
    assert_eq!(
        snapshot_workspace_template(&state, "gone", &Vec::new()),
        Err("Cannot save an empty workspace as a template".to_string())
    );
    let mut pane = leaf(4);
    pane.location_state.cwd = Some("/srv".into());
    let mut tab = stub_tab(3, "Shell");
    tab.panes = Box::new(PaneNode::Leaf(pane));
    assert_eq!(
        snapshot_saved_tab(&tab, Some("{}".into())),
        SavedTab {
            name: "Shell".into(),
            work_origin: Some("tab-3".into()),
            cwd: Some("/srv".into()),
            panes: Some("{}".into()),
            discovery_cwd: Some("/tmp".into()),
        }
    );
    state.workspaces[0].tabs.push(stub_tab(2, "Stub"));
    state.workspaces[0].tabs.push(tab);
    state.workspaces[0].active_tab = 3;
    let trees = vec!["{}".to_string(), "[]".to_string()];
    let template = snapshot_workspace_template(&state, "gone", &trees).expect("a template");
    assert_eq!(template.tabs[0].panes.as_deref(), Some("{}"));
    assert_eq!(template.tabs[1].panes.as_deref(), Some("[]"));
    assert_eq!(template.active_tab_index, 1);
    assert_eq!(template.tabs.len(), 2);
    assert_eq!(template.tabs[0].cwd, None);
    assert_eq!(template.tabs[1].name, "Shell");
    assert_eq!(template.tabs[0].work_origin.as_deref(), Some("tab-2"));
    state.workspaces[0].active_tab = 77;
    let template = snapshot_workspace_template(&state, "gone", &Vec::new()).expect("a template");
    assert_eq!(template.tabs[1].panes, None);
    assert_eq!(template.active_tab_index, 0);
    state.active_workspace = 99;
    assert_eq!(
        snapshot_workspace_template(&state, "gone", &Vec::new()),
        Err("gone".to_string())
    );
}

#[test]
fn worktree_workspaces_are_found_or_made() {
    let mut state = AppState::new("w".to_string());
    let created =
        ensure_worktree_workspace_state(&mut state, "/repos/feature", "w2".to_string());
    assert_eq!(
        created,
        WorktreeWorkspaceState::Created {
            workspace_id: 2,
            header_label: "feature".into()
        }
    );
    assert_eq!(state.active_workspace, 2);
    assert!(state.workspaces[1].is_worktree);
    assert_eq!(
        state.workspaces[1].working_tree_path.as_deref(),
        Some("/repos/feature")
    );
    state.workspaces[1].tabs.push(stub_tab(11, "Shell"));
    state.workspaces[1].tabs.push(stub_tab(12, "Notes"));
    state.workspaces[1].active_tab = 12;
    state.active_workspace = 1;
    let shown = WorktreeWorkspaceState::Existing {
        workspace_id: 2,
        tab_id: 12,
    };
    let found = ensure_worktree_workspace_state(&mut state, "/repos/feature", "w3".to_string());
    assert_eq!(found, shown);
    assert_eq!(state.workspaces.len(), 2);
    assert_eq!(state.active_workspace, 2);
    assert_eq!(state.workspaces[1].active_tab, 12);

    // A tab that is gone does not keep the focus.
    state.active_workspace = 1;
    state.workspaces[1].active_tab = 99;
    let found = ensure_worktree_workspace_state(&mut state, "/repos/feature", "w3".to_string());
    assert_eq!(
        found,
        WorktreeWorkspaceState::Existing {
            workspace_id: 2,
            tab_id: 11
        }
    );
    assert_eq!(state.active_workspace, 2);
    assert_eq!(state.workspaces[1].active_tab, 11);

    // A place that is found needs no new id.
    let next_id = state.next_id;
    state.next_id = u32::MAX;
    let found = ensure_worktree_workspace_state(&mut state, "/repos/feature", "w3".to_string());
    assert!(matches!(found, WorktreeWorkspaceState::Existing { .. }));
    assert_eq!(ensure_default_workspace(&mut state, "w3".to_string()), None);
    state.next_id = next_id;

    // A dashboard cannot get the focus.
    state.active_workspace = 1;
    state.workspaces[1].active_tab = 12;
    state.workspaces[1].tabs[1].kind = TabKind::Dashboard;
    let found = ensure_worktree_workspace_state(&mut state, "/repos/feature", "w3".to_string());
    assert_eq!(found, shown);
    assert_eq!(state.active_workspace, 1);
    state.active_workspace = 2;

    let info = GitInfo {
        repo_root: Some("/repos/main".into()),
        checkout_root: Some("/repos/feature".into()),
        branch: Some("feature".into()),
        is_dirty: false,
        upstream: None,
    };
    let label = apply_worktree_discovery(
        &mut state,
        2,
        "w2",
        "/repos/feature",
        &Some("/repos/kept".to_string()),
        &info,
    );
    assert_eq!(label.as_deref(), Some("feature  feature"));
    assert_eq!(state.workspaces[1].repo_root.as_deref(), Some("/repos/kept"));
    assert!(state.workspaces[1].is_worktree);
    assert_eq!(
        apply_worktree_discovery(&mut state, 2, "other", "/repos/feature", &None, &info),
        None
    );
    assert_eq!(
        apply_new_workspace_discovery(&mut state, 1, "w", &info).as_deref(),
        Some("feature  feature")
    );
    assert_eq!(state.workspaces[0].name, "feature");
    assert_eq!(
        workspace_of_removed_worktree(&state, "/repos/feature"),
        Some(1)
    );
    assert!(workspace_identity_is_current(&state, &None));
    assert!(workspace_identity_is_current(&state, &Some((2, "w2".into()))));
    assert!(!workspace_identity_is_current(&state, &Some((2, "w".into()))));
}

#[test]
fn workspaces_for_loops_and_defaults() {
    let mut state = AppState::new("w".to_string());
    let loops = ensure_loops_workspace(&mut state, "w2".to_string());
    assert_eq!(loops, 2);
    assert_eq!(state.workspaces[1].name, "Loops");
    assert_eq!(ensure_loops_workspace(&mut state, "w3".to_string()), 2);
    assert_eq!(state.workspaces.len(), 2);
    assert_eq!(ensure_default_workspace(&mut state, "w4".to_string()), None);
    state.workspaces.clear();
    assert_eq!(ensure_default_workspace(&mut state, "w4".to_string()), Some(3));
    assert_eq!(state.workspaces[0].name, "default");
    assert_eq!(loop_split_direction(1), SplitDirection::Vertical);
    assert_eq!(loop_split_direction(2), SplitDirection::Horizontal);
}

fn site() -> RegisteredProject {
    RegisteredProject {
        id: "p1".into(),
        display_name: "Site".into(),
        host: ProjectHost::Local,
        canonical_repo: "org/site".into(),
        checkout_root: "/srv/site".into(),
    }
}

#[test]
fn projects_open_step_by_step() {
    let project = site();
    assert!(matches!(
        open_registered_project(&project, &Err("bad".into())),
        ProjectOpenStep::Fail { message } if message == "Could not open project: bad"
    ));
    let plain = Ok(ProjectOpenPlan::Local {
        working_dir: "/srv/site".into(),
        tmux: false,
    });
    assert!(matches!(
        open_registered_project(&project, &plain),
        ProjectOpenStep::OpenShellTab { name, working_dir }
            if name == "Site" && working_dir == "/srv/site"
    ));
    let remote_plan = ProjectOpenPlan::Remote {
        host_name: "alpha".into(),
        ssh_target: "me@alpha".into(),
        connection_argv: None,
        working_dir: "/srv".into(),
        tmux: true,
    };
    assert!(matches!(
        continue_project_open(
            &project,
            &remote_plan,
            &ProjectOpenEvent::TmuxValidated(Ok(()))
        ),
        ProjectOpenStep::OpenTmuxTab { host: Some(host), .. }
            if host.ssh_target.as_deref() == Some("me@alpha")
    ));
    assert!(matches!(
        continue_project_open(
            &project,
            &remote_plan,
            &ProjectOpenEvent::TmuxValidated(Err("no tmux".into()))
        ),
        ProjectOpenStep::Fail { message } if message == "Could not open project: no tmux"
    ));
    let shell_plan = ProjectOpenPlan::Remote {
        host_name: "alpha".into(),
        ssh_target: "me@alpha".into(),
        connection_argv: Some(vec!["ssh".into(), "-p".into(), "22".into(), "alpha".into()]),
        working_dir: "/srv".into(),
        tmux: false,
    };
    let shell_plan = Ok(shell_plan);
    match open_registered_project(&project, &shell_plan) {
        ProjectOpenStep::BuildRemoteShell {
            ssh_target,
            connection_argv,
            working_dir,
        } => {
            assert_eq!(ssh_target, "me@alpha");
            assert_eq!(connection_argv.as_ref().map(Vec::len), Some(4));
            assert_eq!(working_dir, "/srv");
            let command = "cd '/srv' && if [ -n \"$SHELL\" ] && [ -x \"$SHELL\" ]; then exec \"$SHELL\"; else exec /bin/bash; fi";
            assert_eq!(
                remote_shell_argv(&ssh_target, &connection_argv, &working_dir),
                Ok(["ssh", "-tt", "-p", "22", "alpha", command]
                    .map(str::to_string)
                    .to_vec())
            );
            assert_eq!(
                remote_shell_argv(&ssh_target, &None, &working_dir),
                Ok(["ssh", "-tt", "me@alpha", command].map(str::to_string).to_vec())
            );
            assert_eq!(
                remote_shell_argv(&ssh_target, &Some(vec!["mosh".into()]), &working_dir),
                Err("the host cannot run commands")
            );
        }
        _ => panic!("a remote project without tmux needs a shell"),
    }
    let shell_plan = shell_plan.expect("a plan");
    assert!(matches!(
        continue_project_open(
            &project,
            &shell_plan,
            &ProjectOpenEvent::ShellBuilt(Ok(vec!["ssh".into()]))
        ),
        ProjectOpenStep::OpenCommandTab { location: Some((dir, host)), .. }
            if dir == "/srv" && host == "alpha"
    ));
    let coder = |create_if_missing: bool, create: Option<Vec<String>>| ProjectOpenPlan::Coder {
        workspace_name: "site".into(),
        list_command: vec!["coder".into(), "list".into()],
        create_if_missing,
        create_command: create,
        connect_command: vec!["coder".into(), "ssh".into()],
    };
    let missing = ProjectOpenEvent::CoderListed(Ok(false));
    assert!(matches!(
        open_registered_project(&project, &Ok(coder(false, None))),
        ProjectOpenStep::ListCoder { command, workspace_name }
            if command == vec!["coder".to_string(), "list".to_string()]
                && workspace_name == "site"
    ));
    assert!(matches!(
        continue_project_open(&project, &coder(true, None), &ProjectOpenEvent::CoderListFailed),
        ProjectOpenStep::Fail { message }
            if message == "Could not open project: coder list failed"
    ));
    assert!(matches!(
        continue_project_open(&project, &coder(true, None), &ProjectOpenEvent::CoderWorkerLost),
        ProjectOpenStep::Fail { message }
            if message == "Could not open project: Coder project preflight failed"
    ));
    assert!(matches!(
        continue_project_open(&project, &coder(false, None), &missing),
        ProjectOpenStep::Fail { message }
            if message == "Could not open project: Coder workspace is missing and guarded creation is disabled"
    ));
    assert!(matches!(
        continue_project_open(&project, &coder(true, None), &missing),
        ProjectOpenStep::Fail { message }
            if message == "Could not open project: guarded Coder creation requires a template"
    ));
    assert!(matches!(
        continue_project_open(&project, &coder(true, Some(vec!["make".into()])), &missing),
        ProjectOpenStep::CreateCoder { command } if command == vec!["make".to_string()]
    ));
    assert!(matches!(
        continue_project_open(
            &project,
            &coder(false, None),
            &ProjectOpenEvent::CoderListed(Ok(true))
        ),
        ProjectOpenStep::OpenCommandTab { argv, location: None, .. } if argv.len() == 2
    ));
    let host = HostConfig {
        name: "beta".into(),
        ssh_target: Some("me@beta".into()),
    };
    assert!(matches!(
        connect_host(&host),
        HostConnectStep::ValidateTmux { host } if host.name == "beta"
    ));
    assert!(matches!(
        continue_host_connect(&host, &Ok(())),
        HostConnectStep::OpenTmuxTab { name, host }
            if name == "beta" && host.ssh_target.as_deref() == Some("me@beta")
    ));
    assert!(matches!(
        continue_host_connect(&host, &Err("no tmux".into())),
        HostConnectStep::Fail { message } if message == "Could not connect to beta: no tmux"
    ));
    assert_eq!(
        connect_host_failure(
            &HostConfig {
                name: "beta".into(),
                ssh_target: None
            },
            "timeout"
        ),
        "Could not connect to beta: timeout"
    );
}

#[test]
fn changes_are_reported() {
    let change = StoredChange::DeleteTemplate(TemplateKind::Workspace);
    assert_eq!(
        change.request_key("api"),
        "palette-delete-template:Workspace:api"
    );
    let notice = change
        .result_notice("api", &Ok(false))
        .expect("a missing template is an error");
    assert_eq!(notice.message, "workspace template \"api\" no longer exists");
    assert!(notice.is_error);
    assert_eq!(change.result_notice("api", &Ok(true)), None);
    let notice = StoredChange::ForgetProject
        .result_notice("p1", &Ok(true))
        .expect("a notice");
    assert_eq!(notice.message, "Registered project forgotten");
    assert!(!notice.is_error);
    let notice = StoredChange::SaveView
        .result_notice("v", &Err("full".into()))
        .expect("a notice");
    assert_eq!(notice.message, "Could not save view: full");
    let notice = StoredChange::MarkProjectOpened
        .submission_notice(GitAsyncSubmission::Saturated)
        .expect("a notice");
    assert_eq!(notice.message, "Project history queue is busy; retry shortly");
    assert!(notice.is_error);
    let notice = StoredChange::SaveTabTemplate
        .submission_notice(GitAsyncSubmission::Coalesced)
        .expect("a notice");
    assert_eq!(notice.message, "Tab template save is already running");
    assert!(!notice.is_error);
    assert_eq!(
        StoredChange::DeleteView.submission_notice(GitAsyncSubmission::Started),
        None
    );
    assert_eq!(
        forget_project_question(&site()),
        "Remove Site on local at /srv/site from the registered project list? The checkout will not be changed."
    );
    assert_eq!(
        delete_template_question(TemplateKind::Tab, "api"),
        "Delete tab template \"api\"?"
    );
    assert_eq!(delete_view_question("v"), "Delete saved view \"v\"?");
    assert_eq!(remove_worktree_question("/w"), "Remove worktree at /w?");
    assert_eq!(accepted_name("  x "), Some("x".to_string()));
    assert_eq!(accepted_name("  "), None);
    assert!(shows_deleted_view(&Some("Mine".into()), "mINE"));
    assert!(!shows_deleted_view(&None, "mine"));
    assert_eq!(
        new_saved_view("v".into(), ViewPreset::RecentAlerts, "Recent Alerts".into()).limit,
        Some(20)
    );
    assert_eq!(
        new_saved_view("v".into(), ViewPreset::ListeningPorts, "Ports".into()).limit,
        None
    );
}

#[test]
fn rows_and_polls() {
    assert_eq!(moved_selection(None, 3, true), None);
    assert_eq!(moved_selection(Some(1), 3, true), Some(2));
    assert_eq!(moved_selection(Some(2), 3, true), Some(2));
    assert_eq!(moved_selection(Some(1), 3, false), Some(0));
    assert_eq!(moved_selection(Some(0), 3, false), Some(0));
    assert!(polls_task_discovery(
        PaletteMode::Default,
        Some(TaskDiscoveryRequest::Pending)
    ));
    assert!(!polls_task_discovery(
        PaletteMode::Default,
        Some(TaskDiscoveryRequest::UseCached)
    ));
    assert!(!polls_task_discovery(
        PaletteMode::RecentFiles,
        Some(TaskDiscoveryRequest::Start)
    ));
    assert!(!polls_task_discovery(PaletteMode::Default, None));
    assert_eq!(poll_step(true, PaletteMode::Default, true), (true, true));
    assert_eq!(poll_step(true, PaletteMode::Default, false), (true, false));
    assert_eq!(poll_step(false, PaletteMode::Default, true), (false, false));
    assert!(relists_after_worktree_answer(false, true, PaletteMode::Default));
    assert!(!relists_after_worktree_answer(true, true, PaletteMode::Default));
    assert!(relists_after_worktree_answer(
        true,
        true,
        PaletteMode::WorktreeRemove
    ));
}

#[test]
fn checkouts_are_asked_about_by_name() {
    let key = |reason| discovery_key(reason, 7, "/repo-x");
    assert_eq!(key(DiscoveryReason::NewWorkspace), "discover:new-workspace:7");
    assert_eq!(
        key(DiscoveryReason::RestoredWorkspace),
        "discover:restore-workspace:7"
    );
    assert_eq!(
        key(DiscoveryReason::TemplateWorkspace),
        "discover:template-workspace:7"
    );
    assert_eq!(
        key(DiscoveryReason::WorktreeWorkspace),
        "discover:worktree-workspace:7:/repo-x"
    );
    assert_eq!(
        discovery_busy_notice(
            DiscoveryReason::TemplateWorkspace,
            GitAsyncSubmission::Saturated
        )
        .as_deref(),
        Some("Git metadata refresh is busy; template workspace details will refresh later")
    );
    assert_eq!(
        discovery_busy_notice(DiscoveryReason::NewWorkspace, GitAsyncSubmission::Coalesced),
        None
    );
}

#[test]
fn a_request_can_name_the_repository() {
    let mut state = AppState::new("w".to_string());
    scope_workspace_to_repo(&mut state, 1, &None);
    assert_eq!(state.workspaces[0].repo_root, None);
    assert_eq!(
        worktree_source(&state),
        Err("Create worktree requires a git repository")
    );
    scope_workspace_to_repo(&mut state, 9, &Some("/repo".to_string()));
    assert_eq!(state.workspaces[0].repo_root, None);
    scope_workspace_to_repo(&mut state, 1, &Some("/repo".to_string()));
    assert_eq!(state.workspaces[0].repo_root.as_deref(), Some("/repo"));
    assert_eq!(worktree_source(&state), Ok("/repo".to_string()));
}

#[test]
fn command_loops_fall_back_to_a_new_tab() {
    assert_eq!(
        place_after_split(3, Some(8)),
        LoopPlace::Pane {
            tab_id: 3,
            pane_id: 8
        }
    );
    assert_eq!(place_after_split(3, None), LoopPlace::NewTab);
}

#[test]
fn unneeded_worktrees_are_reported() {
    assert_eq!(worktree_rollback_key("/repo-x"), "worktree-rollback:/repo-x");
    let done = worktree_rollback_notice("/repo-x", &Ok(()));
    assert_eq!(done.message, "Removed worktree created for a closed workspace");
    assert!(!done.is_error);
    let failed = worktree_rollback_notice("/repo-x", &Err("locked".to_string()));
    assert_eq!(
        failed.message,
        "Created worktree /repo-x, but could not roll it back after its source closed: locked"
    );
    assert!(failed.is_error);
}

#[test]
fn changes_outdate_their_list() {
    let yes: Result<bool, String> = Ok(true);
    let no: Result<bool, String> = Ok(false);
    let failed: Result<bool, String> = Err("disk".to_string());
    assert_eq!(
        StoredChange::ForgetProject.outdated_store(&yes),
        Some(StoreKind::Projects)
    );
    assert_eq!(StoredChange::ForgetProject.outdated_store(&no), None);
    assert_eq!(
        StoredChange::SaveTabTemplate.outdated_store(&no),
        Some(StoreKind::Templates)
    );
    assert_eq!(
        StoredChange::DeleteTemplate(TemplateKind::Tab).outdated_store(&no),
        None
    );
    assert_eq!(
        StoredChange::DeleteView.outdated_store(&yes),
        Some(StoreKind::Views)
    );
    assert_eq!(StoredChange::SaveView.outdated_store(&failed), None);
    assert_eq!(StoredChange::MarkProjectOpened.outdated_store(&yes), None);
}

#[test]
fn templates_start_with_the_name_of_what_they_save() {
    let mut state = AppState::new("w".to_string());
    assert_eq!(
        tab_template_name(&state),
        Err("Cannot save tab template without an active tab")
    );
    assert_eq!(
        workspace_template_name(&state),
        Err("Cannot save an empty workspace as a template")
    );
    assert_eq!(
        snapshot_tab_template(&state, "t".to_string(), None),
        Err("Active tab disappeared before saving template")
    );
    state.workspaces[0].tabs.push(stub_tab(4, "editor"));
    state.workspaces[0].active_tab = 4;
    assert_eq!(tab_template_name(&state), Ok("editor".to_string()));
    assert_eq!(workspace_template_name(&state), Ok("default".to_string()));
    let tree = Some("{}".to_string());
    let record = snapshot_tab_template(&state, "mine".to_string(), tree).expect("a template");
    assert!(matches!(
        &record,
        TemplateRecord::Tab { tab, .. } if tab.panes.as_deref() == Some("{}")
    ));
    assert_eq!(record.name(), "mine");
    assert_eq!(record.kind(), TemplateKind::Tab);
    state.active_workspace = 9;
    assert_eq!(
        workspace_template_name(&state),
        Err("Cannot save workspace template without an active workspace")
    );
}

#[test]
fn the_first_local_directory_of_a_template_counts() {
    let tab = |cwd: Option<&str>| SavedTab {
        name: "t".into(),
        work_origin: None,
        cwd: cwd.map(str::to_string),
        panes: None,
        discovery_cwd: None,
    };
    let tabs = vec![
        tab(None),
        tab(Some("file://box/srv")),
        tab(Some("file:///home/u")),
        tab(Some("/late")),
    ];
    let uris = vec![
        None,
        Some((Some("box".to_string()), "/srv".to_string())),
        Some((None, "/home/u".to_string())),
        None,
    ];
    assert_eq!(template_git_path(&tabs, &uris).as_deref(), Some("/home/u"));
    assert_eq!(template_git_path(&Vec::new(), &Vec::new()), None);
}

#[test]
fn opening_the_palette_forgets_the_lists() {
    let mut projects: PaletteStore<u8> = PaletteStore::new();
    let mut templates: PaletteStore<u8> = PaletteStore::new();
    let mut views: PaletteStore<u8> = PaletteStore::new();
    let request = projects.begin().expect("a request");
    projects.finish(request, Err("broken".to_string()));
    forget_palette_stores(&mut projects, &mut templates, &mut views);
    assert!(projects.value.is_none());
    assert_eq!(projects.begin(), Some(1));
    assert_eq!(views.begin(), Some(1));
}
